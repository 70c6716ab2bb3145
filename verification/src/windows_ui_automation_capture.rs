//! UI Automation focused-element capture.
//!
//! Metadata of the focused control is preferred over screenshots because it
//! carries meaning without keeping pixels. Captured text is bounded, and
//! password controls never keep their value or selection.
use vstd::prelude::*;
use std::time::SystemTime;
use crate::text::{
    string_from, append_str, truncate_chars, take_chars, contains_ignore_ascii_case, ascii_lower,
    seq_contains_run,
};
use crate::raw_event::{RawEvent, FULL_CONFIDENCE_PERMILLE, stamp_now, stamped_at, is_hyphenated_uuid};
use crate::json::{json_string_literal, json_string};

verus! {

/// Characters of an element name that are kept.
pub const MAX_ELEMENT_NAME_CHARS: usize = 512;

/// Characters of an element value or a selection that are kept.
pub const MAX_ELEMENT_TEXT_CHARS: usize = 4096;

/// What UI Automation reports about the focused element.
#[derive(Debug, Clone)]
pub struct FocusedElementSnapshot {
    pub automation_id: Option<String>,
    pub control_type: Option<String>,
    pub element_name: Option<String>,
    pub element_value: Option<String>,
    pub class_name: Option<String>,
    pub framework_id: Option<String>,
    pub bounds_json: Option<String>,
    pub selected_text: Option<String>,
}

impl Default for FocusedElementSnapshot {
    fn default() -> (s: Self)
        ensures
            s.automation_id is None,
            s.control_type is None,
            s.element_name is None,
            s.element_value is None,
            s.class_name is None,
            s.framework_id is None,
            s.bounds_json is None,
            s.selected_text is None,
    {
        FocusedElementSnapshot {
            automation_id: None,
            control_type: None,
            element_name: None,
            element_value: None,
            class_name: None,
            framework_id: None,
            bounds_json: None,
            selected_text: None,
        }
    }
}

/// The view of an optional string.
pub open spec fn opt_view(o: Option<String>) -> Option<Seq<char>> {
    match o {
        Some(s) => Some(s@),
        None => None,
    }
}

/// An optional string cut to its first `n` characters.
pub open spec fn opt_take(o: Option<Seq<char>>, n: nat) -> Option<Seq<char>> {
    match o {
        Some(s) => Some(take_chars(s, n)),
        None => None,
    }
}

/// Whether a control type names a password field (ASCII case ignored).
pub open spec fn is_protected_control(control_type: Option<Seq<char>>) -> bool {
    match control_type {
        Some(t) => seq_contains_run(ascii_lower(t), ascii_lower("password"@)),
        None => false,
    }
}

/// `result` is the sanitized form of `original`: names cut to 512
/// characters, values and selections to 4096, and a password control's
/// value and selection dropped; everything else unchanged.
pub open spec fn is_sanitized_form(original: FocusedElementSnapshot, result: FocusedElementSnapshot) -> bool {
    let protected = is_protected_control(opt_view(original.control_type));
    &&& result.automation_id == original.automation_id
    &&& result.control_type == original.control_type
    &&& result.class_name == original.class_name
    &&& result.framework_id == original.framework_id
    &&& result.bounds_json == original.bounds_json
    &&& opt_view(result.element_name) == opt_take(opt_view(original.element_name), 512)
    &&& opt_view(result.element_value) == (if protected {
        None
    } else {
        opt_take(opt_view(original.element_value), 4096)
    })
    &&& opt_view(result.selected_text) == (if protected {
        None
    } else {
        opt_take(opt_view(original.selected_text), 4096)
    })
}

fn truncate_optional(o: Option<String>, n: usize) -> (r: Option<String>)
    ensures
        opt_view(r) == opt_take(opt_view(o), n as nat),
{
    match o {
        Some(s) => Some(truncate_chars(s.as_str(), n)),
        None => None,
    }
}

/// Whether the control type names a password field.
pub fn is_protected_control_type(control_type: &Option<String>) -> (r: bool)
    ensures
        r == is_protected_control(opt_view(*control_type)),
{
    match control_type {
        Some(t) => contains_ignore_ascii_case(t.as_str(), "password"),
        None => false,
    }
}

impl FocusedElementSnapshot {
    /// Bounds captured text and drops the value and selection of password
    /// controls.
    pub fn sanitize(self) -> (r: Self)
        ensures
            is_sanitized_form(self, r),
    {
        let protected = is_protected_control_type(&self.control_type);
        let element_name = truncate_optional(self.element_name, MAX_ELEMENT_NAME_CHARS);
        let element_value = truncate_optional(self.element_value, MAX_ELEMENT_TEXT_CHARS);
        let selected_text = truncate_optional(self.selected_text, MAX_ELEMENT_TEXT_CHARS);
        FocusedElementSnapshot {
            automation_id: self.automation_id,
            control_type: self.control_type,
            element_name,
            element_value: if protected {
                None
            } else {
                element_value
            },
            class_name: self.class_name,
            framework_id: self.framework_id,
            bounds_json: self.bounds_json,
            selected_text: if protected {
                None
            } else {
                selected_text
            },
        }
    }
}

proof fn lemma_take_chars_idempotent(s: Seq<char>, n: nat)
    ensures
        take_chars(take_chars(s, n), n) == take_chars(s, n),
{
}

/// Sanitizing is idempotent: sanitizing a sanitized snapshot changes none
/// of what it says.
pub proof fn lemma_sanitize_idempotent(
    a: FocusedElementSnapshot,
    b: FocusedElementSnapshot,
    c: FocusedElementSnapshot,
)
    requires
        is_sanitized_form(a, b),
        is_sanitized_form(b, c),
    ensures
        c.automation_id == b.automation_id,
        c.control_type == b.control_type,
        c.class_name == b.class_name,
        c.framework_id == b.framework_id,
        c.bounds_json == b.bounds_json,
        opt_view(c.element_name) == opt_view(b.element_name),
        opt_view(c.element_value) == opt_view(b.element_value),
        opt_view(c.selected_text) == opt_view(b.selected_text),
{
    if let Some(s) = opt_view(a.element_name) {
        lemma_take_chars_idempotent(s, 512);
    }
    if let Some(s) = opt_view(a.element_value) {
        lemma_take_chars_idempotent(s, 4096);
    }
    if let Some(s) = opt_view(a.selected_text) {
        lemma_take_chars_idempotent(s, 4096);
    }
}

/// JSON for an optional string: the string, or `null`.
pub open spec fn json_optional(o: Option<Seq<char>>) -> Seq<char> {
    match o {
        Some(s) => json_string_literal(s),
        None => "null"@,
    }
}

fn json_optional_exec(o: &Option<String>) -> (r: String)
    ensures
        r@ == json_optional(opt_view(*o)),
{
    match o {
        Some(s) => json_string(s.as_str()),
        None => string_from("null"),
    }
}

/// The metadata stored with a focused-element event: a compact JSON object
/// with its keys in sorted order, as `serde_json` writes an object.
pub open spec fn element_metadata_json(s: FocusedElementSnapshot) -> Seq<char> {
    "{\"automation_id\":"@ + json_optional(opt_view(s.automation_id)) + ",\"bounds\":"@
        + json_optional(opt_view(s.bounds_json)) + ",\"class_name\":"@ + json_optional(
        opt_view(s.class_name),
    ) + ",\"control_type\":"@ + json_optional(opt_view(s.control_type)) + ",\"element_value\":"@
        + json_optional(opt_view(s.element_value)) + ",\"framework_id\":"@ + json_optional(
        opt_view(s.framework_id),
    ) + "}"@
}

fn element_metadata(s: &FocusedElementSnapshot) -> (r: String)
    ensures
        r@ == element_metadata_json(*s),
{
    let mut m = string_from("{\"automation_id\":");
    let v = json_optional_exec(&s.automation_id);
    append_str(&mut m, v.as_str());
    append_str(&mut m, ",\"bounds\":");
    let v = json_optional_exec(&s.bounds_json);
    append_str(&mut m, v.as_str());
    append_str(&mut m, ",\"class_name\":");
    let v = json_optional_exec(&s.class_name);
    append_str(&mut m, v.as_str());
    append_str(&mut m, ",\"control_type\":");
    let v = json_optional_exec(&s.control_type);
    append_str(&mut m, v.as_str());
    append_str(&mut m, ",\"element_value\":");
    let v = json_optional_exec(&s.element_value);
    append_str(&mut m, v.as_str());
    append_str(&mut m, ",\"framework_id\":");
    let v = json_optional_exec(&s.framework_id);
    append_str(&mut m, v.as_str());
    append_str(&mut m, "}");
    m
}

/// The event for a focused element: the snapshot is sanitized first; the
/// element's name and selection become the event's, the rest its metadata.
/// A password control is classed as a protected field and keeps neither
/// its value nor its selection.
pub fn normalize_focused_element(snapshot: FocusedElementSnapshot) -> (e: RawEvent)
    ensures
        is_hyphenated_uuid(e.id@),
        e.event_type@ == "element_focused"@,
        e.source@ == "windows_ui_automation"@,
        e.app_name is None,
        e.executable_path is None,
        e.process_id is None,
        e.window_handle is None,
        e.window_title is None,
        e.file_path is None,
        e.confidence_permille == FULL_CONFIDENCE_PERMILLE,
        exists|s: FocusedElementSnapshot|
            #[trigger] is_sanitized_form(snapshot, s) && e.element_name == s.element_name
                && e.text == s.selected_text && e.metadata_json@ == element_metadata_json(s),
        e.privacy_class@ == (if is_protected_control(opt_view(snapshot.control_type)) {
            "protected_field"@
        } else {
            "ui_automation_metadata"@
        }),
        is_protected_control(opt_view(snapshot.control_type)) ==> e.text is None,
        exists|t: SystemTime| #[trigger] stamped_at(e.timestamp_ns, e.created_at@, t),
{
    let ghost original = snapshot;
    let s = snapshot.sanitize();
    let protected = is_protected_control_type(&s.control_type);
    let metadata_json = element_metadata(&s);
    let stamp = stamp_now();
    let privacy_class = if protected {
        string_from("protected_field")
    } else {
        string_from("ui_automation_metadata")
    };
    let e = RawEvent {
        id: stamp.id,
        timestamp_ns: stamp.timestamp_ns,
        event_type: string_from("element_focused"),
        source: string_from("windows_ui_automation"),
        app_name: None,
        executable_path: None,
        process_id: None,
        window_handle: None,
        window_title: None,
        element_name: s.element_name,
        text: s.selected_text,
        file_path: None,
        metadata_json,
        privacy_class,
        confidence_permille: FULL_CONFIDENCE_PERMILLE,
        created_at: stamp.created_at,
    };
    assert(is_sanitized_form(original, s));
    let ghost t = choose|t: SystemTime| stamped_at(stamp.timestamp_ns, stamp.created_at@, t);
    assert(stamped_at(e.timestamp_ns, e.created_at@, t));
    e
}

/// Reads the focused element.
pub trait UiAutomationProvider: Send {
    fn is_available(&self) -> bool;

    fn focused_element(&self) -> Result<Option<FocusedElementSnapshot>, String>;
}

/// The UI Automation provider of this build. Reading the focused element
/// needs the Windows COM bindings, which this build does not have, so it
/// reports no element: an unavailable or inaccessible focus is a normal
/// outcome, not a failure.
pub struct WindowsUiAutomationProvider;

impl UiAutomationProvider for WindowsUiAutomationProvider {
    fn is_available(&self) -> (r: bool)
        ensures
            !r,
    {
        false
    }

    fn focused_element(&self) -> (r: Result<Option<FocusedElementSnapshot>, String>)
        ensures
            r == Ok::<Option<FocusedElementSnapshot>, String>(None),
    {
        Ok(None)
    }
}

} // verus!
