//! Capture settings, privacy exclusions, and the normalization of foreground
//! window activity into raw events.
//!
//! Capture never waits for semantic processing. Privacy-sensitive capture
//! (keyboard text, screenshots) is off until the user opts in, and
//! exclusions are checked before anything is persisted.
use vstd::prelude::*;
use std::time::SystemTime;
use crate::text::{
    string_from, append_str, trim, trim_seq, ascii_lower, ascii_lower_char, to_ascii_lowercase,
    eq_ignore_ascii_case, string_views,
    i64_to_decimal, signed_decimal, chars_of, push_char, lemma_ascii_lower_idempotent,
};
use crate::path_text::{
    path_components, path_components_of, lemma_components_split, lemma_components_of_empty, contains_components, contains_component_run, file_stem,
    file_stem_of, last_dot, is_separator,
};
use crate::raw_event::{RawEvent, EventStamp, FULL_CONFIDENCE_PERMILLE, stamp_now, stamped_at, is_hyphenated_uuid};

verus! {

/// How much of typed input the keyboard provider may keep.
#[derive(Debug, Clone, Copy, PartialEq, Eq, Structural)]
pub enum KeyboardMode {
    MetadataOnly,
    AllowlistedText,
    FullText,
}

impl Default for KeyboardMode {
    fn default() -> (m: Self)
        ensures
            m == KeyboardMode::MetadataOnly,
    {
        KeyboardMode::MetadataOnly
    }
}

/// The user's capture choices. The default captures nothing.
#[derive(Debug, Clone)]
pub struct CaptureSettings {
    pub enabled: bool,
    pub mouse_enabled: bool,
    pub keyboard_enabled: bool,
    pub keyboard_mode: KeyboardMode,
    pub keyboard_text_allowlist: Vec<String>,
    pub excluded_applications: Vec<String>,
    pub excluded_paths: Vec<String>,
    pub watched_folders: Vec<String>,
    pub screenshots_enabled: bool,
}

impl Default for CaptureSettings {
    fn default() -> (s: Self)
        ensures
            !s.enabled,
            !s.mouse_enabled,
            !s.keyboard_enabled,
            s.keyboard_mode == KeyboardMode::MetadataOnly,
            s.keyboard_text_allowlist@.len() == 0,
            s.excluded_applications@.len() == 0,
            s.excluded_paths@.len() == 0,
            s.watched_folders@.len() == 0,
            !s.screenshots_enabled,
    {
        CaptureSettings {
            enabled: false,
            mouse_enabled: false,
            keyboard_enabled: false,
            keyboard_mode: KeyboardMode::MetadataOnly,
            keyboard_text_allowlist: Vec::new(),
            excluded_applications: Vec::new(),
            excluded_paths: Vec::new(),
            watched_folders: Vec::new(),
            screenshots_enabled: false,
        }
    }
}

/// Whether one application exclusion `pattern` covers a process: ignoring
/// ASCII case, the pattern equals the executable's file name, its file
/// stem, or the application name. A pattern that is only part of a name
/// does not count: `code` covers `Code.exe` but not `decode.exe`.
pub open spec fn application_pattern_matches(
    pattern: Seq<char>,
    executable_path: Seq<char>,
    app_name: Seq<char>,
) -> bool {
    let name = last_path_segment(executable_path);
    ||| ascii_lower(name) == ascii_lower(pattern)
    ||| ascii_lower(file_stem(name)) == ascii_lower(pattern)
    ||| ascii_lower(app_name) == ascii_lower(pattern)
}

/// Whether some exclusion in `patterns` covers a process.
pub open spec fn application_excluded(
    patterns: Seq<Seq<char>>,
    executable_path: Seq<char>,
    app_name: Seq<char>,
) -> bool {
    exists|i: int|
        0 <= i < patterns.len() && #[trigger] application_pattern_matches(
            patterns[i],
            executable_path,
            app_name,
        )
}

/// Whether one path exclusion `pattern` covers `path`: ignoring ASCII case,
/// the pattern's components occur as consecutive components of the path.
/// Part of a component does not count: `secrets` covers `\\Secrets\\` but
/// not `\\Secretariat\\`.
pub open spec fn path_pattern_matches(pattern: Seq<char>, path: Seq<char>) -> bool {
    contains_components(path_components(ascii_lower(path)), path_components(ascii_lower(pattern)))
}

/// Whether some exclusion in `patterns` occurs in `path`.
pub open spec fn path_excluded(patterns: Seq<Seq<char>>, path: Seq<char>) -> bool {
    exists|i: int| 0 <= i < patterns.len() && #[trigger] path_pattern_matches(patterns[i], path)
}

/// Path exclusions ignore ASCII case: a path is excluded exactly when its
/// lower-case form is.
pub proof fn law_path_exclusion_ignores_case(patterns: Seq<Seq<char>>, path: Seq<char>)
    ensures
        path_excluded(patterns, path) == path_excluded(patterns, ascii_lower(path)),
{
    lemma_ascii_lower_idempotent(path);
    if path_excluded(patterns, path) {
        let i = choose|i: int| 0 <= i < patterns.len() && #[trigger] path_pattern_matches(patterns[i], path);
        assert(path_pattern_matches(patterns[i], ascii_lower(path)));
    }
    if path_excluded(patterns, ascii_lower(path)) {
        let i = choose|i: int|
            0 <= i < patterns.len() && #[trigger] path_pattern_matches(patterns[i], ascii_lower(path));
        assert(path_pattern_matches(patterns[i], path));
    }
}

proof fn lemma_lower_split(a: Seq<char>, c: char, b: Seq<char>)
    requires
        is_separator(c),
    ensures
        ascii_lower(a + seq![c] + b) == ascii_lower(a) + seq![c] + ascii_lower(b),
{
    assert(ascii_lower(a + seq![c] + b) =~= ascii_lower(a) + seq![c] + ascii_lower(b));
}

/// Excluding a folder excludes everything inside it, however the folder is
/// written: any path made of the folder, a separator and anything after it
/// is excluded by the folder's entry, and so is the folder followed directly
/// by anything when the entry already ends with a separator.
pub proof fn law_folder_exclusion_covers_its_contents(folder: Seq<char>, sep: char, rest: Seq<char>)
    requires
        is_separator(sep),
    ensures
        path_excluded(seq![folder], folder + seq![sep] + rest),
        folder.len() > 0 && is_separator(folder.last()) ==> path_excluded(seq![folder], folder + rest),
{
    let pattern = path_components(ascii_lower(folder));
    lemma_lower_split(folder, sep, rest);
    lemma_components_split(ascii_lower(folder), sep, ascii_lower(rest));
    let hay = path_components(ascii_lower(folder + seq![sep] + rest));
    assert(hay == pattern + path_components(ascii_lower(rest)));
    let at: int = 0;
    assert(hay.subrange(at, at + pattern.len()) =~= pattern);
    assert(at + pattern.len() <= hay.len());
    assert(contains_components(hay, pattern));
    assert(seq![folder][0] == folder);
    assert(path_pattern_matches(seq![folder][0], folder + seq![sep] + rest));
    if folder.len() > 0 && is_separator(folder.last()) {
        let q = folder.drop_last();
        let s = folder.last();
        assert(folder =~= q + seq![s] + Seq::<char>::empty());
        assert(folder + rest =~= q + seq![s] + rest);
        lemma_lower_split(q, s, Seq::<char>::empty());
        lemma_lower_split(q, s, rest);
        assert(ascii_lower(Seq::<char>::empty()) =~= Seq::<char>::empty());
        lemma_components_split(ascii_lower(q), s, Seq::<char>::empty());
        lemma_components_split(ascii_lower(q), s, ascii_lower(rest));
        lemma_components_of_empty();
        let p2 = path_components(ascii_lower(folder));
        assert(p2 =~= path_components(ascii_lower(q)));
        let hay2 = path_components(ascii_lower(folder + rest));
        assert(hay2 == path_components(ascii_lower(q)) + path_components(ascii_lower(rest)));
        assert(hay2.subrange(0, p2.len() as int) =~= p2);
        assert(path_pattern_matches(seq![folder][0], folder + rest));
    }
}

proof fn lemma_lower_drop_last(s: Seq<char>)
    requires
        s.len() > 0,
    ensures
        ascii_lower(s).drop_last() == ascii_lower(s.drop_last()),
        ascii_lower(s).last() == ascii_lower_char(s.last()),
{
    assert(ascii_lower(s).drop_last() =~= ascii_lower(s.drop_last()));
}

proof fn lemma_last_segment_lower(s: Seq<char>)
    ensures
        last_path_segment(ascii_lower(s)) == ascii_lower(last_path_segment(s)),
    decreases s.len(),
{
    if s.len() > 0 {
        lemma_lower_drop_last(s);
        lemma_last_segment_lower(s.drop_last());
        let prev = last_path_segment(s.drop_last());
        assert(ascii_lower(prev.push(s.last())) =~= ascii_lower(prev).push(ascii_lower_char(s.last())));
        assert(ascii_lower(Seq::<char>::empty()) =~= Seq::<char>::empty());
    } else {
        assert(ascii_lower(s) =~= s);
    }
}

proof fn lemma_last_dot_lower(s: Seq<char>)
    ensures
        last_dot(ascii_lower(s)) == last_dot(s),
    decreases s.len(),
{
    if s.len() > 0 {
        lemma_lower_drop_last(s);
        lemma_last_dot_lower(s.drop_last());
    }
}

proof fn lemma_last_dot_bounds(s: Seq<char>)
    ensures
        -1 <= last_dot(s) < s.len(),
    decreases s.len(),
{
    if s.len() > 0 {
        lemma_last_dot_bounds(s.drop_last());
    }
}

proof fn lemma_stem_lower(name: Seq<char>)
    ensures
        file_stem(ascii_lower(name)) == ascii_lower(file_stem(name)),
{
    lemma_last_dot_lower(name);
    lemma_last_dot_bounds(name);
    let d = last_dot(name);
    if d > 0 {
        assert(ascii_lower(name).take(d) =~= ascii_lower(name.take(d)));
    }
}

/// Application exclusions ignore ASCII case in both the executable path
/// and the application name.
pub proof fn law_application_exclusion_ignores_case(
    patterns: Seq<Seq<char>>,
    executable_path: Seq<char>,
    app_name: Seq<char>,
)
    ensures
        application_excluded(patterns, executable_path, app_name) == application_excluded(
            patterns,
            ascii_lower(executable_path),
            ascii_lower(app_name),
        ),
{
    lemma_ascii_lower_idempotent(executable_path);
    lemma_ascii_lower_idempotent(app_name);
    let lp = ascii_lower(executable_path);
    let ln = ascii_lower(app_name);
    let name = last_path_segment(executable_path);
    lemma_last_segment_lower(executable_path);
    lemma_ascii_lower_idempotent(name);
    lemma_stem_lower(name);
    lemma_ascii_lower_idempotent(file_stem(name));
    if application_excluded(patterns, executable_path, app_name) {
        let i = choose|i: int|
            0 <= i < patterns.len() && #[trigger] application_pattern_matches(patterns[i], executable_path, app_name);
        assert(application_pattern_matches(patterns[i], lp, ln));
    }
    if application_excluded(patterns, lp, ln) {
        let i = choose|i: int| 0 <= i < patterns.len() && #[trigger] application_pattern_matches(patterns[i], lp, ln);
        assert(application_pattern_matches(patterns[i], executable_path, app_name));
    }
}

/// Whether `app_name` equals an allowlist entry, ignoring ASCII case.
pub open spec fn allowlisted(allowlist: Seq<Seq<char>>, app_name: Seq<char>) -> bool {
    exists|i: int|
        0 <= i < allowlist.len() && #[trigger] ascii_lower(allowlist[i]) == ascii_lower(app_name)
}

/// Whether some entry of `excluded_paths` occurs in `path`, ignoring ASCII
/// case.
pub fn matches_path_exclusion(excluded_paths: &Vec<String>, path: &str) -> (r: bool)
    ensures
        r == path_excluded(string_views(excluded_paths@), path@),
{
    let ghost patterns = string_views(excluded_paths@);
    let lowered = to_ascii_lowercase(path);
    let parts = path_components_of(lowered.as_str());
    let mut i: usize = 0;
    while i < excluded_paths.len()
        invariant
            patterns == string_views(excluded_paths@),
            string_views(parts@) == path_components(ascii_lower(path@)),
            i <= excluded_paths@.len(),
            forall|j: int| 0 <= j < i ==> !#[trigger] path_pattern_matches(patterns[j], path@),
        decreases excluded_paths@.len() - i,
    {
        let pattern = to_ascii_lowercase(excluded_paths[i].as_str());
        let pattern_parts = path_components_of(pattern.as_str());
        if contains_component_run(&parts, &pattern_parts) {
            assert(path_pattern_matches(patterns[i as int], path@));
            return true;
        }
        i = i + 1;
    }
    false
}

/// Error for a permission request naming neither input device.
pub const UNKNOWN_INPUT: &'static str = "input must be keyboard or mouse";

impl CaptureSettings {
    /// Whether activity of the process at `executable_path` (application
    /// `app_name`) must not be captured.
    pub fn excludes_application(&self, executable_path: &str, app_name: &str) -> (r: bool)
        ensures
            r == application_excluded(
                string_views(self.excluded_applications@),
                executable_path@,
                app_name@,
            ),
    {
        let ghost patterns = string_views(self.excluded_applications@);
        let name = app_name_from_executable_path(executable_path);
        let stem = file_stem_of(name.as_str());
        let mut i: usize = 0;
        while i < self.excluded_applications.len()
            invariant
                patterns == string_views(self.excluded_applications@),
                name@ == last_path_segment(executable_path@),
                stem@ == file_stem(name@),
                i <= self.excluded_applications@.len(),
                forall|j: int|
                    0 <= j < i ==> !#[trigger] application_pattern_matches(
                        patterns[j],
                        executable_path@,
                        app_name@,
                    ),
            decreases self.excluded_applications@.len() - i,
        {
            let pattern = self.excluded_applications[i].as_str();
            if eq_ignore_ascii_case(name.as_str(), pattern) || eq_ignore_ascii_case(stem.as_str(), pattern)
                || eq_ignore_ascii_case(app_name, pattern) {
                assert(application_pattern_matches(patterns[i as int], executable_path@, app_name@));
                return true;
            }
            i = i + 1;
        }
        false
    }

    /// Whether files under `path` must not be captured.
    pub fn excludes_path(&self, path: &str) -> (r: bool)
        ensures
            r == path_excluded(string_views(self.excluded_paths@), path@),
    {
        matches_path_exclusion(&self.excluded_paths, path)
    }

    /// Whether typed text may be kept for `app_name`: only in allowlisted
    /// text mode, and only for allowlisted applications.
    pub fn allows_keyboard_text(&self, app_name: &str) -> (r: bool)
        ensures
            r == (self.keyboard_mode == KeyboardMode::AllowlistedText && allowlisted(
                string_views(self.keyboard_text_allowlist@),
                app_name@,
            )),
    {
        if self.keyboard_mode != KeyboardMode::AllowlistedText {
            return false;
        }
        let ghost allow = string_views(self.keyboard_text_allowlist@);
        let mut i: usize = 0;
        while i < self.keyboard_text_allowlist.len()
            invariant
                self.keyboard_mode == KeyboardMode::AllowlistedText,
                allow == string_views(self.keyboard_text_allowlist@),
                i <= self.keyboard_text_allowlist@.len(),
                forall|j: int|
                    0 <= j < i ==> #[trigger] ascii_lower(allow[j]) != ascii_lower(app_name@),
            decreases self.keyboard_text_allowlist@.len() - i,
        {
            if eq_ignore_ascii_case(self.keyboard_text_allowlist[i].as_str(), app_name) {
                assert(ascii_lower(allow[i as int]) == ascii_lower(app_name@));
                return true;
            }
            i = i + 1;
        }
        false
    }

    /// Grants or withdraws permission for one input device, named
    /// `"keyboard"` or `"mouse"`; any other name is refused and changes
    /// nothing.
    pub fn set_input_permission(&mut self, input: &str, enabled: bool) -> (r: Result<(), String>)
        ensures
            input@ == "keyboard"@ ==> r is Ok && *final(self) == (CaptureSettings {
                keyboard_enabled: enabled,
                ..*old(self)
            }),
            input@ == "mouse"@ ==> r is Ok && *final(self) == (CaptureSettings {
                mouse_enabled: enabled,
                ..*old(self)
            }),
            input@ != "keyboard"@ && input@ != "mouse"@ ==> (r matches Err(e) && e@ == UNKNOWN_INPUT@)
                && *final(self) == *old(self),
    {
        proof {
            reveal_strlit("keyboard");
            reveal_strlit("mouse");
            assert("keyboard"@.len() != "mouse"@.len());
        }
        let name = string_from(input);
        let keyboard = string_from("keyboard");
        let mouse = string_from("mouse");
        if name == keyboard {
            self.keyboard_enabled = enabled;
            Ok(())
        } else if name == mouse {
            self.mouse_enabled = enabled;
            Ok(())
        } else {
            Err(string_from(UNKNOWN_INPUT))
        }
    }
}

// ---------------------------------------------------------------------------
// Normalizing user-entered lists
// ---------------------------------------------------------------------------

/// Appends `v` unless it is empty or already present.
pub open spec fn push_new_nonempty(acc: Seq<Seq<char>>, v: Seq<char>) -> Seq<Seq<char>> {
    if v.len() > 0 && !acc.contains(v) {
        acc.push(v)
    } else {
        acc
    }
}

/// Application exclusions as stored: each entry trimmed and lower-cased
/// (ASCII), empty entries dropped, later repeats dropped.
pub open spec fn normalized_applications(entries: Seq<Seq<char>>) -> Seq<Seq<char>>
    decreases entries.len(),
{
    if entries.len() == 0 {
        seq![]
    } else {
        push_new_nonempty(
            normalized_applications(entries.drop_last()),
            ascii_lower(trim_seq(entries.last())),
        )
    }
}

/// Entries trimmed, with empty ones and later repeats dropped (watched
/// folders before the directory check).
pub open spec fn unique_trimmed(entries: Seq<Seq<char>>) -> Seq<Seq<char>>
    decreases entries.len(),
{
    if entries.len() == 0 {
        seq![]
    } else {
        push_new_nonempty(unique_trimmed(entries.drop_last()), trim_seq(entries.last()))
    }
}

/// Entries trimmed, with empty ones dropped (path exclusions).
pub open spec fn trimmed_nonempty(entries: Seq<Seq<char>>) -> Seq<Seq<char>>
    decreases entries.len(),
{
    if entries.len() == 0 {
        seq![]
    } else {
        let rest = trimmed_nonempty(entries.drop_last());
        let t = trim_seq(entries.last());
        if t.len() > 0 {
            rest.push(t)
        } else {
            rest
        }
    }
}

fn vec_contains_string(v: &Vec<String>, s: &String) -> (r: bool)
    ensures
        r == string_views(v@).contains(s@),
{
    let ghost views = string_views(v@);
    let mut i: usize = 0;
    while i < v.len()
        invariant
            views == string_views(v@),
            i <= v@.len(),
            forall|j: int| 0 <= j < i ==> views[j] != s@,
        decreases v@.len() - i,
    {
        if v[i] == *s {
            assert(views[i as int] == s@);
            return true;
        }
        i = i + 1;
    }
    false
}

fn push_string(v: &mut Vec<String>, s: String)
    ensures
        string_views(final(v)@) == string_views(old(v)@).push(s@),
{
    let ghost before = v@;
    v.push(s);
    assert(string_views(v@) =~= string_views(before).push(s@));
}

/// Normalizes a list of application exclusions for storage.
pub fn normalize_excluded_applications(applications: &Vec<String>) -> (r: Vec<String>)
    ensures
        string_views(r@) == normalized_applications(string_views(applications@)),
{
    let ghost entries = string_views(applications@);
    let mut normalized: Vec<String> = Vec::new();
    let mut i: usize = 0;
    while i < applications.len()
        invariant
            entries == string_views(applications@),
            i <= applications@.len(),
            string_views(normalized@) == normalized_applications(entries.take(i as int)),
        decreases applications@.len() - i,
    {
        let trimmed = trim(applications[i].as_str());
        let value = to_ascii_lowercase(trimmed.as_str());
        assert(entries.take(i + 1).drop_last() =~= entries.take(i as int));
        assert(entries.take(i + 1).last() == applications@[i as int]@);
        if !value.as_str().is_empty() && !vec_contains_string(&normalized, &value) {
            push_string(&mut normalized, value);
        }
        i = i + 1;
    }
    assert(entries.take(applications@.len() as int) =~= entries);
    normalized
}

/// Normalizes a list of path exclusions for storage.
pub fn normalize_excluded_paths(paths: &Vec<String>) -> (r: Vec<String>)
    ensures
        string_views(r@) == trimmed_nonempty(string_views(paths@)),
{
    let ghost entries = string_views(paths@);
    let mut out: Vec<String> = Vec::new();
    let mut i: usize = 0;
    while i < paths.len()
        invariant
            entries == string_views(paths@),
            i <= paths@.len(),
            string_views(out@) == trimmed_nonempty(entries.take(i as int)),
        decreases paths@.len() - i,
    {
        let value = trim(paths[i].as_str());
        assert(entries.take(i + 1).drop_last() =~= entries.take(i as int));
        assert(entries.take(i + 1).last() == paths@[i as int]@);
        if value.as_str().is_empty() {
        } else {
            push_string(&mut out, value);
        }
        i = i + 1;
    }
    assert(entries.take(paths@.len() as int) =~= entries);
    out
}

/// Trims watched-folder entries and drops empty and repeated ones; the
/// caller then keeps those that are existing directories.
pub fn unique_trimmed_entries(entries_in: &Vec<String>) -> (r: Vec<String>)
    ensures
        string_views(r@) == unique_trimmed(string_views(entries_in@)),
{
    let ghost entries = string_views(entries_in@);
    let mut out: Vec<String> = Vec::new();
    let mut i: usize = 0;
    while i < entries_in.len()
        invariant
            entries == string_views(entries_in@),
            i <= entries_in@.len(),
            string_views(out@) == unique_trimmed(entries.take(i as int)),
        decreases entries_in@.len() - i,
    {
        let value = trim(entries_in[i].as_str());
        assert(entries.take(i + 1).drop_last() =~= entries.take(i as int));
        assert(entries.take(i + 1).last() == entries_in@[i as int]@);
        if !value.as_str().is_empty() && !vec_contains_string(&out, &value) {
            push_string(&mut out, value);
        }
        i = i + 1;
    }
    assert(entries.take(entries_in@.len() as int) =~= entries);
    out
}

// ---------------------------------------------------------------------------
// Capture providers
// ---------------------------------------------------------------------------

/// A source of activity that can be started and stopped.
pub trait CaptureProvider: Send {
    fn name(&self) -> &'static str;

    fn start(&mut self) -> Result<(), String>;

    fn stop(&mut self);

    fn is_available(&self) -> bool;
}

/// `std::path::MAIN_SEPARATOR`: `'\\'` on Windows, `'/'` elsewhere. It
/// depends on the platform the library was built for, so nothing is
/// promised about it.
#[verifier::external_body]
fn main_separator() -> (c: char) {
    std::path::MAIN_SEPARATOR
}

/// Whether the library runs on Windows, the only platform with a
/// foreground-window provider.
pub fn running_on_windows() -> (r: bool) {
    main_separator() == '\\'
}

/// Tracks the foreground window.
pub struct ForegroundWindowProvider {
    running: bool,
}

impl ForegroundWindowProvider {
    /// A stopped provider.
    pub fn new() -> (p: Self)
        ensures
            !p.is_running(),
    {
        ForegroundWindowProvider { running: false }
    }

    /// Whether the provider has been started and not stopped since.
    pub closed spec fn is_running(&self) -> bool {
        self.running
    }
}

impl CaptureProvider for ForegroundWindowProvider {
    fn name(&self) -> (n: &'static str)
        ensures
            n@ == "foreground_window"@,
    {
        "foreground_window"
    }

    fn start(&mut self) -> (r: Result<(), String>)
        ensures
            r is Ok,
            final(self).is_running(),
    {
        self.running = true;
        Ok(())
    }

    fn stop(&mut self)
        ensures
            !final(self).is_running(),
    {
        self.running = false;
    }

    fn is_available(&self) -> bool {
        running_on_windows()
    }
}

// ---------------------------------------------------------------------------
// Foreground window events
// ---------------------------------------------------------------------------

/// The text after the last path separator of `path` (all of it when there
/// is none).
pub open spec fn last_path_segment(path: Seq<char>) -> Seq<char>
    decreases path.len(),
{
    if path.len() == 0 {
        seq![]
    } else if is_separator(path.last()) {
        seq![]
    } else {
        last_path_segment(path.drop_last()).push(path.last())
    }
}

/// The application name shown for an executable: its file name.
pub fn app_name_from_executable_path(executable_path: &str) -> (name: String)
    ensures
        name@ == last_path_segment(executable_path@),
{
    let cs = chars_of(executable_path);
    let n = cs.len();
    let mut start: usize = n;
    assert(executable_path@.take(n as int) =~= executable_path@);
    assert(executable_path@.subrange(n as int, n as int) =~= Seq::<char>::empty());
    while start > 0 && !(cs[start - 1] == '\\' || cs[start - 1] == '/')
        invariant
            cs@ == executable_path@,
            n == cs@.len(),
            start <= n,
            last_path_segment(executable_path@) == last_path_segment(
                executable_path@.take(start as int),
            ) + executable_path@.subrange(start as int, n as int),
        decreases start,
    {
        let ghost p = executable_path@.take(start as int);
        assert(p.drop_last() =~= executable_path@.take(start - 1));
        assert(executable_path@.subrange(start - 1, n as int) =~= seq![p.last()]
            + executable_path@.subrange(start as int, n as int));
        start = start - 1;
    }
    assert(last_path_segment(executable_path@.take(start as int)) =~= seq![]);
    let mut name = String::new();
    let mut k: usize = start;
    while k < n
        invariant
            cs@ == executable_path@,
            n == cs@.len(),
            start <= k <= n,
            name@ == executable_path@.subrange(start as int, k as int),
        decreases n - k,
    {
        push_char(&mut name, cs[k]);
        assert(executable_path@.subrange(start as int, k + 1) =~= executable_path@.subrange(
            start as int,
            k as int,
        ).push(executable_path@[k as int]));
        k = k + 1;
    }
    assert(last_path_segment(executable_path@) =~= executable_path@.subrange(start as int, n as int));
    name
}

/// What a change of the foreground window is recorded as.
#[derive(Debug, Clone, Copy, PartialEq, Eq, Structural)]
pub enum ForegroundChange {
    /// A different window came to the front.
    Focused,
    /// The same window now shows another title.
    TitleChanged,
}

/// The `event_type` recorded for a change.
pub open spec fn foreground_event_type(change: ForegroundChange) -> Seq<char> {
    match change {
        ForegroundChange::Focused => "window_focused"@,
        ForegroundChange::TitleChanged => "window_title_changed"@,
    }
}

/// Remembers the last foreground window recorded, so that only changes are
/// recorded.
pub struct ForegroundTracker {
    previous: Option<(isize, String)>,
}

impl ForegroundTracker {
    /// A tracker that has seen no window yet.
    pub fn new() -> (t: Self)
        ensures
            t.last_recorded() is None,
    {
        ForegroundTracker { previous: None }
    }

    /// Handle and title of the last window recorded.
    pub closed spec fn last_recorded(&self) -> Option<(isize, Seq<char>)> {
        match self.previous {
            Some((h, t)) => Some((h, t@)),
            None => None,
        }
    }

    /// Observes the current foreground window. Excluded applications are
    /// skipped without affecting what counts as a change; otherwise a new
    /// window is reported as focused, a new title of the same window as a
    /// title change, and an unchanged window as nothing.
    pub fn observe(&mut self, handle: isize, title: &str, excluded: bool) -> (c: Option<
        ForegroundChange,
    >)
        ensures
            excluded ==> c is None && final(self).last_recorded() == old(self).last_recorded(),
            !excluded ==> match old(self).last_recorded() {
                None => c == Some(ForegroundChange::Focused) && final(self).last_recorded()
                    == Some((handle, title@)),
                Some((h, t)) => if h == handle && t == title@ {
                    c is None && final(self).last_recorded() == old(self).last_recorded()
                } else {
                    c == Some(
                        if h == handle {
                            ForegroundChange::TitleChanged
                        } else {
                            ForegroundChange::Focused
                        },
                    ) && final(self).last_recorded() == Some((handle, title@))
                },
            },
    {
        if excluded {
            return None;
        }
        let title_owned = string_from(title);
        let change = match &self.previous {
            None => Some(ForegroundChange::Focused),
            Some((h, t)) => {
                if *h == handle && *t == title_owned {
                    None
                } else if *h == handle {
                    Some(ForegroundChange::TitleChanged)
                } else {
                    Some(ForegroundChange::Focused)
                }
            },
        };
        if change.is_some() {
            self.previous = Some((handle, title_owned));
        }
        change
    }
}

/// The event recording that the window `handle` of process `process_id`
/// (application `app_name`, executable `executable_path`) came to the front
/// or changed title.
pub fn foreground_window_event(
    stamp: EventStamp,
    change: ForegroundChange,
    app_name: String,
    window_title: String,
    executable_path: String,
    process_id: u32,
    handle: isize,
) -> (e: RawEvent)
    ensures
        e.id@ == stamp.id@,
        e.timestamp_ns == stamp.timestamp_ns,
        e.created_at@ == stamp.created_at@,
        e.event_type@ == foreground_event_type(change),
        e.source@ == "foreground_window"@,
        e.app_name == Some(app_name),
        e.executable_path == Some(executable_path),
        e.process_id == Some(process_id),
        e.window_handle == Some(handle as u64),
        e.window_title == Some(window_title),
        e.element_name is None,
        e.text is None,
        e.file_path is None,
        e.metadata_json@ == "{\"window_handle\":"@ + signed_decimal(handle as int) + "}"@,
        e.privacy_class@ == "metadata"@,
        e.confidence_permille == FULL_CONFIDENCE_PERMILLE,
{
    let mut metadata = string_from("{\"window_handle\":");
    let digits = i64_to_decimal(handle as i64);
    append_str(&mut metadata, digits.as_str());
    append_str(&mut metadata, "}");
    RawEvent {
        id: stamp.id,
        timestamp_ns: stamp.timestamp_ns,
        event_type: string_from(
            match change {
                ForegroundChange::Focused => "window_focused",
                ForegroundChange::TitleChanged => "window_title_changed",
            },
        ),
        source: string_from("foreground_window"),
        app_name: Some(app_name),
        executable_path: Some(executable_path),
        process_id: Some(process_id),
        window_handle: Some(handle as u64),
        window_title: Some(window_title),
        element_name: None,
        text: None,
        file_path: None,
        metadata_json: metadata,
        privacy_class: string_from("metadata"),
        confidence_permille: FULL_CONFIDENCE_PERMILLE,
        created_at: stamp.created_at,
    }
}

/// The focus event for a window, stamped with `stamp`.
pub fn window_event(
    stamp: EventStamp,
    app_name: String,
    window_title: String,
    executable_path: Option<String>,
    process_id: Option<u32>,
) -> (e: RawEvent)
    ensures
        e.id@ == stamp.id@,
        e.timestamp_ns == stamp.timestamp_ns,
        e.created_at@ == stamp.created_at@,
        e.event_type@ == "window_focused"@,
        e.source@ == "foreground_window"@,
        e.app_name == Some(app_name),
        e.executable_path == executable_path,
        e.process_id == process_id,
        e.window_handle is None,
        e.window_title == Some(window_title),
        e.element_name is None,
        e.text is None,
        e.file_path is None,
        e.metadata_json@ == "{}"@,
        e.privacy_class@ == "metadata"@,
        e.confidence_permille == FULL_CONFIDENCE_PERMILLE,
{
    RawEvent {
        id: stamp.id,
        timestamp_ns: stamp.timestamp_ns,
        event_type: string_from("window_focused"),
        source: string_from("foreground_window"),
        app_name: Some(app_name),
        executable_path,
        process_id,
        window_handle: None,
        window_title: Some(window_title),
        element_name: None,
        text: None,
        file_path: None,
        metadata_json: string_from("{}"),
        privacy_class: string_from("metadata"),
        confidence_permille: FULL_CONFIDENCE_PERMILLE,
        created_at: stamp.created_at,
    }
}

/// A new focus event for a window, with a fresh identity and the current
/// time.
pub fn normalize_window_event(
    app_name: String,
    window_title: String,
    executable_path: Option<String>,
    process_id: Option<u32>,
) -> (e: RawEvent)
    ensures
        is_hyphenated_uuid(e.id@),
        e.event_type@ == "window_focused"@,
        e.source@ == "foreground_window"@,
        e.app_name == Some(app_name),
        e.executable_path == executable_path,
        e.process_id == process_id,
        e.window_handle is None,
        e.window_title == Some(window_title),
        e.element_name is None,
        e.text is None,
        e.file_path is None,
        e.metadata_json@ == "{}"@,
        e.privacy_class@ == "metadata"@,
        e.confidence_permille == FULL_CONFIDENCE_PERMILLE,
        exists|t: SystemTime| #[trigger] stamped_at(e.timestamp_ns, e.created_at@, t),
{
    window_event(stamp_now(), app_name, window_title, executable_path, process_id)
}

} // verus!
