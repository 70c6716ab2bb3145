//! One-time local AI setup: choosing the engine build to download, laying
//! out the extracted archive, reading download sizes, and the status shown
//! while files are fetched. Downloads, extraction and process control are
//! done by the caller.
use vstd::prelude::*;
use std::time::Duration;
use crate::text::{string_from, append_str, contains_str, ends_with_str, seq_contains_run, seq_ends_with, chars_of, string_views};
use crate::local_model_provider::{all_digits, digits_value, unsigned_body, lemma_digits_prefix};
use crate::time::{duration_as_nanos, duration_from_millis, duration_at_least};

verus! {

/// A downloadable file of a llama.cpp release.
#[derive(Debug, Clone)]
pub struct GithubAsset {
    pub name: String,
    pub browser_download_url: String,
}

/// A llama.cpp release: its tag and its files.
#[derive(Debug, Clone)]
pub struct GithubRelease {
    pub tag_name: String,
    pub assets: Vec<GithubAsset>,
}

/// The marker in the name of the Windows CPU build.
pub const WINDOWS_CPU_MARKER: &'static str = "bin-win-cpu-x64";

/// Whether an asset named `name` is the Windows CPU build: a zip archive
/// whose name carries the marker.
pub open spec fn is_windows_cpu_asset_name(name: Seq<char>) -> bool {
    seq_contains_run(name, WINDOWS_CPU_MARKER@) && seq_ends_with(name, ".zip"@)
}

/// Checks the name of an asset.
pub fn is_windows_cpu_asset(name: &str) -> (r: bool)
    ensures
        r == is_windows_cpu_asset_name(name@),
{
    contains_str(name, WINDOWS_CPU_MARKER) && ends_with_str(name, ".zip")
}

/// An asset is the Windows x64 CPU build exactly when `bin-win-cpu-x64`
/// occurs in its name and the name ends with `.zip`; so no other build
/// (`bin-win-cpu-arm64`, say) and no other kind of archive is taken for it.
pub proof fn law_windows_cpu_asset_name(name: Seq<char>)
    ensures
        is_windows_cpu_asset_name(name) <==> ((exists|i: int|
            0 <= i && i + 15 <= name.len() && #[trigger] name.subrange(i, i + 15) == "bin-win-cpu-x64"@)
            && 4 <= name.len() && name.subrange(name.len() - 4, name.len() as int) == ".zip"@),
{
    reveal_strlit("bin-win-cpu-x64");
    reveal_strlit(".zip");
    assert(WINDOWS_CPU_MARKER@ == "bin-win-cpu-x64"@);
}

/// The error when a release has no Windows CPU build.
pub open spec fn no_windows_build_message(tag: Seq<char>) -> Seq<char> {
    "no Windows CPU build found in llama.cpp release "@ + tag
}

/// Picks the first Windows CPU build of a release. CPU-only builds run on
/// every Windows machine.
pub fn select_windows_cpu_asset(release: GithubRelease) -> (r: Result<GithubAsset, String>)
    ensures
        match r {
            Ok(a) => exists|i: int|
                0 <= i < release.assets@.len() && #[trigger] release.assets@[i] == a
                    && is_windows_cpu_asset_name(a.name@)
                    && forall|j: int| 0 <= j < i ==> !is_windows_cpu_asset_name(#[trigger] release.assets@[j].name@),
            Err(e) => e@ == no_windows_build_message(release.tag_name@)
                && forall|j: int| 0 <= j < release.assets@.len() ==> !is_windows_cpu_asset_name(#[trigger] release.assets@[j].name@),
        },
{
    let mut i: usize = 0;
    while i < release.assets.len()
        invariant
            i <= release.assets@.len(),
            forall|j: int| 0 <= j < i ==> !is_windows_cpu_asset_name(#[trigger] release.assets@[j].name@),
        decreases release.assets@.len() - i,
    {
        let candidate = &release.assets[i];
        if is_windows_cpu_asset(candidate.name.as_str()) {
            let a = GithubAsset {
                name: candidate.name.clone(),
                browser_download_url: candidate.browser_download_url.clone(),
            };
            assert(release.assets@[i as int] == a);
            return Ok(a);
        }
        i = i + 1;
    }
    let mut message = string_from("no Windows CPU build found in llama.cpp release ");
    append_str(&mut message, release.tag_name.as_str());
    Err(message)
}

/// Where an archive entry goes, by path components: one leading component
/// is dropped when there is more than one, so archives with and without a
/// wrapping folder both land their files directly in the target folder.
/// `None` for an entry that names nothing.
pub open spec fn extracted_components(components: Seq<Seq<char>>) -> Option<Seq<Seq<char>>> {
    if components.len() == 0 {
        None
    } else if components.len() > 1 {
        Some(components.drop_first())
    } else {
        Some(components)
    }
}

/// The relative output path of an archive entry, by components.
pub fn extracted_path(components: Vec<String>) -> (r: Option<Vec<String>>)
    ensures
        match r {
            Some(v) => extracted_components(string_views(components@)) == Some(string_views(v@)),
            None => extracted_components(string_views(components@)) is None,
        },
{
    let ghost views = string_views(components@);
    let mut components = components;
    if components.len() == 0 {
        return None;
    }
    if components.len() > 1 {
        components.remove(0);
        assert(string_views(components@) =~= views.drop_first());
    }
    Some(components)
}

/// What `str::parse::<u64>` returns for `s`: an optional `+`, then at least
/// one ASCII digit, with a value that fits in 64 bits.
pub open spec fn parse_u64_spec(s: Seq<char>) -> Option<u64> {
    let body = unsigned_body(s);
    if body.len() > 0 && all_digits(body) && digits_value(body) <= u64::MAX {
        Some(digits_value(body) as u64)
    } else {
        None
    }
}

/// Parses a decimal `u64` the way `str::parse::<u64>` does.
pub fn parse_u64(s: &str) -> (r: Option<u64>)
    ensures
        r == parse_u64_spec(s@),
{
    let cs = chars_of(s);
    let n = cs.len();
    let start: usize = if n > 0 && cs[0] == '+' {
        1
    } else {
        0
    };
    let ghost body = unsigned_body(s@);
    assert(body =~= s@.subrange(start as int, n as int));
    if start == n {
        return None;
    }
    let mut value: u128 = 0;
    let mut i: usize = start;
    while i < n
        invariant
            cs@ == s@,
            n == s@.len(),
            start <= i <= n,
            body == s@.subrange(start as int, n as int),
            body == unsigned_body(s@),
            all_digits(s@.subrange(start as int, i as int)),
            value == digits_value(s@.subrange(start as int, i as int)),
            value <= u64::MAX,
        decreases n - i,
    {
        let c = cs[i];
        let ghost prefix = s@.subrange(start as int, i + 1);
        assert(prefix.drop_last() =~= s@.subrange(start as int, i as int));
        if c < '0' || c > '9' {
            assert(!all_digits(body)) by {
                assert(body[i - start] == c);
            }
            return None;
        }
        let d: u128 = (c as u32 - 48) as u128;
        value = value * 10 + d;
        assert(all_digits(prefix));
        if value > u64::MAX as u128 {
            proof {
                if all_digits(body) {
                    lemma_digits_prefix(body, i + 1 - start);
                    assert(body.take(i + 1 - start) =~= prefix);
                }
            }
            return None;
        }
        i = i + 1;
    }
    Some(value as u64)
}

/// The size announced by a `Content-Length` header, if it is present and a
/// valid count.
pub fn content_length(header: Option<&str>) -> (r: Option<u64>)
    ensures
        r == (match header {
            Some(h) => parse_u64_spec(h@),
            None => None,
        }),
{
    match header {
        Some(h) => parse_u64(h),
        None => None,
    }
}

/// Least pause between two progress reports, in milliseconds.
pub const PROGRESS_INTERVAL_MS: u64 = 200;

/// Whether a progress report is due: always when forced (the final one),
/// otherwise once the interval has passed since the last report.
pub fn progress_due(force: bool, since_last: Duration) -> (r: bool)
    ensures
        r == (force || duration_as_nanos(since_last) >= PROGRESS_INTERVAL_MS as nat * 1_000_000),
{
    force || duration_at_least(since_last, duration_from_millis(PROGRESS_INTERVAL_MS))
}

/// What the setup screen shows.
#[derive(Debug, Clone)]
pub struct LlamaSetupStatus {
    pub runtime_installed: bool,
    pub chat_model_installed: bool,
    pub embed_model_installed: bool,
    pub chat_running: bool,
    pub embed_running: bool,
    pub chat_model_name: String,
    pub embed_model_name: String,
}

impl Default for LlamaSetupStatus {
    /// The status shown when it could not be determined: nothing installed,
    /// nothing running, no model names.
    fn default() -> (s: Self)
        ensures
            !s.runtime_installed,
            !s.chat_model_installed,
            !s.embed_model_installed,
            !s.chat_running,
            !s.embed_running,
            s.chat_model_name@ == Seq::<char>::empty(),
            s.embed_model_name@ == Seq::<char>::empty(),
    {
        LlamaSetupStatus {
            runtime_installed: false,
            chat_model_installed: false,
            embed_model_installed: false,
            chat_running: false,
            embed_running: false,
            chat_model_name: String::new(),
            embed_model_name: String::new(),
        }
    }
}

} // verus!
