//! Update checking: what a release description means for the running
//! version, which installer fits the platform, and download progress.

use vstd::prelude::*;
use vstd::string::StringSliceAdditionalSpecFns;
use crate::lua::trim_start_matches;
use crate::text::{chars_of, has_prefix, split_chars, split_on, starts_with_chars, string_of, views};
use crate::urls::{is_newer, triple_gt, version_of};

verus! {

/// The result of an update check.
#[derive(Debug, Clone)]
pub struct UpdateCheckResult {
    pub current_version: String,
    pub latest_version: Option<String>,
    pub has_update: bool,
    /// The release page.
    pub release_url: Option<String>,
    /// The installer for this platform.
    pub download_url: Option<String>,
    pub release_notes: Option<String>,
    pub error: Option<String>,
}

/// Progress of an installer download.
#[derive(Debug, Clone, Copy, PartialEq, Eq, Structural)]
pub struct DownloadProgress {
    pub downloaded: u64,
    pub total: u64,
    /// 0-100.
    pub percent: u8,
}

/// The platforms installers are published for.
#[derive(Debug, Clone, Copy, PartialEq, Eq, Structural)]
pub enum Platform {
    Windows,
    /// macOS on Apple silicon.
    MacArm,
    /// macOS on Intel.
    MacIntel,
    Linux,
    Other,
}

/// A failed check: nothing known but the running version and the error.
pub fn update_failure(current_version: String, error: String) -> (r: UpdateCheckResult)
    ensures
        r.current_version == current_version,
        r.latest_version is None && !r.has_update && r.release_url is None,
        r.download_url is None && r.release_notes is None,
        r.error == Some(error),
{
    UpdateCheckResult {
        current_version,
        latest_version: None,
        has_update: false,
        release_url: None,
        download_url: None,
        release_notes: None,
        error: Some(error),
    }
}

/// The installer of a platform: Intel Macs take the Intel build, else the
/// (Apple silicon) macOS one.
pub fn platform_download_url(
    p: Platform,
    windows: Option<String>,
    macos: Option<String>,
    macos_x64: Option<String>,
    linux: Option<String>,
) -> (r: Option<String>)
    ensures
        p == Platform::Windows ==> r == windows,
        p == Platform::MacArm ==> r == macos,
        p == Platform::MacIntel ==> r == (if macos_x64 is Some {
            macos_x64
        } else {
            macos
        }),
        p == Platform::Linux ==> r == linux,
        p == Platform::Other ==> r is None,
{
    match p {
        Platform::Windows => windows,
        Platform::MacArm => macos,
        Platform::MacIntel => match macos_x64 {
            Some(u) => Some(u),
            None => macos,
        },
        Platform::Linux => linux,
        Platform::Other => None,
    }
}

/// `r` is the text whose UTF-8 encoding is the first 500 bytes of `bytes`,
/// followed by `…`.
pub open spec fn cut_notes(bytes: Seq<u8>, r: Seq<char>) -> bool {
    exists|p: Seq<char>| #[trigger] vstd::utf8::encode_utf8(p) == bytes.subrange(0, 500) && r == p + "…"@
}

/// Release notes as shown: up to 500 bytes, then `…` when cut.
pub fn release_notes(body: &str) -> (r: String)
    requires
        body.spec_bytes().len() <= usize::MAX,
        body.spec_bytes().len() > 500 ==> vstd::utf8::is_char_boundary(body.spec_bytes(), 500),
    ensures
        body.spec_bytes().len() <= 500 ==> r@ == body@,
        body.spec_bytes().len() > 500 ==> cut_notes(body.spec_bytes(), r@),
{
    if body.len() > 500 {
        let (head, _) = body.split_at(500);
        let mut s = head.to_owned();
        s.append("…");
        assert(vstd::utf8::encode_utf8(head@) == body.spec_bytes().subrange(0, 500) && s@ == head@ + "…"@);
        assert(cut_notes(body.spec_bytes(), s@));
        s
    } else {
        body.to_owned()
    }
}

/// The update check's result for a release tagged `tag_name` (a leading `v` is
/// dropped) when `current_version` is running.
pub fn update_check_result(
    current_version: String,
    tag_name: &str,
    release_url: Option<String>,
    body: Option<&str>,
    download_url: Option<String>,
) -> (r: UpdateCheckResult)
    requires
        body matches Some(b) ==> b.spec_bytes().len() <= usize::MAX,
        (body matches Some(b) && b.spec_bytes().len() > 500) ==> vstd::utf8::is_char_boundary(body.unwrap().spec_bytes(), 500),
    ensures
        r.current_version == current_version,
        r.latest_version matches Some(l) && l@ == trim_start_matches(tag_name@, seq!['v']),
        r.has_update == triple_gt(version_of(trim_start_matches(tag_name@, seq!['v'])), version_of(current_version@)),
        r.release_url == release_url,
        r.download_url == download_url,
        body is None ==> r.release_notes is None,
        (body matches Some(b) && b.spec_bytes().len() <= 500) ==> (r.release_notes matches Some(n) && n@ == body.unwrap()@),
        r.error is None,
{
    let v = vec!['v'];
    assert(v@ =~= seq!['v']);
    let latest = string_of(&crate::lua::trim_start_matches_exec(&chars_of(tag_name), &v));
    let has_update = is_newer(latest.as_str(), current_version.as_str());
    let notes = match body {
        Some(b) => Some(release_notes(b)),
        None => None,
    };
    UpdateCheckResult {
        current_version,
        latest_version: Some(latest),
        has_update,
        release_url,
        download_url,
        release_notes: notes,
        error: None,
    }
}

/// The percentage of a download: `downloaded * 100 / total`, at most 100;
/// 0 for an unknown total.
pub fn download_progress(downloaded: u64, total: u64) -> (r: DownloadProgress)
    requires
        downloaded * 100 <= u64::MAX,
    ensures
        r.downloaded == downloaded,
        r.total == total,
        total == 0 ==> r.percent == 0,
        total > 0 ==> r.percent as int == (if (downloaded * 100) as int / (total as int) > 100 {
            100
        } else {
            (downloaded * 100) as int / (total as int)
        }),
{
    let percent: u8 = if total > 0 {
        let p = (downloaded * 100) / total;
        if p > 100 {
            100
        } else {
            p as u8
        }
    } else {
        0
    };
    DownloadProgress { downloaded, total, percent }
}

/// The installer's file name: the URL's last `/`-separated piece, or a
/// fixed name when that is empty.
pub open spec fn installer_name(url: Seq<char>) -> Seq<char> {
    let last = split_on(url, '/').last();
    if last.len() > 0 {
        last
    } else {
        "TileGrabber_update_installer"@
    }
}

/// The file name to save an installer under.
pub fn installer_file_name(url: &str) -> (r: String)
    ensures
        r@ == installer_name(url@),
{
    let parts = split_chars(&chars_of(url), '/');
    proof {
        crate::text::lemma_split_on_nonempty(url@, '/');
    }
    let n = parts.len();
    assert(views(parts@)[(n - 1) as int] == parts@[(n - 1) as int]@);
    let last = &parts[n - 1];
    if last.len() > 0 {
        string_of(last)
    } else {
        String::from_str("TileGrabber_update_installer")
    }
}

/// Installers are only downloaded over HTTPS.
pub fn is_https_url(url: &str) -> (r: bool)
    ensures
        r == has_prefix(url@, "https://"@),
{
    starts_with_chars(&chars_of(url), &chars_of("https://"))
}

} // verus!
