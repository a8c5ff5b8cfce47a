//! Downloads: the table of downloads and their statuses, the checks made
//! before a download starts, and the decisions of the worker that fetches
//! a file.

use vstd::prelude::*;
use vstd::string::StringExecFns;
use crate::failure::{DownloadFailureKind, FailureKind};
use crate::health::{is_success_status, status_display, status_text};
use crate::models::{joined, DownloadState, DownloadStatus, DownloadStatusView, PercentComplete, opt_view};
use crate::order::{index_of_id, lemma_index_of_id, lemma_index_of_sorted, lemma_sorted_ids_unique, lemma_prefixed_decimal_injective, lemma_sorted_insert, sorted_ids};
use crate::text::{chars_of, contains, decimal, ends_with, has_char, decimal_string, owned, seq_lt, starts_with, starts_with_chars, str_lt, string_of, trim, trim_chars};

verus! {

/// Largest number of downloads that may be active at once.
pub const MAX_CONCURRENT_DOWNLOADS: usize = 5;

/// A download and whether its cancellation was requested.
pub struct DownloadRecord {
    pub status: DownloadStatus,
    pub cancel_requested: bool,
}

pub struct DownloadRecordView {
    pub status: DownloadStatusView,
    pub cancel_requested: bool,
}

impl View for DownloadRecord {
    type V = DownloadRecordView;

    open spec fn view(&self) -> DownloadRecordView {
        DownloadRecordView { status: self.status@, cancel_requested: self.cancel_requested }
    }
}

/// The downloads started so far, kept in the order of their ids, and the
/// counter from which the next id is made.
pub struct DownloaderService {
    next_download_id: u64,
    downloads: Vec<DownloadRecord>,
}

pub struct DownloaderView {
    pub next_download_id: u64,
    pub downloads: Seq<DownloadRecordView>,
}

impl View for DownloaderService {
    type V = DownloaderView;

    closed spec fn view(&self) -> DownloaderView {
        DownloaderView {
            next_download_id: self.next_download_id,
            downloads: self.downloads@.map_values(|r: DownloadRecord| r@),
        }
    }
}

/// The id given to the `n`-th download.
pub open spec fn download_id_for(n: nat) -> Seq<char> {
    "download-"@ + decimal(n)
}

pub open spec fn download_ids(s: Seq<DownloadRecordView>) -> Seq<Seq<char>> {
    s.map_values(|r: DownloadRecordView| r.status.download_id)
}

pub open spec fn download_index(v: DownloaderView, id: Seq<char>) -> Option<int> {
    index_of_id(download_ids(v.downloads), id)
}

pub open spec fn is_active(r: DownloadRecordView) -> bool {
    !r.status.state.is_terminal()
}

/// Number of downloads that are not in a terminal state.
pub open spec fn active_count(s: Seq<DownloadRecordView>) -> nat
    decreases s.len(),
{
    if s.len() == 0 {
        0
    } else {
        active_count(s.drop_last()) + if is_active(s.last()) { 1nat } else { 0nat }
    }
}

/// Some active download writes to `dest`.
pub open spec fn targets_active(s: Seq<DownloadRecordView>, dest: Seq<char>) -> bool {
    exists|i: int| 0 <= i < s.len() && is_active(s[i]) && s[i].status.destination_path == dest
}

/// No two active downloads write to the same destination.
pub open spec fn active_destinations_distinct(s: Seq<DownloadRecordView>) -> bool {
    forall|i: int, j: int|
        0 <= i < s.len() && 0 <= j < s.len() && i != j && is_active(#[trigger] s[i]) && is_active(
            #[trigger] s[j],
        ) ==> s[i].status.destination_path != s[j].status.destination_path
}

proof fn lemma_active_count_update(s: Seq<DownloadRecordView>, i: int, r: DownloadRecordView)
    requires
        0 <= i < s.len(),
    ensures
        active_count(s.update(i, r)) + (if is_active(s[i]) { 1int } else { 0int }) == active_count(s)
            + (if is_active(r) { 1int } else { 0int }),
    decreases s.len(),
{
    if i == s.len() - 1 {
        assert(s.update(i, r).drop_last() =~= s.drop_last());
    } else {
        lemma_active_count_update(s.drop_last(), i, r);
        assert(s.update(i, r).drop_last() =~= s.drop_last().update(i, r));
    }
}

proof fn lemma_active_count_insert(s: Seq<DownloadRecordView>, p: int, r: DownloadRecordView)
    requires
        0 <= p <= s.len(),
    ensures
        active_count(s.insert(p, r)) == active_count(s) + (if is_active(r) { 1int } else { 0int }),
    decreases s.len(),
{
    if p == s.len() {
        assert(s.insert(p, r).drop_last() =~= s);
    } else {
        lemma_active_count_insert(s.drop_last(), p, r);
        assert(s.insert(p, r).drop_last() =~= s.drop_last().insert(p, r));
    }
}

/// The record of a download after an update: what each kind of update does
/// to a status.
pub open spec fn updated_status(st: DownloadStatusView, upd: DownloadUpdateView) -> DownloadStatusView {
    match upd {
        DownloadUpdateView::Failed(msg) => DownloadStatusView {
            state: DownloadState::Failed,
            error: Some(msg),
            ..st
        },
        DownloadUpdateView::Cancelled => DownloadStatusView {
            state: DownloadState::Cancelled,
            error: Some("download cancelled by user"@),
            ..st
        },
        DownloadUpdateView::Headers { total } => DownloadStatusView {
            total_bytes: total,
            percent_complete: if total is Some { Some(PercentComplete { numerator: 0, denominator: 1 }) } else { None },
            ..st
        },
        DownloadUpdateView::Progress { downloaded } => DownloadStatusView {
            bytes_downloaded: downloaded,
            percent_complete: if st.total_bytes matches Some(t) && t > 0 {
                Some(PercentComplete { numerator: downloaded, denominator: st.total_bytes->0 })
            } else {
                st.percent_complete
            },
            ..st
        },
        DownloadUpdateView::Completed { downloaded, total } => DownloadStatusView {
            state: DownloadState::Completed,
            bytes_downloaded: downloaded,
            total_bytes: if total is Some { total } else { Some(downloaded) },
            percent_complete: Some(PercentComplete { numerator: 1, denominator: 1 }),
            error: None,
            ..st
        },
    }
}

/// A change to the status of one download.
pub enum DownloadUpdate {
    /// The download failed with this message.
    Failed(String),
    /// The download was cancelled by the user.
    Cancelled,
    /// The response announced this length (if any).
    Headers { total: Option<u64> },
    /// This many bytes have been written so far.
    Progress { downloaded: u64 },
    /// The file is in place, with this many bytes; `total` is the length
    /// the response announced.
    Completed { downloaded: u64, total: Option<u64> },
}

pub enum DownloadUpdateView {
    Failed(Seq<char>),
    Cancelled,
    Headers { total: Option<u64> },
    Progress { downloaded: u64 },
    Completed { downloaded: u64, total: Option<u64> },
}

impl View for DownloadUpdate {
    type V = DownloadUpdateView;

    open spec fn view(&self) -> DownloadUpdateView {
        match self {
            DownloadUpdate::Failed(m) => DownloadUpdateView::Failed(m@),
            DownloadUpdate::Cancelled => DownloadUpdateView::Cancelled,
            DownloadUpdate::Headers { total } => DownloadUpdateView::Headers { total: *total },
            DownloadUpdate::Progress { downloaded } => DownloadUpdateView::Progress { downloaded: *downloaded },
            DownloadUpdate::Completed { downloaded, total } => DownloadUpdateView::Completed {
                downloaded: *downloaded,
                total: *total,
            },
        }
    }
}

/// No update brings a download back from a terminal state, and updates that
/// only report progress keep the state.
pub open spec fn update_keeps_finished(st: DownloadStatusView, upd: DownloadUpdateView) -> bool {
    st.state.is_terminal() ==> updated_status(st, upd).state.is_terminal()
}

/// The table after applying `upd` to download `id`; unknown ids change
/// nothing.
pub open spec fn with_update(v: DownloaderView, id: Seq<char>, upd: DownloadUpdateView) -> DownloaderView {
    match download_index(v, id) {
        Some(i) => DownloaderView {
            next_download_id: v.next_download_id,
            downloads: v.downloads.update(
                i,
                DownloadRecordView { status: updated_status(v.downloads[i].status, upd), ..v.downloads[i] },
            ),
        },
        None => v,
    }
}

/// In every state of the table, at most `MAX_CONCURRENT_DOWNLOADS`
/// downloads are active, no two active downloads write to the same
/// destination, and ids are unique and in increasing order.
pub proof fn law_download_table_invariant(svc: &DownloaderService)
    requires
        svc.wf(),
    ensures
        active_count(svc@.downloads) <= MAX_CONCURRENT_DOWNLOADS,
        active_destinations_distinct(svc@.downloads),
        sorted_ids(download_ids(svc@.downloads)),
        forall|i: int, j: int|
            0 <= i < j < svc@.downloads.len() ==> svc@.downloads[i].status.download_id
                != svc@.downloads[j].status.download_id,
{
    let ids = download_ids(svc@.downloads);
    assert forall|i: int, j: int|
        0 <= i < j < svc@.downloads.len() implies svc@.downloads[i].status.download_id
            != svc@.downloads[j].status.download_id by {
        assert(ids[i] == svc@.downloads[i].status.download_id);
        assert(ids[j] == svc@.downloads[j].status.download_id);
        if ids[i] == ids[j] {
            lemma_sorted_ids_unique(ids, i, j);
        }
    }
}

/// The error for an id that names no download.
pub open spec fn unknown_download_text(id: Seq<char>) -> Seq<char> {
    "unknown download_id: "@ + id
}

fn unknown_download(id: &str) -> (r: String)
    ensures
        r@ == unknown_download_text(id@),
{
    let mut e = owned("unknown download_id: ");
    e.append(id);
    e
}

/// How `Debug` writes a download state.
pub open spec fn download_state_name(s: DownloadState) -> Seq<char> {
    match s {
        DownloadState::Downloading => "Downloading"@,
        DownloadState::Completed => "Completed"@,
        DownloadState::Cancelled => "Cancelled"@,
        DownloadState::Failed => "Failed"@,
    }
}

fn download_state_name_exec(s: DownloadState) -> (r: String)
    ensures
        r@ == download_state_name(s),
{
    match s {
        DownloadState::Downloading => owned("Downloading"),
        DownloadState::Completed => owned("Completed"),
        DownloadState::Cancelled => owned("Cancelled"),
        DownloadState::Failed => owned("Failed"),
    }
}

/// The status of a download that has just been registered.
pub open spec fn registered_status(id: Seq<char>, source: Seq<char>, dest: Seq<char>) -> DownloadStatusView {
    DownloadStatusView {
        download_id: id,
        source_url: source,
        destination_path: dest,
        state: DownloadState::Downloading,
        bytes_downloaded: 0,
        total_bytes: None,
        percent_complete: None,
        error: None,
    }
}

/// Why a download request is refused before anything is touched on disk,
/// if it is.
pub open spec fn request_error(source_url: Seq<char>, destination_path: Seq<char>) -> Option<Seq<char>> {
    if trim(source_url).len() == 0 {
        Some("source_url cannot be empty"@)
    } else if !(starts_with(trim(source_url), "http://"@) || starts_with(trim(source_url), "https://"@)) {
        Some("source_url must start with http:// or https://"@)
    } else if trim(destination_path).len() == 0 {
        Some("destination_path cannot be empty"@)
    } else {
        None
    }
}

/// A download request passes its first checks exactly when the trimmed
/// source URL starts with `http://` or `https://` (any host, address or
/// port) and the trimmed destination is not blank.
pub proof fn law_request_accepted(source_url: Seq<char>, destination_path: Seq<char>)
    ensures
        request_error(source_url, destination_path) is None <==> (starts_with(trim(source_url), "http://"@)
            || starts_with(trim(source_url), "https://"@)) && trim(destination_path).len() > 0,
{
    reveal_strlit("http://");
    reveal_strlit("https://");
    if starts_with(trim(source_url), "http://"@) || starts_with(trim(source_url), "https://"@) {
        assert(trim(source_url).len() > 0);
    }
}

/// The first checks of a download request: the source URL, trimmed, must
/// be a non-blank HTTP(S) URL and the destination, trimmed, must not be
/// blank. Returns both, trimmed.
pub fn prepare_download(source_url: &str, destination_path: &str) -> (r: Result<(String, String), String>)
    ensures
        match request_error(source_url@, destination_path@) {
            Some(msg) => r matches Err(e) && e@ == msg,
            None => r matches Ok((s, d)) && s@ == trim(source_url@) && d@ == trim(destination_path@),
        },
{
    let sv = chars_of(source_url);
    let st = trim_chars(sv.as_slice());
    if st.len() == 0 {
        return Err(owned("source_url cannot be empty"));
    }
    let http = chars_of("http://");
    let https = chars_of("https://");
    if !starts_with_chars(st.as_slice(), http.as_slice()) && !starts_with_chars(st.as_slice(), https.as_slice()) {
        return Err(owned("source_url must start with http:// or https://"));
    }
    let dv = chars_of(destination_path);
    let dt = trim_chars(dv.as_slice());
    if dt.len() == 0 {
        return Err(owned("destination_path cannot be empty"));
    }
    Ok((string_of(st.as_slice()), string_of(dt.as_slice())))
}

/// The name of the temporary file of a download: the destination's file
/// name followed by `.<id>.part`, or `<id>.part` when it has none.
pub open spec fn temp_file_name_text(file_name: Option<Seq<char>>, download_id: Seq<char>) -> Seq<char> {
    match file_name {
        Some(n) => n + "."@ + download_id + ".part"@,
        None => download_id + ".part"@,
    }
}

pub fn temp_file_name(file_name: Option<&str>, download_id: &str) -> (r: String)
    ensures
        r@ == temp_file_name_text(
            match file_name {
                Some(n) => Some(n@),
                None => None,
            },
            download_id@,
        ),
{
    match file_name {
        Some(n) => {
            let mut s = owned(n);
            s.append(".");
            s.append(download_id);
            s.append(".part");
            s
        },
        None => {
            let mut s = owned(download_id);
            s.append(".part");
            s
        },
    }
}

/// A path that is one plain component on every platform: not empty, not
/// `.` or `..`, and free of `/` and `\` (separators) and of `:` (which
/// can open a Windows prefix).
pub open spec fn single_component(s: Seq<char>) -> bool {
    &&& s.len() > 0
    &&& s != "."@
    &&& s != ".."@
    &&& separator_free(s)
}

/// No `/`, `\` or `:` occurs in `s`.
pub open spec fn separator_free(s: Seq<char>) -> bool {
    !has_char(s, '/') && !has_char(s, '\\') && !has_char(s, ':')
}

/// `p` is `parent`, `/` and the plain component `name`, written so that
/// every platform reads it alike: no `\` anywhere, no leading `//` (which
/// can open a Windows network prefix), and a parent that is empty or ends
/// neither with a separator nor with a `.` segment (the two things that
/// `Path::parent` trims from the end).
pub open spec fn slash_split(p: Seq<char>, parent: Seq<char>, name: Seq<char>) -> bool {
    &&& p == parent + "/"@ + name
    &&& single_component(name)
    &&& !has_char(p, '\\')
    &&& !starts_with(p, "//"@)
    &&& (parent.len() == 0 || (parent.last() != '/' && parent != "."@ && !ends_with(parent, "/."@)))
}

/// Whether `std::path` takes `c` for a path separator in this build of the
/// library, as `std::path::is_separator` reports it and as `Path` splits
/// paths: `/` on every platform, `\` as well on Windows. It is fixed by the
/// platform the library is built for.
pub uninterp spec fn separates_paths(c: char) -> bool;

/// `p` is `parent`, `\` and the plain component `name`, written so that
/// both readings of `\` agree on what follows: no `/` anywhere (so that
/// where `\` is no separator, `p` is one component), no leading `\\`
/// (which opens a Windows network or verbatim prefix), and a parent that is
/// empty or ends neither with `\` nor with a `.` segment.
pub open spec fn backslash_split(p: Seq<char>, parent: Seq<char>, name: Seq<char>) -> bool {
    &&& p == parent + "\\"@ + name
    &&& single_component(name)
    &&& !has_char(p, '/')
    &&& !starts_with(p, "\\\\"@)
    &&& (parent.len() == 0 || (parent.last() != '\\' && parent != "."@ && !ends_with(parent, "\\."@)))
}

/// Trusted: `Path::file_name`, as a (lossless, the input being UTF-8)
/// string. Stated is what holds on every platform: an empty path has no
/// file name, a path of one plain component is its own file name, and the
/// file name of a path split at its last `/` as `slash_split` describes is
/// the part after that `/`. For a path split at a `\` as
/// `backslash_split` describes, the file name is the part after that `\`
/// where `\` separates paths, and the whole path (one component) where it
/// does not. Where other paths split is not stated.
#[verifier::external_body]
fn path_file_name(path: &str) -> (r: Option<String>)
    ensures
        path@.len() == 0 ==> r is None,
        single_component(path@) ==> opt_view(r) == Some(path@),
        forall|parent: Seq<char>, name: Seq<char>| #[trigger] slash_split(path@, parent, name) ==> opt_view(r) == Some(name),
        forall|parent: Seq<char>, name: Seq<char>| #[trigger] backslash_split(path@, parent, name) ==> opt_view(r)
            == Some(if separates_paths('\\') { name } else { path@ }),
{
    std::path::Path::new(path).file_name().map(|n| n.to_string_lossy().into_owned())
}

/// Trusted: `PathBuf::set_file_name`, as a string. Stated is what holds on
/// every platform: on an empty path, or on a path of one plain component,
/// setting a plain file name leaves just that name (the path is popped to
/// its empty parent, if it has a file name, and the name is pushed onto
/// it); on a path split as `slash_split` describes, the old file name is
/// replaced and the new one follows the parent after one separator, `/` or
/// `\`, whichever is the platform's. On a path split at a `\` as
/// `backslash_split` describes, a non-empty name without `/` (and, where
/// `\` separates paths, without `\` or `:`) replaces the part after that
/// `\` where `\` separates paths, and replaces the whole path (one
/// component, popped to its empty parent) where it does not. Other paths
/// are not stated.
#[verifier::external_body]
fn path_with_file_name(path: &str, name: &str) -> (r: String)
    ensures
        (path@.len() == 0 || single_component(path@)) && single_component(name@) ==> r@ == name@,
        forall|parent: Seq<char>, old_name: Seq<char>| #[trigger] slash_split(path@, parent, old_name) && single_component(name@) ==> joined(r@, parent, name@),
        forall|parent: Seq<char>, old_name: Seq<char>| #[trigger] backslash_split(path@, parent, old_name)
            && name@.len() > 0 && !has_char(name@, '/') && (separates_paths('\\') ==> separator_free(name@))
            ==> r@ == (if separates_paths('\\') { parent + "\\"@ + name@ } else { name@ }),
{
    let mut p = std::path::PathBuf::from(path);
    p.set_file_name(name);
    p.to_string_lossy().into_owned()
}

proof fn lemma_separator_free_concat(a: Seq<char>, b: Seq<char>)
    requires
        separator_free(a),
        separator_free(b),
    ensures
        separator_free(a + b),
{
    assert forall|i: int| 0 <= i < (a + b).len() implies (a + b)[i] != '/' && (a + b)[i] != '\\' && (a + b)[i]
        != ':' by {
        if i < a.len() {
            assert((a + b)[i] == a[i]);
        } else {
            assert((a + b)[i] == b[i - a.len()]);
        }
    }
}

/// The path of the temporary file into which a download is written: the
/// destination with its file name replaced by `temp_file_name` of it.
///
/// Where the file name is and how the replacement is joined to the rest of
/// the path are decided by `std::path`; what is stated is the result for a
/// destination that is empty or a single plain component, with an id free
/// of separators.
pub fn build_temp_path(destination_path: &str, download_id: &str) -> (r: String)
    ensures
        single_component(destination_path@) && separator_free(download_id@) ==> r@ == temp_file_name_text(
            Some(destination_path@),
            download_id@,
        ),
        destination_path@.len() == 0 && separator_free(download_id@) ==> r@ == temp_file_name_text(
            None,
            download_id@,
        ),
        forall|parent: Seq<char>, name: Seq<char>| #[trigger] slash_split(destination_path@, parent, name)
            && separator_free(download_id@) ==> joined(r@, parent, temp_file_name_text(Some(name), download_id@)),
        forall|parent: Seq<char>, name: Seq<char>| #[trigger] backslash_split(destination_path@, parent, name)
            && separator_free(download_id@) ==> r@ == destination_path@ + "."@ + download_id@ + ".part"@,
{
    let name = path_file_name(destination_path);
    let temp_name = match &name {
        Some(n) => temp_file_name(Some(n.as_str()), download_id),
        None => temp_file_name(None, download_id),
    };
    proof {
        reveal_strlit(".");
        reveal_strlit(".part");
        reveal_strlit("..");
        if separator_free(download_id@) {
            assert(separator_free("."@));
            assert(separator_free(".part"@));
            if single_component(destination_path@) {
                lemma_separator_free_concat(destination_path@, "."@);
                lemma_separator_free_concat(destination_path@ + "."@, download_id@);
                lemma_separator_free_concat(destination_path@ + "."@ + download_id@, ".part"@);
                assert(temp_name@.len() >= 5);
                assert(temp_name@ != "."@);
                assert(temp_name@ != ".."@);
            } else if destination_path@.len() == 0 {
                assert(name is None);
                assert(temp_name@ == download_id@ + ".part"@);
                lemma_separator_free_concat(download_id@, ".part"@);
                assert(temp_name@.len() >= 5);
                assert(temp_name@ != "."@);
                assert(temp_name@ != ".."@);
            }
        }
    }
    let r = path_with_file_name(destination_path, temp_name.as_str());
    proof {
        assert forall|parent: Seq<char>, fname: Seq<char>| #[trigger] slash_split(destination_path@, parent, fname)
            && separator_free(download_id@) implies joined(r@, parent, temp_file_name_text(Some(fname), download_id@)) by {
            assert(opt_view(name) == Some(fname));
            assert(temp_name@ == temp_file_name_text(Some(fname), download_id@));
            lemma_temp_name_plain(fname, download_id@);
        }
        assert forall|parent: Seq<char>, fname: Seq<char>| #[trigger] backslash_split(destination_path@, parent, fname)
            && separator_free(download_id@) implies r@ == destination_path@ + "."@ + download_id@ + ".part"@ by {
            let p = destination_path@;
            let suffix = "."@ + download_id@ + ".part"@;
            assert(!has_char("."@, '/'));
            assert(!has_char(".part"@, '/'));
            if separates_paths('\\') {
                assert(opt_view(name) == Some(fname));
                assert(temp_name@ == temp_file_name_text(Some(fname), download_id@));
                lemma_temp_name_plain(fname, download_id@);
                assert(temp_name@ == fname + suffix);
                assert(r@ == parent + "\\"@ + temp_name@);
                assert(r@ =~= p + suffix);
            } else {
                assert(opt_view(name) == Some(p));
                assert(temp_name@ == temp_file_name_text(Some(p), download_id@));
                lemma_no_slash_concat(p, "."@);
                lemma_no_slash_concat(p + "."@, download_id@);
                lemma_no_slash_concat(p + "."@ + download_id@, ".part"@);
                assert(r@ == temp_name@);
                assert(r@ =~= p + suffix);
            }
        }
    }
    r
}

proof fn lemma_no_slash_concat(a: Seq<char>, b: Seq<char>)
    requires
        !has_char(a, '/'),
        !has_char(b, '/'),
    ensures
        !has_char(a + b, '/'),
{
    assert forall|i: int| 0 <= i < (a + b).len() implies (a + b)[i] != '/' by {
        if i < a.len() {
            assert((a + b)[i] == a[i]);
        } else {
            assert((a + b)[i] == b[i - a.len()]);
        }
    }
}

proof fn lemma_temp_name_plain(name: Seq<char>, id: Seq<char>)
    requires
        single_component(name),
        separator_free(id),
    ensures
        single_component(temp_file_name_text(Some(name), id)),
{
    reveal_strlit(".");
    reveal_strlit(".part");
    reveal_strlit("..");
    assert(separator_free("."@));
    assert(separator_free(".part"@));
    lemma_separator_free_concat(name, "."@);
    lemma_separator_free_concat(name + "."@, id);
    lemma_separator_free_concat(name + "."@ + id, ".part"@);
    let t = temp_file_name_text(Some(name), id);
    assert(t.len() >= 5);
    assert(t != "."@);
    assert(t != ".."@);
}

/// The kind of one component of a path, as `std::path::Component` tells
/// them apart.
#[derive(Clone, Copy, PartialEq, Eq, Structural)]
pub enum PathPart {
    Prefix,
    RootDir,
    CurDir,
    ParentDir,
    Normal,
}

/// `..` stands at `i` as a whole segment between `/` separators (or the
/// ends of `s`).
pub open spec fn dotdot_segment_at(s: Seq<char>, i: int) -> bool {
    &&& 0 <= i
    &&& i + 2 <= s.len()
    &&& s[i] == '.'
    &&& s[i + 1] == '.'
    &&& (i == 0 || s[i - 1] == '/')
    &&& (i + 2 == s.len() || s[i + 2] == '/')
}

/// A path that every platform splits at `/` alone and that has a `..`
/// segment: it holds no `\` (a separator on Windows), no `:` and no
/// leading `//` (which can open a Windows prefix).
pub open spec fn has_parent_segment(s: Seq<char>) -> bool {
    &&& !has_char(s, '\\')
    &&& !has_char(s, ':')
    &&& !starts_with(s, "//"@)
    &&& exists|i: int| dotdot_segment_at(s, i)
}

/// Trusted: `Path::components`, each component reduced to its kind. What is
/// stated holds on every platform: a `ParentDir` component is a `..`, so a
/// path in which `..` never occurs has none; `/` separates components on
/// every platform and `..` is never normalized away, so a path that has a
/// `..` segment between `/` separators, and nothing that could make a
/// Windows prefix or separator, has one. How other paths split depends on
/// the platform and is not stated.
#[verifier::external_body]
fn path_parts(path: &str) -> (r: Vec<PathPart>)
    ensures
        !contains(path@, ".."@) ==> forall|i: int| 0 <= i < r@.len() ==> r@[i] != PathPart::ParentDir,
        has_parent_segment(path@) ==> exists|i: int| 0 <= i < r@.len() && r@[i] == PathPart::ParentDir,
{
    std::path::Path::new(path).components().map(|c| match c {
        std::path::Component::Prefix(_) => PathPart::Prefix,
        std::path::Component::RootDir => PathPart::RootDir,
        std::path::Component::CurDir => PathPart::CurDir,
        std::path::Component::ParentDir => PathPart::ParentDir,
        std::path::Component::Normal(_) => PathPart::Normal,
    }).collect()
}

/// The error for a destination that climbs out of its directory with a
/// `..` component, if it does.
pub fn destination_error(destination_path: &str) -> (r: Option<String>)
    ensures
        r matches Some(e) ==> e@ == "destination_path must not contain '..' path traversal components"@,
        !contains(destination_path@, ".."@) ==> r is None,
        has_parent_segment(destination_path@) ==> r is Some,
{
    let parts = path_parts(destination_path);
    let mut i: usize = 0;
    while i < parts.len()
        invariant
            0 <= i <= parts@.len(),
            !contains(destination_path@, ".."@) ==> forall|j: int| 0 <= j < parts@.len() ==> parts@[j] != PathPart::ParentDir,
            has_parent_segment(destination_path@) ==> exists|j: int| 0 <= j < parts@.len() && parts@[j] == PathPart::ParentDir,
            forall|j: int| 0 <= j < i ==> parts@[j] != PathPart::ParentDir,
        decreases parts@.len() - i,
    {
        if parts[i] == PathPart::ParentDir {
            return Some(owned("destination_path must not contain '..' path traversal components"));
        }
        i = i + 1;
    }
    None
}

/// The error for a destination that already exists.
pub fn destination_exists_message(destination_path: &str) -> (r: String)
    ensures
        r@ == "destination_path already exists: "@ + destination_path@,
{
    let mut m = owned("destination_path already exists: ");
    m.append(destination_path);
    m
}

/// The error for a destination directory that could not be created.
pub fn create_dir_failure_message(parent: &str, err: &str) -> (r: String)
    ensures
        r@ == "failed to create destination directory "@ + parent@ + ": "@ + err@,
{
    let mut m = owned("failed to create destination directory ");
    m.append(parent);
    m.append(": ");
    m.append(err);
    m
}

impl DownloaderService {
    /// The table is sorted by id; every id was made from a counter value
    /// below the next one; at most `MAX_CONCURRENT_DOWNLOADS` downloads are
    /// active, and no two of them write to the same destination.
    pub closed spec fn wf(&self) -> bool {
        let ids = download_ids(self@.downloads);
        &&& self.next_download_id >= 1
        &&& sorted_ids(ids)
        &&& forall|i: int| 0 <= i < ids.len() ==> exists|k: nat|
            1 <= k < self.next_download_id && #[trigger] ids[i] == download_id_for(k)
        &&& active_count(self@.downloads) <= MAX_CONCURRENT_DOWNLOADS
        &&& active_destinations_distinct(self@.downloads)
    }

    /// A table with no downloads, whose first id will be `download-1`.
    pub fn new() -> (s: DownloaderService)
        ensures
            s.wf(),
            s@.next_download_id == 1,
            s@.downloads.len() == 0,
    {
        let s = DownloaderService { next_download_id: 1, downloads: Vec::new() };
        assert(s@.downloads =~= Seq::<DownloadRecordView>::empty());
        s
    }

    proof fn lemma_view_index(&self, i: int)
        requires
            0 <= i < self.downloads@.len(),
        ensures
            self@.downloads[i] == self.downloads@[i]@,
            download_ids(self@.downloads)[i] == self.downloads@[i].status.download_id@,
            download_ids(self@.downloads).len() == self.downloads@.len(),
            self@.downloads.len() == self.downloads@.len(),
    {
    }

    fn lookup(&self, id: &String) -> (r: Option<usize>)
        ensures
            match r {
                Some(i) => i < self.downloads@.len() && download_index(self@, id@) == Some(i as int),
                None => download_index(self@, id@) is None,
            },
    {
        let ghost ids = download_ids(self@.downloads);
        proof {
            lemma_index_of_id(ids, id@);
        }
        let mut i: usize = 0;
        while i < self.downloads.len()
            invariant
                ids == download_ids(self@.downloads),
                ids.len() == self.downloads@.len(),
                0 <= i <= self.downloads@.len(),
                forall|j: int| 0 <= j < i ==> ids[j] != id@,
                match index_of_id(ids, id@) {
                    Some(k) => 0 <= k < ids.len() && ids[k] == id@ && forall|j: int|
                        0 <= j < k ==> ids[j] != id@,
                    None => forall|j: int| 0 <= j < ids.len() ==> ids[j] != id@,
                },
            decreases self.downloads@.len() - i,
        {
            proof {
                self.lemma_view_index(i as int);
            }
            if self.downloads[i].status.download_id == *id {
                return Some(i);
            }
            i = i + 1;
        }
        None
    }

    /// The status of the download with id `download_id`.
    pub fn get_download_status(&self, download_id: &str) -> (r: Result<DownloadStatus, String>)
        ensures
            match download_index(self@, download_id@) {
                Some(i) => r matches Ok(s) && s@ == self@.downloads[i].status,
                None => r matches Err(e) && e@ == unknown_download_text(download_id@),
            },
    {
        let id = owned(download_id);
        match self.lookup(&id) {
            Some(i) => {
                proof {
                    self.lemma_view_index(i as int);
                }
                Ok(self.downloads[i].status.duplicate())
            },
            None => Err(unknown_download(download_id)),
        }
    }

    /// The statuses of all downloads, in the order of their ids.
    pub fn get_download_statuses(&self) -> (r: Vec<DownloadStatus>)
        requires
            self.wf(),
        ensures
            r@.len() == self@.downloads.len(),
            forall|i: int| 0 <= i < r@.len() ==> #[trigger] r@[i]@ == self@.downloads[i].status,
            forall|i: int, j: int|
                0 <= i < j < r@.len() ==> seq_lt(#[trigger] r@[i].download_id@, #[trigger] r@[j].download_id@),
    {
        let mut r: Vec<DownloadStatus> = Vec::new();
        let mut i: usize = 0;
        while i < self.downloads.len()
            invariant
                self.wf(),
                0 <= i <= self.downloads@.len(),
                r@.len() == i,
                forall|j: int| 0 <= j < i ==> #[trigger] r@[j]@ == self@.downloads[j].status,
            decreases self.downloads@.len() - i,
        {
            proof {
                self.lemma_view_index(i as int);
            }
            r.push(self.downloads[i].status.duplicate());
            i = i + 1;
        }
        proof {
            let ids = download_ids(self@.downloads);
            assert forall|a: int, b: int|
                0 <= a < b < r@.len() implies seq_lt(#[trigger] r@[a].download_id@, #[trigger] r@[b].download_id@) by {
                assert(r@[a]@ == self@.downloads[a].status);
                assert(r@[b]@ == self@.downloads[b].status);
                assert(r@[a].download_id@ == ids[a]);
                assert(r@[b].download_id@ == ids[b]);
            }
        }
        r
    }

    fn count_active(&self) -> (n: usize)
        requires
            self.wf(),
        ensures
            n == active_count(self@.downloads),
    {
        let mut n: usize = 0;
        let mut i: usize = 0;
        while i < self.downloads.len()
            invariant
                self.wf(),
                0 <= i <= self.downloads@.len(),
                n == active_count(self@.downloads.take(i as int)),
                n <= i,
            decreases self.downloads@.len() - i,
        {
            proof {
                self.lemma_view_index(i as int);
                assert(self@.downloads.take(i + 1).drop_last() =~= self@.downloads.take(i as int));
            }
            if !self.downloads[i].status.state.is_terminal() {
                n = n + 1;
            }
            i = i + 1;
        }
        proof {
            assert(self@.downloads.take(self@.downloads.len() as int) =~= self@.downloads);
        }
        n
    }

    fn has_active_destination(&self, dest: &String) -> (b: bool)
        ensures
            b == targets_active(self@.downloads, dest@),
    {
        let mut i: usize = 0;
        while i < self.downloads.len()
            invariant
                0 <= i <= self.downloads@.len(),
                forall|j: int| 0 <= j < i ==> !(is_active(#[trigger] self@.downloads[j])
                    && self@.downloads[j].status.destination_path == dest@),
            decreases self.downloads@.len() - i,
        {
            proof {
                self.lemma_view_index(i as int);
            }
            if self.downloads[i].status.destination_path == *dest && !self.downloads[i].status.state.is_terminal() {
                return true;
            }
            i = i + 1;
        }
        false
    }

    /// Registers a download of `source_url` into `destination_path` and
    /// returns its initial status.
    ///
    /// Refused when `MAX_CONCURRENT_DOWNLOADS` downloads are already active,
    /// when an active download already writes to the destination, or when
    /// the id counter cannot advance; a refusal leaves the table as it is.
    /// Otherwise the download gets the id `download-<n>` from the counter.
    pub fn register_download(&mut self, source_url: String, destination_path: String) -> (r: Result<
        DownloadStatus,
        String,
    >)
        requires
            old(self).wf(),
        ensures
            final(self).wf(),
            if active_count(old(self)@.downloads) >= MAX_CONCURRENT_DOWNLOADS {
                r matches Err(e) && e@ == "maximum concurrent downloads reached (5)"@ && final(self)@ == old(self)@
            } else if targets_active(old(self)@.downloads, destination_path@) {
                &&& r matches Err(e)
                &&& e@ == "an active download already targets destination_path "@ + destination_path@
                &&& final(self)@ == old(self)@
            } else if old(self)@.next_download_id == u64::MAX {
                r matches Err(e) && e@ == "download id counter overflowed"@ && final(self)@ == old(self)@
            } else {
                let id = download_id_for(old(self)@.next_download_id as nat);
                let st = registered_status(id, source_url@, destination_path@);
                &&& r matches Ok(s)
                &&& s@ == st
                &&& download_index(old(self)@, id) is None
                &&& final(self)@.next_download_id == old(self)@.next_download_id + 1
                &&& exists|p: int| 0 <= p <= old(self)@.downloads.len()
                    && final(self)@.downloads == old(self)@.downloads.insert(
                    p,
                    DownloadRecordView { status: st, cancel_requested: false },
                )
                &&& download_index(final(self)@, id) matches Some(q) && final(self)@.downloads[q].status == st
                    && !final(self)@.downloads[q].cancel_requested
            },
    {
        let active = self.count_active();
        if active >= MAX_CONCURRENT_DOWNLOADS {
            return Err(owned("maximum concurrent downloads reached (5)"));
        }
        if self.has_active_destination(&destination_path) {
            let mut e = owned("an active download already targets destination_path ");
            e.append(destination_path.as_str());
            return Err(e);
        }
        let mut id = owned("download-");
        let n = decimal_string(self.next_download_id);
        id.append(n.as_str());
        let next = match self.next_download_id.checked_add(1) {
            Some(v) => v,
            None => {
                return Err(owned("download id counter overflowed"));
            },
        };
        let ghost before = self@;
        let ghost ids = download_ids(before.downloads);
        let ghost x = id@;
        proof {
            assert(x == download_id_for(before.next_download_id as nat));
            assert forall|j: int| 0 <= j < ids.len() implies ids[j] != x by {
                let k = choose|k: nat| 1 <= k < self.next_download_id && #[trigger] ids[j] == download_id_for(k);
                if ids[j] == x {
                    lemma_prefixed_decimal_injective("download-"@, k, self.next_download_id as nat);
                }
            }
            lemma_index_of_id(ids, x);
        }
        let mut p: usize = 0;
        while p < self.downloads.len() && !str_lt(id.as_str(), self.downloads[p].status.download_id.as_str())
            invariant
                self@ == before,
                ids == download_ids(before.downloads),
                ids.len() == self.downloads@.len(),
                id@ == x,
                0 <= p <= self.downloads@.len(),
                forall|j: int| 0 <= j < p ==> !seq_lt(x, #[trigger] ids[j]),
            decreases self.downloads@.len() - p,
        {
            proof {
                self.lemma_view_index(p as int);
            }
            p = p + 1;
        }
        proof {
            if p < self.downloads@.len() {
                self.lemma_view_index(p as int);
            }
            lemma_sorted_insert(ids, x, p as int);
        }
        let status = DownloadStatus {
            download_id: id,
            source_url,
            destination_path,
            state: DownloadState::Downloading,
            bytes_downloaded: 0,
            total_bytes: None,
            percent_complete: None,
            error: None,
        };
        let out = status.duplicate();
        self.downloads.insert(p, DownloadRecord { status, cancel_requested: false });
        self.next_download_id = next;
        proof {
            let rec = DownloadRecordView { status: out@, cancel_requested: false };
            assert(self@.downloads =~= before.downloads.insert(p as int, rec));
            assert(download_ids(self@.downloads) =~= ids.insert(p as int, x));
            lemma_active_count_insert(before.downloads, p as int, rec);
            let nids = download_ids(self@.downloads);
            assert forall|i: int| 0 <= i < nids.len() implies exists|k: nat|
                1 <= k < self.next_download_id && #[trigger] nids[i] == download_id_for(k) by {
                if i < p {
                    assert(nids[i] == ids[i]);
                    let k = choose|k: nat| 1 <= k < before.next_download_id && #[trigger] ids[i] == download_id_for(k);
                } else if i == p {
                    assert(nids[i] == download_id_for(before.next_download_id as nat));
                } else {
                    assert(nids[i] == ids[i - 1]);
                    let k = choose|k: nat| 1 <= k < before.next_download_id && #[trigger] ids[i - 1] == download_id_for(k);
                }
            }
            lemma_index_of_sorted(nids, p as int);
            let s = self@.downloads;
            let b = before.downloads;
            assert forall|a: int, c: int|
                0 <= a < s.len() && 0 <= c < s.len() && a != c && is_active(#[trigger] s[a])
                    && is_active(#[trigger] s[c]) implies s[a].status.destination_path
                != s[c].status.destination_path by {
                if a == p {
                    let cc = if c < p { c } else { c - 1 };
                    assert(s[c] == b[cc]);
                } else if c == p {
                    let aa = if a < p { a } else { a - 1 };
                    assert(s[a] == b[aa]);
                } else {
                    let aa = if a < p { a } else { a - 1 };
                    let cc = if c < p { c } else { c - 1 };
                    assert(s[a] == b[aa]);
                    assert(s[c] == b[cc]);
                }
            }
        }
        Ok(out)
    }

    /// Whether the cancellation of download `download_id` was requested.
    pub fn is_cancel_requested(&self, download_id: &str) -> (b: bool)
        ensures
            b == (download_index(self@, download_id@) matches Some(i)
                && self@.downloads[i].cancel_requested),
    {
        let id = owned(download_id);
        match self.lookup(&id) {
            Some(i) => {
                proof {
                    self.lemma_view_index(i as int);
                }
                self.downloads[i].cancel_requested
            },
            None => false,
        }
    }

    /// Requests the cancellation of an active download and returns its
    /// status. Unknown ids and finished downloads are refused, and the
    /// table is then left as it is.
    pub fn cancel_download(&mut self, download_id: &str) -> (r: Result<DownloadStatus, String>)
        requires
            old(self).wf(),
        ensures
            final(self).wf(),
            match download_index(old(self)@, download_id@) {
                None => r matches Err(e) && e@ == unknown_download_text(download_id@) && final(self)@ == old(self)@,
                Some(i) => if old(self)@.downloads[i].status.state.is_terminal() {
                    &&& r matches Err(e)
                    &&& e@ == "download "@ + download_id@ + " is already in state "@ + download_state_name(old(self)@.downloads[i].status.state)
                    &&& final(self)@ == old(self)@
                } else {
                    &&& r matches Ok(s)
                    &&& s@ == old(self)@.downloads[i].status
                    &&& final(self)@.next_download_id == old(self)@.next_download_id
                    &&& final(self)@.downloads == old(self)@.downloads.update(
                        i,
                        DownloadRecordView { cancel_requested: true, ..old(self)@.downloads[i] },
                    )
                },
            },
    {
        let id = owned(download_id);
        match self.lookup(&id) {
            None => Err(unknown_download(download_id)),
            Some(i) => {
                proof {
                    self.lemma_view_index(i as int);
                }
                let state = self.downloads[i].status.state;
                if state.is_terminal() {
                    let mut e = owned("download ");
                    e.append(download_id);
                    e.append(" is already in state ");
                    let name = download_state_name_exec(state);
                    e.append(name.as_str());
                    return Err(e);
                }
                let ghost before = self@;
                let mut rec = self.downloads.remove(i);
                rec.cancel_requested = true;
                let status = rec.status.duplicate();
                self.downloads.insert(i, rec);
                proof {
                    let nr = DownloadRecordView { cancel_requested: true, ..before.downloads[i as int] };
                    assert(self@.downloads =~= before.downloads.update(i as int, nr));
                    assert(download_ids(self@.downloads) =~= download_ids(before.downloads));
                    lemma_active_count_update(before.downloads, i as int, nr);
                }
                Ok(status)
            },
        }
    }

    /// Applies `upd` to the status of download `download_id`; an unknown id
    /// leaves the table as it is.
    pub fn apply_update(&mut self, download_id: &str, upd: DownloadUpdate)
        requires
            old(self).wf(),
        ensures
            final(self).wf(),
            final(self)@ == with_update(old(self)@, download_id@, upd@),
    {
        let id = owned(download_id);
        match self.lookup(&id) {
            None => {},
            Some(i) => {
                proof {
                    self.lemma_view_index(i as int);
                }
                let ghost before = self@;
                let ghost updv = upd@;
                let mut rec = self.downloads.remove(i);
                match upd {
                    DownloadUpdate::Failed(msg) => {
                        rec.status.state = DownloadState::Failed;
                        rec.status.error = Some(msg);
                    },
                    DownloadUpdate::Cancelled => {
                        rec.status.state = DownloadState::Cancelled;
                        rec.status.error = Some(owned("download cancelled by user"));
                    },
                    DownloadUpdate::Headers { total } => {
                        rec.status.total_bytes = total;
                        rec.status.percent_complete = if total.is_some() {
                            Some(PercentComplete::zero())
                        } else {
                            None
                        };
                    },
                    DownloadUpdate::Progress { downloaded } => {
                        rec.status.bytes_downloaded = downloaded;
                        match rec.status.total_bytes {
                            Some(t) => {
                                if t > 0 {
                                    rec.status.percent_complete = Some(
                                        PercentComplete { numerator: downloaded, denominator: t },
                                    );
                                }
                            },
                            None => {},
                        }
                    },
                    DownloadUpdate::Completed { downloaded, total } => {
                        rec.status.state = DownloadState::Completed;
                        rec.status.bytes_downloaded = downloaded;
                        rec.status.total_bytes = match total {
                            Some(t) => Some(t),
                            None => Some(downloaded),
                        };
                        rec.status.percent_complete = Some(PercentComplete::full());
                        rec.status.error = None;
                    },
                }
                self.downloads.insert(i, rec);
                proof {
                    let nr = DownloadRecordView {
                        status: updated_status(before.downloads[i as int].status, updv),
                        ..before.downloads[i as int]
                    };
                    assert(self@.downloads =~= before.downloads.update(i as int, nr));
                    assert(download_ids(self@.downloads) =~= download_ids(before.downloads));
                    lemma_active_count_update(before.downloads, i as int, nr);
                    let s = self@.downloads;
                    assert forall|a: int, b: int|
                        0 <= a < s.len() && 0 <= b < s.len() && a != b && is_active(#[trigger] s[a])
                            && is_active(#[trigger] s[b]) implies s[a].status.destination_path
                        != s[b].status.destination_path by {
                        assert(is_active(before.downloads[a]));
                        assert(is_active(before.downloads[b]));
                    }
                }
            },
        }
    }
}


/// The message of a failed transfer.
pub open spec fn download_failure_text(source_url: Seq<char>, kind: FailureKind, error: Seq<char>) -> Seq<char> {
    match kind {
        FailureKind::Timeout => "download from "@ + source_url + " timed out: "@ + error,
        FailureKind::Unavailable => "download from "@ + source_url + " is unavailable: "@ + error,
        FailureKind::Other => "download from "@ + source_url + " failed: "@ + error,
    }
}

pub fn download_failure_message(source_url: &str, kind: DownloadFailureKind, error: &str) -> (r: String)
    ensures
        r@ == download_failure_text(source_url@, kind, error@),
{
    let mut s = owned("download from ");
    s.append(source_url);
    match kind {
        FailureKind::Timeout => s.append(" timed out: "),
        FailureKind::Unavailable => s.append(" is unavailable: "),
        FailureKind::Other => s.append(" failed: "),
    }
    s.append(error);
    s
}

/// No update brings a finished download back to `Downloading`.
pub proof fn law_finished_downloads_stay_finished(st: DownloadStatusView, upd: DownloadUpdateView)
    ensures
        update_keeps_finished(st, upd),
{
}

/// A download completed with the announced length (or with none announced)
/// reports exactly the bytes it received, as both its count and its total.
pub proof fn law_completed_download_is_whole(st: DownloadStatusView, downloaded: u64, total: Option<u64>)
    requires
        total is None || total == Some(downloaded),
    ensures
        updated_status(st, DownloadUpdateView::Completed { downloaded, total }).state == DownloadState::Completed,
        updated_status(st, DownloadUpdateView::Completed { downloaded, total }).bytes_downloaded == downloaded,
        updated_status(st, DownloadUpdateView::Completed { downloaded, total }).total_bytes == Some(downloaded),
        updated_status(st, DownloadUpdateView::Completed { downloaded, total }).error is None,
{
}

/// The percentage of a status follows its count and its total: there is
/// one exactly when a total is known, and for a positive total it is the
/// fraction `bytes_downloaded / total`.
pub open spec fn progress_consistent(st: DownloadStatusView) -> bool {
    &&& (st.total_bytes is None <==> st.percent_complete is None)
    &&& (st.total_bytes matches Some(t) ==> (t > 0 ==> (st.percent_complete matches Some(p) && p.denominator > 0
        && p.numerator * t == st.bytes_downloaded * p.denominator)))
}

/// An update that the worker of a download may send in status `st`: the
/// announced length comes once, before any byte; counts never go down;
/// and the download completes with the length that was announced, having
/// received all of it.
pub open spec fn worker_update_ok(st: DownloadStatusView, upd: DownloadUpdateView) -> bool {
    match upd {
        DownloadUpdateView::Headers { .. } => st.bytes_downloaded == 0 && st.total_bytes is None,
        DownloadUpdateView::Progress { downloaded } => st.bytes_downloaded <= downloaded,
        DownloadUpdateView::Completed { downloaded, total } => {
            &&& st.bytes_downloaded <= downloaded
            &&& total == st.total_bytes
            &&& (total is None || total == Some(downloaded))
        },
        _ => true,
    }
}

/// The status after the updates `upds`, in order.
pub open spec fn run_status(st: DownloadStatusView, upds: Seq<DownloadUpdateView>) -> DownloadStatusView
    decreases upds.len(),
{
    if upds.len() == 0 {
        st
    } else {
        updated_status(run_status(st, upds.drop_last()), upds.last())
    }
}

/// `upds` is what one worker sends from status `st` on: each update is one
/// it may send at that point, and none follows a terminal state.
pub open spec fn worker_run(st: DownloadStatusView, upds: Seq<DownloadUpdateView>) -> bool {
    forall|i: int|
        0 <= i < upds.len() ==> {
            let cur = #[trigger] run_status(st, upds.take(i));
            &&& !cur.state.is_terminal()
            &&& worker_update_ok(cur, upds[i])
        }
}

proof fn lemma_run_status_step(st: DownloadStatusView, upds: Seq<DownloadUpdateView>, k: int)
    requires
        0 <= k < upds.len(),
    ensures
        run_status(st, upds.take(k + 1)) == updated_status(run_status(st, upds.take(k)), upds[k]),
{
    assert(upds.take(k + 1).drop_last() =~= upds.take(k));
}

proof fn lemma_update_keeps_progress(st: DownloadStatusView, upd: DownloadUpdateView)
    requires
        progress_consistent(st),
        worker_update_ok(st, upd),
    ensures
        progress_consistent(updated_status(st, upd)),
        st.bytes_downloaded <= updated_status(st, upd).bytes_downloaded,
        st.total_bytes is Some ==> updated_status(st, upd).total_bytes == st.total_bytes,
{
    let after = updated_status(st, upd);
    match upd {
        DownloadUpdateView::Progress { downloaded } => {
            if let Some(t) = st.total_bytes {
                if t > 0 {
                    assert(after.percent_complete == Some(PercentComplete { numerator: downloaded, denominator: t }));
                }
            }
        },
        DownloadUpdateView::Completed { downloaded, total } => {
            assert(after.percent_complete == Some(PercentComplete { numerator: 1, denominator: 1 }));
            if let Some(t) = after.total_bytes {
                assert(t == downloaded);
                assert(1 * t == downloaded * 1);
            }
        },
        _ => {},
    }
}

proof fn lemma_run_from(st: DownloadStatusView, upds: Seq<DownloadUpdateView>, j: int, k: int)
    requires
        progress_consistent(st),
        worker_run(st, upds),
        0 <= j <= k <= upds.len(),
    ensures
        progress_consistent(run_status(st, upds.take(k))),
        run_status(st, upds.take(j)).bytes_downloaded <= run_status(st, upds.take(k)).bytes_downloaded,
        run_status(st, upds.take(j)).total_bytes is Some ==> run_status(st, upds.take(k)).total_bytes
            == run_status(st, upds.take(j)).total_bytes,
    decreases k,
{
    if k == 0 {
        assert(upds.take(0) =~= Seq::<DownloadUpdateView>::empty());
    } else if j == k {
        lemma_run_from(st, upds, 0, k - 1);
        lemma_run_status_step(st, upds, k - 1);
        let prev = run_status(st, upds.take(k - 1));
        lemma_update_keeps_progress(prev, upds[k - 1]);
    } else {
        lemma_run_from(st, upds, j, k - 1);
        lemma_run_status_step(st, upds, k - 1);
        let prev = run_status(st, upds.take(k - 1));
        lemma_update_keeps_progress(prev, upds[k - 1]);
    }
}

/// The status of download `id` in `v`, if it is in the table.
pub open spec fn status_of(v: DownloaderView, id: Seq<char>) -> Option<DownloadStatusView> {
    match download_index(v, id) {
        Some(i) => Some(v.downloads[i].status),
        None => None,
    }
}

/// The worker `w` and the record of its download agree: the record's
/// percentage follows its count; before the response, nothing is counted
/// or announced; while the body is fetched, the record holds the worker's
/// count and announced length; and the record is finished exactly when the
/// worker is.
pub open spec fn worker_matches(w: DownloadWorker, v: DownloaderView) -> bool {
    match status_of(v, w.download_id@) {
        None => true,
        Some(st) => {
            &&& progress_consistent(st)
            &&& (st.state.is_terminal() <==> w.stage == DownloadStage::Finished)
            &&& (w.stage == DownloadStage::Connecting ==> w.downloaded == 0 && st.bytes_downloaded == 0
                && st.total_bytes is None)
            &&& (w.stage != DownloadStage::Connecting && w.stage != DownloadStage::Finished ==> st.bytes_downloaded
                == w.downloaded && st.total_bytes == w.total_bytes)
        },
    }
}

/// From `v0` to `v1`, the count of download `id` did not go down.
pub open spec fn bytes_kept(v0: DownloaderView, v1: DownloaderView, id: Seq<char>) -> bool {
    status_of(v0, id) matches Some(x) ==> (status_of(v1, id) matches Some(y) && x.bytes_downloaded
        <= y.bytes_downloaded)
}

/// A step of the worker from `(w0, v0)` to `(w1, v1)` keeps the worker and
/// its record in agreement and never lowers the count.
pub open spec fn step_keeps_progress(w0: DownloadWorker, v0: DownloaderView, w1: DownloadWorker, v1: DownloaderView) -> bool {
    worker_matches(w0, v0) ==> worker_matches(w1, v1) && bytes_kept(v0, v1, w0.download_id@)
}

proof fn lemma_status_after_update(v: DownloaderView, id: Seq<char>, upd: DownloadUpdateView)
    ensures
        status_of(with_update(v, id, upd), id) == (match status_of(v, id) {
            Some(st) => Some(updated_status(st, upd)),
            None => None,
        }),
{
    match download_index(v, id) {
        Some(i) => {
            lemma_index_of_id(download_ids(v.downloads), id);
            assert(download_ids(with_update(v, id, upd).downloads) =~= download_ids(v.downloads));
        },
        None => {},
    }
}

/// A worker begun for a freshly registered download agrees with its record.
pub proof fn law_begun_worker_matches(w: DownloadWorker, v: DownloaderView, source: Seq<char>, dest: Seq<char>)
    requires
        w.stage == DownloadStage::Connecting,
        w.downloaded == 0,
        status_of(v, w.download_id@) == Some(registered_status(w.download_id@, source, dest)),
    ensures
        worker_matches(w, v),
{
}

/// Over the updates that the worker of a download sends from its
/// registration on, at every moment: the percentage matches the count and
/// the announced total; the count never goes down; a known total stays; and
/// once the download is finished, nothing changes any more.
pub proof fn law_download_progress_over_a_run(
    id: Seq<char>,
    source: Seq<char>,
    dest: Seq<char>,
    upds: Seq<DownloadUpdateView>,
    j: int,
    k: int,
)
    requires
        worker_run(registered_status(id, source, dest), upds),
        0 <= j <= k <= upds.len(),
    ensures
        progress_consistent(run_status(registered_status(id, source, dest), upds.take(k))),
        run_status(registered_status(id, source, dest), upds.take(j)).bytes_downloaded
            <= run_status(registered_status(id, source, dest), upds.take(k)).bytes_downloaded,
        run_status(registered_status(id, source, dest), upds.take(j)).total_bytes is Some
            ==> run_status(registered_status(id, source, dest), upds.take(k)).total_bytes
            == run_status(registered_status(id, source, dest), upds.take(j)).total_bytes,
        run_status(registered_status(id, source, dest), upds.take(j)).state.is_terminal()
            ==> run_status(registered_status(id, source, dest), upds.take(k))
            == run_status(registered_status(id, source, dest), upds.take(j)),
{
    let st = registered_status(id, source, dest);
    lemma_run_from(st, upds, j, k);
    if j < k && run_status(st, upds.take(j)).state.is_terminal() {
        assert(!run_status(st, upds.take(j)).state.is_terminal());
    }
}

#[derive(Clone, Copy, Debug, PartialEq, Eq, Structural)]
pub enum DownloadStage {
    Connecting,
    Creating,
    Reading,
    Writing,
    Flushing,
    Renaming,
    Finished,
}

/// What the worker of a download does next.
#[derive(Clone, Copy, Debug, PartialEq, Eq, Structural)]
pub enum DownloadNext {
    /// Build an HTTP client and send the GET request with the headers.
    Connect,
    /// Create the temporary file.
    CreateTemp,
    /// Read the next block of the body.
    Read,
    /// Write the first `n` bytes of the block read to the temporary file.
    Write(usize),
    /// Flush the temporary file.
    Flush,
    /// Move the temporary file to the destination.
    Rename,
    /// Remove the temporary file, ignoring any error, and stop.
    RemoveTempThenStop,
    /// The download is over.
    Stop,
}

/// How the request went.
pub enum DownloadConnectOutcome {
    ClientFailed(String),
    SendFailed { kind: FailureKind, error: String },
    Responded { status: u16, content_length: Option<u64> },
}

/// The result of reading one block of the body.
pub enum ReadOutcome {
    Read(usize),
    ReadFailed { kind: FailureKind, error: String },
}

/// The worker that fetches one download into its temporary file and moves
/// it into place.
pub struct DownloadWorker {
    pub download_id: String,
    pub source_url: String,
    pub destination_path: String,
    pub temp_path: String,
    /// The length that the response announced.
    pub total_bytes: Option<u64>,
    /// Bytes written so far.
    pub downloaded: u64,
    /// Bytes read and not yet written.
    pub pending: usize,
    pub stage: DownloadStage,
}

/// The step fails the download with `msg`; the temporary file is removed
/// when `remove` holds.
pub open spec fn fails_download(
    w: DownloadWorker,
    next: DownloadNext,
    before: DownloaderView,
    svc: DownloaderView,
    msg: Seq<char>,
    remove: bool,
) -> bool {
    &&& w.stage == DownloadStage::Finished
    &&& next == (if remove { DownloadNext::RemoveTempThenStop } else { DownloadNext::Stop })
    &&& svc == with_update(before, w.download_id@, DownloadUpdateView::Failed(msg))
}

/// The step ends the download as cancelled and removes the temporary file.
pub open spec fn cancels_download(w: DownloadWorker, next: DownloadNext, before: DownloaderView, svc: DownloaderView) -> bool {
    &&& w.stage == DownloadStage::Finished
    &&& next == DownloadNext::RemoveTempThenStop
    &&& svc == with_update(before, w.download_id@, DownloadUpdateView::Cancelled)
}

/// Whether the cancellation of `id` was requested in `v`.
pub open spec fn cancel_requested_in(v: DownloaderView, id: Seq<char>) -> bool {
    download_index(v, id) matches Some(i) && v.downloads[i].cancel_requested
}

/// After a block is written or the file is created: stop if cancelled,
/// otherwise read on.
pub open spec fn continues_reading(w: DownloadWorker, next: DownloadNext, before: DownloaderView, svc: DownloaderView) -> bool {
    if cancel_requested_in(before, w.download_id@) {
        cancels_download(w, next, before, svc)
    } else {
        svc == before && w.stage == DownloadStage::Reading && next == DownloadNext::Read
    }
}

impl DownloadWorker {
    /// The worker keeps its identity and, once ready to rename, has received
    /// the announced length.
    pub open spec fn wf(&self) -> bool {
        self.stage == DownloadStage::Renaming ==> (self.total_bytes is None || self.total_bytes == Some(self.downloaded))
    }

    /// The same download, in another stage.
    pub open spec fn same_download(&self, other: DownloadWorker) -> bool {
        &&& other.download_id@ == self.download_id@
        &&& other.source_url@ == self.source_url@
        &&& other.destination_path@ == self.destination_path@
        &&& other.temp_path@ == self.temp_path@
    }

    /// Starts the worker of a registered download.
    pub fn begin(download_id: String, source_url: String, destination_path: String, temp_path: String) -> (r: (
        DownloadWorker,
        DownloadNext,
    ))
        ensures
            r.0.wf(),
            r.0.download_id@ == download_id@,
            r.0.source_url@ == source_url@,
            r.0.destination_path@ == destination_path@,
            r.0.temp_path@ == temp_path@,
            r.0.total_bytes is None,
            r.0.downloaded == 0,
            r.0.stage == DownloadStage::Connecting,
            r.1 == DownloadNext::Connect,
    {
        (
            DownloadWorker {
                download_id,
                source_url,
                destination_path,
                temp_path,
                total_bytes: None,
                downloaded: 0,
                pending: 0,
                stage: DownloadStage::Connecting,
            },
            DownloadNext::Connect,
        )
    }

    fn fail(&mut self, svc: &mut DownloaderService, msg: String, remove: bool) -> (next: DownloadNext)
        requires
            old(svc).wf(),
            old(self).stage != DownloadStage::Finished,
        ensures
            final(svc).wf(),
            step_keeps_progress(*old(self), old(svc)@, *final(self), final(svc)@),
            old(self).same_download(*final(self)),
            final(self).downloaded == old(self).downloaded,
            final(self).total_bytes == old(self).total_bytes,
            fails_download(*final(self), next, old(svc)@, final(svc)@, msg@, remove),
    {
        let ghost v0 = svc@;
        let ghost upd = DownloadUpdateView::Failed(msg@);
        svc.apply_update(self.download_id.as_str(), DownloadUpdate::Failed(msg));
        self.stage = DownloadStage::Finished;
        proof {
            lemma_status_after_update(v0, self.download_id@, upd);
        }
        if remove {
            DownloadNext::RemoveTempThenStop
        } else {
            DownloadNext::Stop
        }
    }

    fn read_on(&mut self, svc: &mut DownloaderService) -> (next: DownloadNext)
        requires
            old(svc).wf(),
            old(self).stage == DownloadStage::Creating || old(self).stage == DownloadStage::Writing,
        ensures
            final(svc).wf(),
            step_keeps_progress(*old(self), old(svc)@, *final(self), final(svc)@),
            old(self).same_download(*final(self)),
            final(self).downloaded == old(self).downloaded,
            final(self).total_bytes == old(self).total_bytes,
            continues_reading(*final(self), next, old(svc)@, final(svc)@),
    {
        if svc.is_cancel_requested(self.download_id.as_str()) {
            let ghost v0 = svc@;
            svc.apply_update(self.download_id.as_str(), DownloadUpdate::Cancelled);
            self.stage = DownloadStage::Finished;
            proof {
                lemma_status_after_update(v0, self.download_id@, DownloadUpdateView::Cancelled);
            }
            DownloadNext::RemoveTempThenStop
        } else {
            self.stage = DownloadStage::Reading;
            DownloadNext::Read
        }
    }

    /// Handles the response to the request. A client or send failure fails
    /// the download with its category; a status outside `200..300` fails it
    /// (and the temporary file is removed); otherwise the announced length
    /// is recorded and the temporary file is created.
    pub fn on_connect(&mut self, svc: &mut DownloaderService, outcome: DownloadConnectOutcome) -> (next: DownloadNext)
        requires
            old(svc).wf(),
            old(self).wf(),
            old(self).stage == DownloadStage::Connecting,
            outcome matches DownloadConnectOutcome::Responded { status, .. } ==> 100 <= status <= 999,
        ensures
            final(svc).wf(),
            final(self).wf(),
            old(self).same_download(*final(self)),
            step_keeps_progress(*old(self), old(svc)@, *final(self), final(svc)@),
            final(self).downloaded == old(self).downloaded,
            match outcome {
                DownloadConnectOutcome::ClientFailed(e) => fails_download(*final(self), next, old(svc)@,
                    final(svc)@, download_failure_text(old(self).source_url@, FailureKind::Other,
                    "failed to build HTTP client: "@ + e@), false),
                DownloadConnectOutcome::SendFailed { kind, error } => fails_download(*final(self), next,
                    old(svc)@, final(svc)@, download_failure_text(old(self).source_url@, kind, error@), false),
                DownloadConnectOutcome::Responded { status, content_length } => if is_success_status(status) {
                    &&& final(svc)@ == with_update(old(svc)@, old(self).download_id@,
                        DownloadUpdateView::Headers { total: content_length })
                    &&& final(self).total_bytes == content_length
                    &&& final(self).stage == DownloadStage::Creating
                    &&& next == DownloadNext::CreateTemp
                } else {
                    fails_download(*final(self), next, old(svc)@, final(svc)@,
                        download_failure_text(old(self).source_url@, FailureKind::Other,
                        "download request failed with HTTP status "@ + status_text(status)), true)
                },
            },
    {
        match outcome {
            DownloadConnectOutcome::ClientFailed(e) => {
                let mut m = owned("failed to build HTTP client: ");
                m.append(e.as_str());
                let msg = download_failure_message(self.source_url.as_str(), FailureKind::Other, m.as_str());
                self.fail(svc, msg, false)
            },
            DownloadConnectOutcome::SendFailed { kind, error } => {
                let msg = download_failure_message(self.source_url.as_str(), kind, error.as_str());
                self.fail(svc, msg, false)
            },
            DownloadConnectOutcome::Responded { status, content_length } => {
                if 200 <= status && status < 300 {
                    let ghost v0 = svc@;
                    let ghost w0 = *self;
                    let ghost upd = DownloadUpdateView::Headers { total: content_length };
                    svc.apply_update(self.download_id.as_str(), DownloadUpdate::Headers { total: content_length });
                    self.total_bytes = content_length;
                    self.stage = DownloadStage::Creating;
                    proof {
                        lemma_status_after_update(v0, w0.download_id@, upd);
                        if worker_matches(w0, v0) {
                            if let Some(st) = status_of(v0, w0.download_id@) {
                                lemma_update_keeps_progress(st, upd);
                            }
                        }
                    }
                    DownloadNext::CreateTemp
                } else {
                    let mut m = owned("download request failed with HTTP status ");
                    let st = status_display(status);
                    m.append(st.as_str());
                    let msg = download_failure_message(self.source_url.as_str(), FailureKind::Other, m.as_str());
                    self.fail(svc, msg, true)
                }
            },
        }
    }

    /// Handles the creation of the temporary file: a failure fails the
    /// download; otherwise reading starts, unless cancellation was requested.
    pub fn on_created(&mut self, svc: &mut DownloaderService, result: Result<(), String>) -> (next: DownloadNext)
        requires
            old(svc).wf(),
            old(self).wf(),
            old(self).stage == DownloadStage::Creating,
        ensures
            final(svc).wf(),
            final(self).wf(),
            old(self).same_download(*final(self)),
            step_keeps_progress(*old(self), old(svc)@, *final(self), final(svc)@),
            final(self).downloaded == old(self).downloaded,
            final(self).total_bytes == old(self).total_bytes,
            match result {
                Err(e) => fails_download(*final(self), next, old(svc)@, final(svc)@,
                    "failed to create temporary file "@ + old(self).temp_path@ + ": "@ + e@, false),
                Ok(()) => continues_reading(*final(self), next, old(svc)@, final(svc)@),
            },
    {
        match result {
            Err(e) => {
                let mut msg = owned("failed to create temporary file ");
                msg.append(self.temp_path.as_str());
                msg.append(": ");
                msg.append(e.as_str());
                self.fail(svc, msg, false)
            },
            Ok(()) => self.read_on(svc),
        }
    }

    /// Handles a read: an error fails the download; an empty read ends the
    /// body; otherwise the block is written.
    pub fn on_read(&mut self, svc: &mut DownloaderService, outcome: ReadOutcome) -> (next: DownloadNext)
        requires
            old(svc).wf(),
            old(self).wf(),
            old(self).stage == DownloadStage::Reading,
        ensures
            final(svc).wf(),
            final(self).wf(),
            old(self).same_download(*final(self)),
            step_keeps_progress(*old(self), old(svc)@, *final(self), final(svc)@),
            final(self).downloaded == old(self).downloaded,
            final(self).total_bytes == old(self).total_bytes,
            match outcome {
                ReadOutcome::ReadFailed { kind, error } => fails_download(*final(self), next, old(svc)@,
                    final(svc)@, download_failure_text(old(self).source_url@, kind, error@), true),
                ReadOutcome::Read(n) => final(svc)@ == old(svc)@ && if n == 0 {
                    final(self).stage == DownloadStage::Flushing && next == DownloadNext::Flush
                } else {
                    final(self).stage == DownloadStage::Writing && final(self).pending == n
                        && next == DownloadNext::Write(n)
                },
            },
    {
        match outcome {
            ReadOutcome::ReadFailed { kind, error } => {
                let msg = download_failure_message(self.source_url.as_str(), kind, error.as_str());
                self.fail(svc, msg, true)
            },
            ReadOutcome::Read(n) => {
                if n == 0 {
                    self.stage = DownloadStage::Flushing;
                    DownloadNext::Flush
                } else {
                    self.pending = n;
                    self.stage = DownloadStage::Writing;
                    DownloadNext::Write(n)
                }
            },
        }
    }

    /// Handles the write of a block: a failure fails the download;
    /// otherwise the count grows by the block's size (saturating), progress
    /// is recorded, and reading goes on unless cancellation was requested.
    pub fn on_written(&mut self, svc: &mut DownloaderService, result: Result<(), String>) -> (next: DownloadNext)
        requires
            old(svc).wf(),
            old(self).wf(),
            old(self).stage == DownloadStage::Writing,
        ensures
            final(svc).wf(),
            final(self).wf(),
            old(self).same_download(*final(self)),
            step_keeps_progress(*old(self), old(svc)@, *final(self), final(svc)@),
            final(self).total_bytes == old(self).total_bytes,
            match result {
                Err(e) => final(self).downloaded == old(self).downloaded && fails_download(*final(self), next,
                    old(svc)@, final(svc)@, "failed while writing temporary file "@ + old(self).temp_path@
                    + ": "@ + e@, true),
                Ok(()) => {
                    let d = if old(self).downloaded + old(self).pending > u64::MAX {
                        u64::MAX
                    } else {
                        (old(self).downloaded + old(self).pending) as u64
                    };
                    let mid = with_update(old(svc)@, old(self).download_id@, DownloadUpdateView::Progress { downloaded: d });
                    &&& final(self).downloaded == d
                    &&& continues_reading(*final(self), next, mid, final(svc)@)
                },
            },
    {
        match result {
            Err(e) => {
                let mut msg = owned("failed while writing temporary file ");
                msg.append(self.temp_path.as_str());
                msg.append(": ");
                msg.append(e.as_str());
                self.fail(svc, msg, true)
            },
            Ok(()) => {
                let ghost v0 = svc@;
                let ghost w0 = *self;
                self.downloaded = self.downloaded.saturating_add(self.pending as u64);
                self.pending = 0;
                let ghost upd = DownloadUpdateView::Progress { downloaded: self.downloaded };
                svc.apply_update(self.download_id.as_str(), DownloadUpdate::Progress { downloaded: self.downloaded });
                proof {
                    lemma_status_after_update(v0, w0.download_id@, upd);
                    if worker_matches(w0, v0) {
                        if let Some(st) = status_of(v0, w0.download_id@) {
                            lemma_update_keeps_progress(st, upd);
                        }
                    }
                }
                self.read_on(svc)
            },
        }
    }

    /// Handles the flush at the end of the body. A flush failure, or a body
    /// shorter or longer than announced, fails the download; a requested
    /// cancellation cancels it; otherwise the file is moved into place.
    pub fn on_flushed(&mut self, svc: &mut DownloaderService, result: Result<(), String>) -> (next: DownloadNext)
        requires
            old(svc).wf(),
            old(self).wf(),
            old(self).stage == DownloadStage::Flushing,
        ensures
            final(svc).wf(),
            final(self).wf(),
            old(self).same_download(*final(self)),
            step_keeps_progress(*old(self), old(svc)@, *final(self), final(svc)@),
            final(self).downloaded == old(self).downloaded,
            final(self).total_bytes == old(self).total_bytes,
            match result {
                Err(e) => fails_download(*final(self), next, old(svc)@, final(svc)@,
                    "failed to flush temporary file: "@ + e@, true),
                Ok(()) => if old(self).total_bytes matches Some(t) && t != old(self).downloaded {
                    fails_download(*final(self), next, old(svc)@, final(svc)@,
                        "download ended early: expected "@ + decimal(old(self).total_bytes->0 as nat)
                        + " bytes, received "@ + decimal(old(self).downloaded as nat), true)
                } else if cancel_requested_in(old(svc)@, old(self).download_id@) {
                    cancels_download(*final(self), next, old(svc)@, final(svc)@)
                } else {
                    final(svc)@ == old(svc)@ && final(self).stage == DownloadStage::Renaming
                        && next == DownloadNext::Rename
                },
            },
    {
        match result {
            Err(e) => {
                let mut msg = owned("failed to flush temporary file: ");
                msg.append(e.as_str());
                self.fail(svc, msg, true)
            },
            Ok(()) => {
                match self.total_bytes {
                    Some(t) => {
                        if t != self.downloaded {
                            let mut msg = owned("download ended early: expected ");
                            let ts = decimal_string(t);
                            msg.append(ts.as_str());
                            msg.append(" bytes, received ");
                            let ds = decimal_string(self.downloaded);
                            msg.append(ds.as_str());
                            return self.fail(svc, msg, true);
                        }
                    },
                    None => {},
                }
                if svc.is_cancel_requested(self.download_id.as_str()) {
                    let ghost v0 = svc@;
                    svc.apply_update(self.download_id.as_str(), DownloadUpdate::Cancelled);
                    self.stage = DownloadStage::Finished;
                    proof {
                        lemma_status_after_update(v0, self.download_id@, DownloadUpdateView::Cancelled);
                    }
                    return DownloadNext::RemoveTempThenStop;
                }
                self.stage = DownloadStage::Renaming;
                DownloadNext::Rename
            },
        }
    }

    /// Handles the move of the temporary file: a failure fails the
    /// download; otherwise it is completed with the bytes received, which
    /// are then also its total.
    pub fn on_renamed(&mut self, svc: &mut DownloaderService, result: Result<(), String>) -> (next: DownloadNext)
        requires
            old(svc).wf(),
            old(self).wf(),
            old(self).stage == DownloadStage::Renaming,
        ensures
            final(svc).wf(),
            final(self).wf(),
            old(self).same_download(*final(self)),
            step_keeps_progress(*old(self), old(svc)@, *final(self), final(svc)@),
            match result {
                Err(e) => fails_download(*final(self), next, old(svc)@, final(svc)@,
                    "failed to move temporary file to "@ + old(self).destination_path@ + ": "@ + e@, true),
                Ok(()) => {
                    &&& final(svc)@ == with_update(old(svc)@, old(self).download_id@,
                        DownloadUpdateView::Completed { downloaded: old(self).downloaded, total: old(self).total_bytes })
                    &&& final(self).stage == DownloadStage::Finished
                    &&& next == DownloadNext::Stop
                    &&& (download_index(final(svc)@, old(self).download_id@) matches Some(i) ==> {
                        let st = final(svc)@.downloads[i].status;
                        st.state == DownloadState::Completed && st.total_bytes == Some(st.bytes_downloaded)
                    })
                },
            },
    {
        match result {
            Err(e) => {
                let mut msg = owned("failed to move temporary file to ");
                msg.append(self.destination_path.as_str());
                msg.append(": ");
                msg.append(e.as_str());
                self.fail(svc, msg, true)
            },
            Ok(()) => {
                let ghost before = svc@;
                let ghost w0 = *self;
                svc.apply_update(
                    self.download_id.as_str(),
                    DownloadUpdate::Completed { downloaded: self.downloaded, total: self.total_bytes },
                );
                self.stage = DownloadStage::Finished;
                proof {
                    let cupd = DownloadUpdateView::Completed { downloaded: self.downloaded, total: self.total_bytes };
                    lemma_status_after_update(before, self.download_id@, cupd);
                    if let Some(st) = status_of(before, self.download_id@) {
                        if worker_matches(w0, before) {
                            lemma_update_keeps_progress(st, cupd);
                        }
                    }
                    match download_index(before, self.download_id@) {
                        Some(i) => {
                            law_completed_download_is_whole(before.downloads[i].status, self.downloaded, self.total_bytes);
                            lemma_index_of_id(download_ids(before.downloads), self.download_id@);
                            let upd = DownloadUpdateView::Completed { downloaded: self.downloaded, total: self.total_bytes };
                            let nr = DownloadRecordView {
                                status: updated_status(before.downloads[i].status, upd),
                                ..before.downloads[i]
                            };
                            assert(svc@.downloads == before.downloads.update(i, nr));
                            assert(nr.status.download_id == before.downloads[i].status.download_id);
                            assert(download_ids(svc@.downloads) =~= download_ids(before.downloads));
                            assert(svc@.downloads[i] == nr);
                        },
                        None => {},
                    }
                }
                DownloadNext::Stop
            },
        }
    }
}

} // verus!
