//! The data that the application keeps and exchanges.
//!
//! Floating-point settings (the sampling temperature) are carried as the bit
//! pattern of their `f32` value, so that the library can store and move them
//! without doing arithmetic on them.

use vstd::prelude::*;
use crate::downloader::single_component;
use crate::text::{has_char, owned};

verus! {

/// Host that a fresh configuration points `llama-server` at.
pub fn default_host() -> (r: String)
    ensures
        r@ == "127.0.0.1"@,
{
    owned("127.0.0.1")
}

pub const DEFAULT_PORT: u16 = 8080;

pub const DEFAULT_CONTEXT_SIZE: u32 = 4096;

pub const DEFAULT_MAX_TOKENS: u32 = 512;

/// Bit pattern of the default temperature, `0.7_f32`.
pub const DEFAULT_TEMPERATURE_BITS: u32 = 0x3F33_3333;

pub fn default_port() -> (r: u16)
    ensures
        r == 8080,
{
    DEFAULT_PORT
}

pub fn default_context_size() -> (r: u32)
    ensures
        r == 4096,
{
    DEFAULT_CONTEXT_SIZE
}

pub fn default_max_tokens() -> (r: u32)
    ensures
        r == 512,
{
    DEFAULT_MAX_TOKENS
}

/// Default number of inference threads for a machine that reports
/// `available` units of parallelism (`None` when it cannot tell): half of
/// them, and at least two. A count that does not fit in `u32` is truncated
/// to its low 32 bits first, as an `as u32` conversion does.
pub fn default_threads(available: Option<usize>) -> (r: u32)
    ensures
        r == ({
            let cpus: u32 = match available {
                Some(n) => n as u32,
                None => 4u32,
            };
            if cpus / 2 < 2 { 2u32 } else { cpus / 2 }
        }),
{
    let cpus: u32 = match available {
        Some(n) => n as u32,
        None => 4,
    };
    let half = cpus / 2;
    if half < 2 {
        2
    } else {
        half
    }
}

/// A separator as some platform writes it between two components.
pub open spec fn is_separator_text(s: Seq<char>) -> bool {
    s == "/"@ || s == "\\"@
}

/// A base onto which every platform joins a plain component by putting a
/// separator between them: not empty, not ending with a separator or `:`
/// (as a bare drive `C:` does), and free of `?` (which opens a Windows
/// verbatim prefix, under which a path is rebuilt from its components).
pub open spec fn joinable_base(b: Seq<char>) -> bool {
    &&& b.len() > 0
    &&& b.last() != '/'
    &&& b.last() != '\\'
    &&& b.last() != ':'
    &&& !has_char(b, '?')
}

/// `r` is `base`, one separator and `part`.
pub open spec fn joined(r: Seq<char>, base: Seq<char>, part: Seq<char>) -> bool {
    exists|s: Seq<char>| is_separator_text(s) && r == base + s + part
}

/// Trusted: `PathBuf::join` of `part` onto `base`, as a (lossless, the input
/// being UTF-8) string. Stated is what holds on every platform: joined onto
/// an empty base, the part stands alone; joined onto a base that does not
/// end with a separator or a bare drive, a plain relative component follows
/// the base after one separator, `/` or `\`, whichever is the platform's.
#[verifier::external_body]
fn path_join(base: &str, part: &str) -> (r: String)
    ensures
        base@.len() == 0 ==> r@ == part@,
        joinable_base(base@) && single_component(part@) ==> joined(r@, base@, part@),
{
    std::path::PathBuf::from(base).join(part).to_string_lossy().into_owned()
}

/// `r` is `home`, a separator, `Downloads`, a separator and `LLMModels`.
pub open spec fn folder_under(home: Seq<char>, r: Seq<char>) -> bool {
    exists|s1: Seq<char>, s2: Seq<char>|
        is_separator_text(s1) && is_separator_text(s2) && r == home + s1 + "Downloads"@ + s2 + "LLMModels"@
}

/// The home directory the default download folder lives under: the Windows
/// user profile when it is set, else `HOME`.
pub open spec fn download_home(userprofile: Option<Seq<char>>, home: Option<Seq<char>>) -> Option<Seq<char>> {
    match userprofile {
        Some(p) => Some(p),
        None => home,
    }
}

/// Where downloaded models go by default, given the values of the
/// `USERPROFILE` and `HOME` variables (`None` when unset or unreadable):
/// `Downloads/LLMModels` under the home directory, or `LLMModels` when there
/// is none.
pub fn default_download_folder(userprofile: Option<String>, home: Option<String>) -> (r: String)
    ensures
        match download_home(opt_view(userprofile), opt_view(home)) {
            None => r@ == "LLMModels"@,
            Some(h) => joinable_base(h) ==> folder_under(h, r@),
        },
{
    let base = match userprofile {
        Some(p) => Some(p),
        None => home,
    };
    match base {
        Some(b) => {
            proof {
                reveal_strlit("Downloads");
                reveal_strlit("LLMModels");
                reveal_strlit("/");
                reveal_strlit("\\");
                reveal_strlit(".");
                reveal_strlit("..");
            }
            assert("Downloads"@.len() == 9);
            assert("Downloads"@ != "."@);
            assert("Downloads"@ != ".."@);
            assert(!has_char("Downloads"@, '/'));
            assert(!has_char("Downloads"@, '\\'));
            assert(!has_char("Downloads"@, ':'));
            assert(single_component("Downloads"@));
            assert(single_component("LLMModels"@));
            let downloads = path_join(b.as_str(), "Downloads");
            proof {
                if joinable_base(b@) {
                    let s1 = choose|s: Seq<char>| is_separator_text(s) && downloads@ == b@ + s + "Downloads"@;
                    assert(downloads@.last() == 's');
                    assert forall|i: int| 0 <= i < downloads@.len() implies downloads@[i] != '?' by {
                        if i < b@.len() {
                            assert(downloads@[i] == b@[i]);
                        } else if i < b@.len() + s1.len() {
                            assert(downloads@[i] == s1[i - b@.len()]);
                        } else {
                            assert(downloads@[i] == "Downloads"@[i - b@.len() - s1.len()]);
                        }
                    }
                    assert(joinable_base(downloads@));
                }
            }
            let r = path_join(downloads.as_str(), "LLMModels");
            proof {
                if joinable_base(b@) {
                    let s1 = choose|s: Seq<char>| is_separator_text(s) && downloads@ == b@ + s + "Downloads"@;
                    let s2 = choose|s: Seq<char>| is_separator_text(s) && r@ == downloads@ + s + "LLMModels"@;
                    assert(r@ == b@ + s1 + "Downloads"@ + s2 + "LLMModels"@);
                }
            }
            r
        },
        None => owned("LLMModels"),
    }
}

/// State of a download.
#[derive(Clone, Copy, Debug, PartialEq, Eq, Structural)]
pub enum DownloadState {
    Downloading,
    Completed,
    Cancelled,
    Failed,
}

impl DownloadState {
    pub open spec fn spec_is_terminal(self) -> bool {
        !(self is Downloading)
    }

    /// A download in a terminal state never changes again.
    #[verifier::when_used_as_spec(spec_is_terminal)]
    pub fn is_terminal(self) -> (b: bool)
        ensures
            b == self.spec_is_terminal(),
    {
        match self {
            DownloadState::Downloading => false,
            _ => true,
        }
    }
}

/// State of a chat stream.
#[derive(Clone, Copy, Debug, PartialEq, Eq, Structural)]
pub enum ChatStreamState {
    Streaming,
    Completed,
    Cancelled,
    Failed,
}

impl ChatStreamState {
    pub open spec fn spec_is_terminal(self) -> bool {
        !(self is Streaming)
    }

    #[verifier::when_used_as_spec(spec_is_terminal)]
    pub fn is_terminal(self) -> (b: bool)
        ensures
            b == self.spec_is_terminal(),
    {
        match self {
            ChatStreamState::Streaming => false,
            _ => true,
        }
    }
}

/// Progress of a download as a fraction `numerator / denominator`.
///
/// The percentage shown to users is `numerator / denominator * 100`,
/// clamped to `0..=100`; `denominator` is never zero.
#[derive(Clone, Copy, Debug, PartialEq, Eq, Structural)]
pub struct PercentComplete {
    pub numerator: u64,
    pub denominator: u64,
}

impl PercentComplete {
    /// 0 %.
    pub fn zero() -> (p: PercentComplete)
        ensures
            p.numerator == 0 && p.denominator == 1,
    {
        PercentComplete { numerator: 0, denominator: 1 }
    }

    /// 100 %.
    pub fn full() -> (p: PercentComplete)
        ensures
            p.numerator == 1 && p.denominator == 1,
    {
        PercentComplete { numerator: 1, denominator: 1 }
    }
}

#[derive(Clone, Debug)]
pub struct HistoryEntry {
    pub id: String,
    pub role: String,
    pub content: String,
    pub timestamp: String,
}

#[derive(Clone, Copy, Debug, PartialEq, Eq, Structural)]
pub struct LlamaProcessStatus {
    pub running: bool,
    pub pid: Option<u32>,
    pub last_exit_code: Option<i32>,
}

#[derive(Clone, Debug)]
pub struct LlamaServerHealthStatus {
    pub healthy: bool,
    pub status_code: Option<u16>,
    pub message: Option<String>,
    pub url: String,
}

/// Status of one download, as reported to the user.
#[derive(Clone, Debug)]
pub struct DownloadStatus {
    pub download_id: String,
    pub source_url: String,
    pub destination_path: String,
    pub state: DownloadState,
    pub bytes_downloaded: u64,
    pub total_bytes: Option<u64>,
    pub percent_complete: Option<PercentComplete>,
    pub error: Option<String>,
}

/// The view of a `DownloadStatus`: its strings as character sequences.
pub struct DownloadStatusView {
    pub download_id: Seq<char>,
    pub source_url: Seq<char>,
    pub destination_path: Seq<char>,
    pub state: DownloadState,
    pub bytes_downloaded: u64,
    pub total_bytes: Option<u64>,
    pub percent_complete: Option<PercentComplete>,
    pub error: Option<Seq<char>>,
}

pub open spec fn opt_view(o: Option<String>) -> Option<Seq<char>> {
    match o {
        Some(s) => Some(s@),
        None => None,
    }
}

pub fn clone_opt_string(o: &Option<String>) -> (r: Option<String>)
    ensures
        opt_view(r) == opt_view(*o),
{
    match o {
        Some(s) => Some(s.clone()),
        None => None,
    }
}

impl View for DownloadStatus {
    type V = DownloadStatusView;

    open spec fn view(&self) -> DownloadStatusView {
        DownloadStatusView {
            download_id: self.download_id@,
            source_url: self.source_url@,
            destination_path: self.destination_path@,
            state: self.state,
            bytes_downloaded: self.bytes_downloaded,
            total_bytes: self.total_bytes,
            percent_complete: self.percent_complete,
            error: opt_view(self.error),
        }
    }
}

impl DownloadStatus {
    /// A copy of this status.
    pub fn duplicate(&self) -> (r: DownloadStatus)
        ensures
            r@ == self@,
    {
        DownloadStatus {
            download_id: self.download_id.clone(),
            source_url: self.source_url.clone(),
            destination_path: self.destination_path.clone(),
            state: self.state,
            bytes_downloaded: self.bytes_downloaded,
            total_bytes: self.total_bytes,
            percent_complete: self.percent_complete,
            error: clone_opt_string(&self.error),
        }
    }
}

#[derive(Clone, Debug)]
pub struct ChatMessage {
    pub role: String,
    pub content: String,
}

/// A request to stream a chat completion from `llama-server`.
#[derive(Clone, Debug)]
pub struct ChatStreamRequest {
    pub server_url: Option<String>,
    pub model: String,
    pub messages: Vec<ChatMessage>,
    pub max_tokens: Option<u32>,
    /// Bit pattern of the `f32` sampling temperature, if any.
    pub temperature_bits: Option<u32>,
}

/// Status of one chat stream, as reported to the user.
#[derive(Clone, Debug)]
pub struct ChatStreamStatus {
    pub stream_id: String,
    pub state: ChatStreamState,
    pub model: String,
    pub bytes_received: u64,
    pub error: Option<String>,
}

pub struct ChatStreamStatusView {
    pub stream_id: Seq<char>,
    pub state: ChatStreamState,
    pub model: Seq<char>,
    pub bytes_received: u64,
    pub error: Option<Seq<char>>,
}

impl View for ChatStreamStatus {
    type V = ChatStreamStatusView;

    open spec fn view(&self) -> ChatStreamStatusView {
        ChatStreamStatusView {
            stream_id: self.stream_id@,
            state: self.state,
            model: self.model@,
            bytes_received: self.bytes_received,
            error: opt_view(self.error),
        }
    }
}

impl ChatStreamStatus {
    /// A copy of this status.
    pub fn duplicate(&self) -> (r: ChatStreamStatus)
        ensures
            r@ == self@,
    {
        ChatStreamStatus {
            stream_id: self.stream_id.clone(),
            state: self.state,
            model: self.model.clone(),
            bytes_received: self.bytes_received,
            error: clone_opt_string(&self.error),
        }
    }
}

/// A notification about a chat stream, sent to the user interface.
#[derive(Clone, Debug)]
pub struct ChatStreamEvent {
    pub stream_id: String,
    pub event_type: String,
    pub data: Option<String>,
    pub state: ChatStreamState,
    pub error: Option<String>,
}

pub struct ChatStreamEventView {
    pub stream_id: Seq<char>,
    pub event_type: Seq<char>,
    pub data: Option<Seq<char>>,
    pub state: ChatStreamState,
    pub error: Option<Seq<char>>,
}

impl View for ChatStreamEvent {
    type V = ChatStreamEventView;

    open spec fn view(&self) -> ChatStreamEventView {
        ChatStreamEventView {
            stream_id: self.stream_id@,
            event_type: self.event_type@,
            data: opt_view(self.data),
            state: self.state,
            error: opt_view(self.error),
        }
    }
}

/// Where and how to download a resolved model reference.
#[derive(Clone, Debug)]
pub struct ResolvedModelDownload {
    pub download_url: String,
    pub suggested_file_name: String,
    /// HTTP headers to send with the download request, as name/value pairs.
    pub request_headers: Option<Vec<(String, String)>>,
}

pub struct ResolvedModelDownloadView {
    pub download_url: Seq<char>,
    pub suggested_file_name: Seq<char>,
    pub request_headers: Option<Seq<(Seq<char>, Seq<char>)>>,
}

pub open spec fn headers_view(h: Option<Vec<(String, String)>>) -> Option<
    Seq<(Seq<char>, Seq<char>)>,
> {
    match h {
        Some(v) => Some(v@.map_values(|p: (String, String)| (p.0@, p.1@))),
        None => None,
    }
}

impl View for ResolvedModelDownload {
    type V = ResolvedModelDownloadView;

    open spec fn view(&self) -> ResolvedModelDownloadView {
        ResolvedModelDownloadView {
            download_url: self.download_url@,
            suggested_file_name: self.suggested_file_name@,
            request_headers: headers_view(self.request_headers),
        }
    }
}

/// Application settings.
#[derive(Clone, Debug)]
pub struct Settings {
    pub llama_server_path: String,
    pub model_path: String,
    pub host: String,
    pub port: u16,
    pub context_size: u32,
    pub threads: u32,
    pub gpu_layers: u32,
    /// Bit pattern of the `f32` sampling temperature.
    pub temperature_bits: u32,
    pub max_tokens: u32,
    pub download_folder: String,
    pub recent_model_paths: Vec<String>,
    pub recent_server_paths: Vec<String>,
    pub recent_model_urls: Vec<String>,
}

impl Settings {
    /// The default settings, given the default thread count and download
    /// folder of this machine.
    pub fn with_defaults(threads: u32, download_folder: String) -> (s: Settings)
        ensures
            s.llama_server_path@ == Seq::<char>::empty(),
            s.model_path@ == Seq::<char>::empty(),
            s.host@ == "127.0.0.1"@,
            s.port == 8080,
            s.context_size == 4096,
            s.threads == threads,
            s.gpu_layers == 0,
            s.temperature_bits == DEFAULT_TEMPERATURE_BITS,
            s.max_tokens == 512,
            s.download_folder@ == download_folder@,
            s.recent_model_paths@.len() == 0,
            s.recent_server_paths@.len() == 0,
            s.recent_model_urls@.len() == 0,
    {
        Settings {
            llama_server_path: String::new(),
            model_path: String::new(),
            host: default_host(),
            port: default_port(),
            context_size: default_context_size(),
            threads,
            gpu_layers: 0,
            temperature_bits: DEFAULT_TEMPERATURE_BITS,
            max_tokens: default_max_tokens(),
            download_folder,
            recent_model_paths: Vec::new(),
            recent_server_paths: Vec::new(),
            recent_model_urls: Vec::new(),
        }
    }
}

/// A named set of server parameters.
#[derive(Clone, Debug)]
pub struct Preset {
    pub id: String,
    pub name: String,
    pub model_path: String,
    pub host: String,
    pub port: u16,
    pub context_size: u32,
    pub threads: u32,
    pub gpu_layers: u32,
    /// Bit pattern of the `f32` sampling temperature.
    pub temperature_bits: u32,
    pub max_tokens: u32,
}

} // verus!
