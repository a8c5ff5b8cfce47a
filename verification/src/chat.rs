//! Chat streams: the table of streams and their statuses, the validation of
//! chat requests, and the decisions of the worker that reads a stream.

use vstd::prelude::*;
use vstd::string::StringExecFns;
use crate::failure::{ChatFailureKind, FailureKind};
use crate::health::{is_success_status, status_display, status_text};
use crate::models::ChatStreamEvent;
use crate::models::ChatStreamEventView;
use crate::models::{ChatMessage, ChatStreamRequest, ChatStreamState, ChatStreamStatus, ChatStreamStatusView, opt_view};
use crate::order::{index_of_id, lemma_index_of_id, lemma_index_of_sorted, lemma_sorted_ids_unique, lemma_prefixed_decimal_injective, lemma_sorted_insert, sorted_ids};
use crate::records::{is_chat_role, trimmed_role_is_valid};
use crate::text::{cap_u64, chars_of, decimal, decimal_string, owned, seq_lt, starts_with, starts_with_chars, str_lt, string_of, strip_prefix, strip_prefix_chars, trim, trim_chars, trim_end_char, trim_end_char_exec, utf8_len, utf8_len_exec};

verus! {

/// A chat stream and whether its cancellation was requested.
pub struct ChatStreamRecord {
    pub status: ChatStreamStatus,
    pub cancel_requested: bool,
}

pub struct ChatStreamRecordView {
    pub status: ChatStreamStatusView,
    pub cancel_requested: bool,
}

impl View for ChatStreamRecord {
    type V = ChatStreamRecordView;

    open spec fn view(&self) -> ChatStreamRecordView {
        ChatStreamRecordView { status: self.status@, cancel_requested: self.cancel_requested }
    }
}

/// The chat streams started so far, kept in the order of their ids, and the
/// counter from which the next id is made.
pub struct ChatService {
    next_stream_id: u64,
    streams: Vec<ChatStreamRecord>,
}

pub struct ChatServiceView {
    pub next_stream_id: u64,
    pub streams: Seq<ChatStreamRecordView>,
}

impl View for ChatService {
    type V = ChatServiceView;

    closed spec fn view(&self) -> ChatServiceView {
        ChatServiceView {
            next_stream_id: self.next_stream_id,
            streams: self.streams@.map_values(|r: ChatStreamRecord| r@),
        }
    }
}

/// The id given to the `n`-th stream.
pub open spec fn stream_id_for(n: nat) -> Seq<char> {
    "stream-"@ + decimal(n)
}

/// The ids of the streams, in order.
pub open spec fn stream_ids(s: Seq<ChatStreamRecordView>) -> Seq<Seq<char>> {
    s.map_values(|r: ChatStreamRecordView| r.status.stream_id)
}

/// Index of the stream with id `id`, if any.
pub open spec fn stream_index(v: ChatServiceView, id: Seq<char>) -> Option<int> {
    index_of_id(stream_ids(v.streams), id)
}

/// The table after `set_state`: the stream with `id`, if any, gets the
/// given state, error and byte count; nothing else changes.
pub open spec fn with_state(
    v: ChatServiceView,
    id: Seq<char>,
    state: ChatStreamState,
    error: Option<Seq<char>>,
    bytes: u64,
) -> ChatServiceView {
    match stream_index(v, id) {
        Some(i) => ChatServiceView {
            next_stream_id: v.next_stream_id,
            streams: v.streams.update(
                i,
                ChatStreamRecordView {
                    status: ChatStreamStatusView {
                        state,
                        error,
                        bytes_received: bytes,
                        ..v.streams[i].status
                    },
                    ..v.streams[i]
                },
            ),
        },
        None => v,
    }
}

/// How `Debug` writes a stream state.
pub open spec fn chat_state_name(s: ChatStreamState) -> Seq<char> {
    match s {
        ChatStreamState::Streaming => "Streaming"@,
        ChatStreamState::Completed => "Completed"@,
        ChatStreamState::Cancelled => "Cancelled"@,
        ChatStreamState::Failed => "Failed"@,
    }
}

fn chat_state_name_exec(s: ChatStreamState) -> (r: String)
    ensures
        r@ == chat_state_name(s),
{
    match s {
        ChatStreamState::Streaming => owned("Streaming"),
        ChatStreamState::Completed => owned("Completed"),
        ChatStreamState::Cancelled => owned("Cancelled"),
        ChatStreamState::Failed => owned("Failed"),
    }
}

/// The first message that breaks a rule, from index `i` on, as the error
/// reported for it.
pub open spec fn messages_error_from(ms: Seq<ChatMessage>, i: int) -> Option<Seq<char>>
    decreases ms.len() - i,
{
    if i < 0 || i >= ms.len() {
        None
    } else if !is_chat_role(trim(ms[i].role@)) {
        Some("message.role must be one of: system, user, assistant"@)
    } else if trim(ms[i].content@).len() == 0 {
        Some("message.content cannot be empty"@)
    } else {
        messages_error_from(ms, i + 1)
    }
}

pub open spec fn messages_error(ms: Seq<ChatMessage>) -> Option<Seq<char>> {
    messages_error_from(ms, 0)
}

/// Checks each message in turn: its role, trimmed, must be `system`, `user`
/// or `assistant`, and its content must not be blank.
pub fn validate_messages(messages: &[ChatMessage]) -> (r: Result<(), String>)
    ensures
        match r {
            Ok(()) => messages_error(messages@) is None,
            Err(e) => messages_error(messages@) == Some(e@),
        },
{
    let mut i: usize = 0;
    while i < messages.len()
        invariant
            0 <= i <= messages@.len(),
            messages_error(messages@) == messages_error_from(messages@, i as int),
        decreases messages@.len() - i,
    {
        let msg = &messages[i];
        if !trimmed_role_is_valid(msg.role.as_str()) {
            return Err(owned("message.role must be one of: system, user, assistant"));
        }
        let content = chars_of(msg.content.as_str());
        let t = trim_chars(content.as_slice());
        if t.len() == 0 {
            return Err(owned("message.content cannot be empty"));
        }
        i = i + 1;
    }
    Ok(())
}

/// The error for an id that names no stream.
pub open spec fn unknown_stream_text(id: Seq<char>) -> Seq<char> {
    "unknown stream_id: "@ + id
}

fn unknown_stream(id: &str) -> (r: String)
    ensures
        r@ == unknown_stream_text(id@),
{
    let mut e = owned("unknown stream_id: ");
    e.append(id);
    e
}

/// Why a request cannot start a stream, if it cannot.
pub open spec fn start_error(req: ChatStreamRequest) -> Option<Seq<char>> {
    if trim(req.model@).len() == 0 {
        Some("model cannot be empty"@)
    } else if req.messages@.len() == 0 {
        Some("messages cannot be empty"@)
    } else {
        messages_error(req.messages@)
    }
}

/// In every state of the table, stream ids are unique and in increasing
/// order, so each id names at most one stream.
pub proof fn law_stream_ids_unique(svc: &ChatService)
    requires
        svc.wf(),
    ensures
        sorted_ids(stream_ids(svc@.streams)),
        forall|i: int, j: int|
            0 <= i < j < svc@.streams.len() ==> svc@.streams[i].status.stream_id
                != svc@.streams[j].status.stream_id,
{
    let ids = stream_ids(svc@.streams);
    assert forall|i: int, j: int|
        0 <= i < j < svc@.streams.len() implies svc@.streams[i].status.stream_id
            != svc@.streams[j].status.stream_id by {
        assert(ids[i] == svc@.streams[i].status.stream_id);
        assert(ids[j] == svc@.streams[j].status.stream_id);
        if ids[i] == ids[j] {
            lemma_sorted_ids_unique(ids, i, j);
        }
    }
}

/// The status of a stream that has just started.
pub open spec fn started_status(id: Seq<char>, model: Seq<char>) -> ChatStreamStatusView {
    ChatStreamStatusView {
        stream_id: id,
        state: ChatStreamState::Streaming,
        model,
        bytes_received: 0,
        error: None,
    }
}

impl ChatService {
    /// The table is sorted by id, and every id was made from a counter value
    /// below the next one.
    pub closed spec fn wf(&self) -> bool {
        let ids = stream_ids(self@.streams);
        &&& self.next_stream_id >= 1
        &&& sorted_ids(ids)
        &&& forall|i: int| 0 <= i < ids.len() ==> exists|k: nat|
            1 <= k < self.next_stream_id && #[trigger] ids[i] == stream_id_for(k)
    }

    /// A table with no streams, whose first id will be `stream-1`.
    pub fn new() -> (s: ChatService)
        ensures
            s.wf(),
            s@.next_stream_id == 1,
            s@.streams.len() == 0,
    {
        let s = ChatService { next_stream_id: 1, streams: Vec::new() };
        assert(s@.streams =~= Seq::<ChatStreamRecordView>::empty());
        s
    }

    proof fn lemma_view_index(&self, i: int)
        requires
            0 <= i < self.streams@.len(),
        ensures
            self@.streams[i] == self.streams@[i]@,
            stream_ids(self@.streams)[i] == self.streams@[i].status.stream_id@,
            stream_ids(self@.streams).len() == self.streams@.len(),
            self@.streams.len() == self.streams@.len(),
    {
    }

    /// Index of the stream with id `id`.
    fn lookup(&self, id: &String) -> (r: Option<usize>)
        ensures
            match r {
                Some(i) => i < self.streams@.len() && stream_index(self@, id@) == Some(i as int),
                None => stream_index(self@, id@) is None,
            },
    {
        let ghost ids = stream_ids(self@.streams);
        proof {
            lemma_index_of_id(ids, id@);
        }
        let mut i: usize = 0;
        while i < self.streams.len()
            invariant
                ids == stream_ids(self@.streams),
                ids.len() == self.streams@.len(),
                0 <= i <= self.streams@.len(),
                forall|j: int| 0 <= j < i ==> ids[j] != id@,
                match index_of_id(ids, id@) {
                    Some(k) => 0 <= k < ids.len() && ids[k] == id@ && forall|j: int|
                        0 <= j < k ==> ids[j] != id@,
                    None => forall|j: int| 0 <= j < ids.len() ==> ids[j] != id@,
                },
            decreases self.streams@.len() - i,
        {
            proof {
                self.lemma_view_index(i as int);
            }
            if self.streams[i].status.stream_id == *id {
                return Some(i);
            }
            i = i + 1;
        }
        None
    }

    /// The status of the stream with id `stream_id`.
    pub fn get_stream_status(&self, stream_id: &str) -> (r: Result<ChatStreamStatus, String>)
        ensures
            match stream_index(self@, stream_id@) {
                Some(i) => r matches Ok(s) && s@ == self@.streams[i].status,
                None => r matches Err(e) && e@ == unknown_stream_text(stream_id@),
            },
    {
        let id = owned(stream_id);
        match self.lookup(&id) {
            Some(i) => {
                proof {
                    self.lemma_view_index(i as int);
                }
                Ok(self.streams[i].status.duplicate())
            },
            None => Err(unknown_stream(stream_id)),
        }
    }

    /// The statuses of all streams, in the order of their ids.
    pub fn get_stream_statuses(&self) -> (r: Vec<ChatStreamStatus>)
        requires
            self.wf(),
        ensures
            r@.len() == self@.streams.len(),
            forall|i: int| 0 <= i < r@.len() ==> #[trigger] r@[i]@ == self@.streams[i].status,
            forall|i: int, j: int|
                0 <= i < j < r@.len() ==> seq_lt(#[trigger] r@[i].stream_id@, #[trigger] r@[j].stream_id@),
    {
        let mut r: Vec<ChatStreamStatus> = Vec::new();
        let mut i: usize = 0;
        while i < self.streams.len()
            invariant
                self.wf(),
                0 <= i <= self.streams@.len(),
                r@.len() == i,
                forall|j: int| 0 <= j < i ==> #[trigger] r@[j]@ == self@.streams[j].status,
            decreases self.streams@.len() - i,
        {
            proof {
                self.lemma_view_index(i as int);
            }
            r.push(self.streams[i].status.duplicate());
            i = i + 1;
        }
        proof {
            let ids = stream_ids(self@.streams);
            assert forall|a: int, b: int|
                0 <= a < b < r@.len() implies seq_lt(#[trigger] r@[a].stream_id@, #[trigger] r@[b].stream_id@) by {
                assert(r@[a]@ == self@.streams[a].status);
                assert(r@[b]@ == self@.streams[b].status);
                assert(r@[a].stream_id@ == ids[a]);
                assert(r@[b].stream_id@ == ids[b]);
            }
        }
        r
    }

    /// Whether the cancellation of the stream with id `stream_id` was
    /// requested (false when there is no such stream).
    pub fn is_cancel_requested(&self, stream_id: &str) -> (b: bool)
        ensures
            b == (stream_index(self@, stream_id@) matches Some(i) && self@.streams[i].cancel_requested),
    {
        let id = owned(stream_id);
        match self.lookup(&id) {
            Some(i) => {
                proof {
                    self.lemma_view_index(i as int);
                }
                self.streams[i].cancel_requested
            },
            None => false,
        }
    }

    /// Records the state, error and byte count of a stream; an unknown id
    /// leaves the table as it is.
    pub fn set_state(
        &mut self,
        stream_id: &str,
        state: ChatStreamState,
        error: Option<String>,
        bytes_received: u64,
    )
        requires
            old(self).wf(),
        ensures
            final(self).wf(),
            final(self)@ == with_state(old(self)@, stream_id@, state, opt_view(error), bytes_received),
    {
        let id = owned(stream_id);
        match self.lookup(&id) {
            Some(i) => {
                let ghost before = self@;
                proof {
                    self.lemma_view_index(i as int);
                }
                let mut rec = self.streams.remove(i);
                rec.status.state = state;
                rec.status.error = error;
                rec.status.bytes_received = bytes_received;
                self.streams.insert(i, rec);
                proof {
                    let after = with_state(before, stream_id@, state, opt_view(error), bytes_received);
                    assert(self@.streams =~= after.streams);
                    assert(stream_ids(self@.streams) =~= stream_ids(before.streams));
                }
            },
            None => {},
        }
    }

    /// Registers a new stream for `request` and returns its initial status.
    ///
    /// The model must not be blank, there must be messages, and each must
    /// pass `validate_messages`. The stream gets the id `stream-<n>` from the
    /// counter, which then advances; when the counter cannot advance the
    /// request is refused. A refused request leaves the table as it is.
    pub fn start_stream(&mut self, request: &ChatStreamRequest) -> (r: Result<ChatStreamStatus, String>)
        requires
            old(self).wf(),
        ensures
            final(self).wf(),
            match start_error(*request) {
                Some(msg) => r matches Err(e) && e@ == msg && final(self)@ == old(self)@,
                None => if old(self)@.next_stream_id == u64::MAX {
                    r matches Err(e) && e@ == "stream id counter overflowed"@ && final(self)@ == old(self)@
                } else {
                    let id = stream_id_for(old(self)@.next_stream_id as nat);
                    let st = started_status(id, trim(request.model@));
                    &&& r matches Ok(s)
                    &&& s@ == st
                    &&& stream_index(old(self)@, id) is None
                    &&& final(self)@.next_stream_id == old(self)@.next_stream_id + 1
                    &&& exists|p: int| 0 <= p <= old(self)@.streams.len()
                        && final(self)@.streams == old(self)@.streams.insert(
                        p,
                        ChatStreamRecordView { status: st, cancel_requested: false },
                    )
                    &&& stream_index(final(self)@, id) matches Some(q) && final(self)@.streams[q].status == st
                        && !final(self)@.streams[q].cancel_requested
                },
            },
    {
        let model_chars = chars_of(request.model.as_str());
        let model_trim = trim_chars(model_chars.as_slice());
        if model_trim.len() == 0 {
            return Err(owned("model cannot be empty"));
        }
        if request.messages.len() == 0 {
            return Err(owned("messages cannot be empty"));
        }
        match validate_messages(request.messages.as_slice()) {
            Err(e) => {
                return Err(e);
            },
            Ok(()) => {},
        }
        let mut id = owned("stream-");
        let n = decimal_string(self.next_stream_id);
        id.append(n.as_str());
        let next = match self.next_stream_id.checked_add(1) {
            Some(v) => v,
            None => {
                return Err(owned("stream id counter overflowed"));
            },
        };
        let model = crate::text::string_of(model_trim.as_slice());
        let ghost before = self@;
        let ghost ids = stream_ids(before.streams);
        let ghost x = id@;
        proof {
            assert(x == stream_id_for(before.next_stream_id as nat));
            assert forall|j: int| 0 <= j < ids.len() implies ids[j] != x by {
                let k = choose|k: nat| 1 <= k < self.next_stream_id && #[trigger] ids[j] == stream_id_for(k);
                if ids[j] == x {
                    lemma_prefixed_decimal_injective("stream-"@, k, self.next_stream_id as nat);
                }
            }
            lemma_index_of_id(ids, x);
        }
        let mut p: usize = 0;
        while p < self.streams.len() && !str_lt(id.as_str(), self.streams[p].status.stream_id.as_str())
            invariant
                self@ == before,
                ids == stream_ids(before.streams),
                ids.len() == self.streams@.len(),
                id@ == x,
                0 <= p <= self.streams@.len(),
                forall|j: int| 0 <= j < p ==> !seq_lt(x, #[trigger] ids[j]),
            decreases self.streams@.len() - p,
        {
            proof {
                self.lemma_view_index(p as int);
            }
            p = p + 1;
        }
        proof {
            if p < self.streams@.len() {
                self.lemma_view_index(p as int);
            }
            lemma_sorted_insert(ids, x, p as int);
        }
        let status = ChatStreamStatus {
            stream_id: id,
            state: ChatStreamState::Streaming,
            model,
            bytes_received: 0,
            error: None,
        };
        let out = status.duplicate();
        self.streams.insert(p, ChatStreamRecord { status, cancel_requested: false });
        self.next_stream_id = next;
        proof {
            let rec = ChatStreamRecordView { status: out@, cancel_requested: false };
            assert(self@.streams =~= before.streams.insert(p as int, rec));
            assert(stream_ids(self@.streams) =~= ids.insert(p as int, x));
            let nids = stream_ids(self@.streams);
            assert forall|i: int| 0 <= i < nids.len() implies exists|k: nat|
                1 <= k < self.next_stream_id && #[trigger] nids[i] == stream_id_for(k) by {
                if i < p {
                    assert(nids[i] == ids[i]);
                    let k = choose|k: nat| 1 <= k < before.next_stream_id && #[trigger] ids[i] == stream_id_for(k);
                } else if i == p {
                    assert(nids[i] == stream_id_for(before.next_stream_id as nat));
                } else {
                    assert(nids[i] == ids[i - 1]);
                    let k = choose|k: nat| 1 <= k < before.next_stream_id && #[trigger] ids[i - 1] == stream_id_for(k);
                }
            }
            lemma_index_of_sorted(nids, p as int);
        }
        Ok(out)
    }

    /// Requests the cancellation of an active stream and returns its status.
    /// Unknown ids and streams already in a terminal state are refused, and
    /// the table is then left as it is.
    pub fn cancel_stream(&mut self, stream_id: &str) -> (r: Result<ChatStreamStatus, String>)
        requires
            old(self).wf(),
        ensures
            final(self).wf(),
            match stream_index(old(self)@, stream_id@) {
                None => r matches Err(e) && e@ == unknown_stream_text(stream_id@) && final(self)@ == old(self)@,
                Some(i) => if old(self)@.streams[i].status.state.is_terminal() {
                    &&& r matches Err(e)
                    &&& e@ == "stream "@ + stream_id@ + " is already in state "@ + chat_state_name(old(self)@.streams[i].status.state)
                    &&& final(self)@ == old(self)@
                } else {
                    &&& r matches Ok(s)
                    &&& s@ == old(self)@.streams[i].status
                    &&& final(self)@.next_stream_id == old(self)@.next_stream_id
                    &&& final(self)@.streams == old(self)@.streams.update(
                        i,
                        ChatStreamRecordView { cancel_requested: true, ..old(self)@.streams[i] },
                    )
                },
            },
    {
        let id = owned(stream_id);
        match self.lookup(&id) {
            None => Err(unknown_stream(stream_id)),
            Some(i) => {
                proof {
                    self.lemma_view_index(i as int);
                }
                let state = self.streams[i].status.state;
                if state.is_terminal() {
                    let mut e = owned("stream ");
                    e.append(stream_id);
                    e.append(" is already in state ");
                    let name = chat_state_name_exec(state);
                    e.append(name.as_str());
                    return Err(e);
                }
                let ghost before = self@;
                let mut rec = self.streams.remove(i);
                rec.cancel_requested = true;
                let status = rec.status.duplicate();
                self.streams.insert(i, rec);
                proof {
                    assert(self@.streams =~= before.streams.update(
                        i as int,
                        ChatStreamRecordView { cancel_requested: true, ..before.streams[i as int] },
                    ));
                    assert(stream_ids(self@.streams) =~= stream_ids(before.streams));
                }
                Ok(status)
            },
        }
    }
}


/// The message of a failed stream.
pub open spec fn chat_failure_text(endpoint: Seq<char>, kind: FailureKind, error: Seq<char>) -> Seq<char> {
    match kind {
        FailureKind::Timeout => "chat stream at "@ + endpoint + " timed out: "@ + error,
        FailureKind::Unavailable => "chat stream at "@ + endpoint + " is unavailable: "@ + error,
        FailureKind::Other => "chat stream at "@ + endpoint + " failed: "@ + error,
    }
}

pub fn chat_failure_message(endpoint: &str, kind: ChatFailureKind, error: &str) -> (r: String)
    ensures
        r@ == chat_failure_text(endpoint@, kind, error@),
{
    let mut s = owned("chat stream at ");
    s.append(endpoint);
    match kind {
        FailureKind::Timeout => s.append(" timed out: "),
        FailureKind::Unavailable => s.append(" is unavailable: "),
        FailureKind::Other => s.append(" failed: "),
    }
    s.append(error);
    s
}

/// The server asked when a request names none.
pub open spec fn default_server_url() -> Seq<char> {
    "http://127.0.0.1:8080"@
}

/// The completions endpoint of a server.
pub open spec fn completions_endpoint(server_url: Seq<char>) -> Seq<char> {
    trim_end_char(server_url, '/') + "/v1/chat/completions"@
}

/// Whether a URL names an HTTP or HTTPS resource.
pub open spec fn is_http_url(u: Seq<char>) -> bool {
    starts_with(u, "http://"@) || starts_with(u, "https://"@)
}

pub fn is_http_url_exec(u: &str) -> (b: bool)
    ensures
        b == is_http_url(u@),
{
    let v = chars_of(u);
    let http = chars_of("http://");
    let https = chars_of("https://");
    starts_with_chars(v.as_slice(), http.as_slice()) || starts_with_chars(v.as_slice(), https.as_slice())
}

/// The event sent to the user interface about a stream.
pub open spec fn chat_event(
    id: Seq<char>,
    event_type: Seq<char>,
    data: Option<Seq<char>>,
    state: ChatStreamState,
    error: Option<Seq<char>>,
) -> ChatStreamEventView {
    ChatStreamEventView { stream_id: id, event_type, data, state, error }
}

/// Total UTF-8 length of a sequence of chunks.
pub open spec fn total_utf8(cs: Seq<Seq<char>>) -> nat
    decreases cs.len(),
{
    if cs.len() == 0 {
        0
    } else {
        total_utf8(cs.drop_last()) + utf8_len(cs.last())
    }
}

/// What the worker of a chat stream does next.
pub enum ChatNext {
    /// Build an HTTP client and POST the request to this endpoint.
    Connect(String),
    /// Read the next line of the response body.
    ReadLine,
    /// The stream is over.
    Stop,
}

/// How the connection attempt went.
pub enum ConnectOutcome {
    /// The HTTP client could not be built; the error as displayed.
    ClientFailed(String),
    /// The request could not be sent.
    SendFailed { kind: FailureKind, error: String },
    /// The server answered with this status code.
    Responded { status: u16 },
}

/// The result of reading one line of the response body.
pub enum LineOutcome {
    Line(String),
    ReadFailed { kind: FailureKind, error: String },
    EndOfStream,
}

#[derive(Clone, Copy, Debug, PartialEq, Eq, Structural)]
pub enum ChatStage {
    Connecting,
    Reading,
    Finished,
}

/// The worker that streams one chat completion.
pub struct ChatStreamWorker {
    pub stream_id: String,
    pub endpoint: String,
    pub bytes_received: u64,
    pub stage: ChatStage,
    /// The chunks delivered so far.
    pub chunks: Ghost<Seq<Seq<char>>>,
}

/// What one step of the worker produced: an event to send, if any, and the
/// next thing to do.
pub struct ChatStep {
    pub event: Option<ChatStreamEvent>,
    pub next: ChatNext,
}

/// `svc` is `before` after `set_state(id, state, error, bytes)`.
pub open spec fn recorded(
    before: ChatServiceView,
    svc: ChatServiceView,
    id: Seq<char>,
    state: ChatStreamState,
    error: Option<Seq<char>>,
    bytes: u64,
) -> bool {
    svc == with_state(before, id, state, error, bytes)
}

/// The step ends the stream with `state`, recorded with `bytes`, and sends
/// the matching event.
pub open spec fn ends_with(
    w: ChatStreamWorker,
    step: ChatStep,
    before: ChatServiceView,
    svc: ChatServiceView,
    state: ChatStreamState,
    event_type: Seq<char>,
    bytes: u64,
) -> bool {
    &&& w.stage == ChatStage::Finished
    &&& step.next is Stop
    &&& recorded(before, svc, w.stream_id@, state, None, bytes)
    &&& step.event matches Some(e) && e@ == chat_event(w.stream_id@, event_type, None, state, None)
}

/// The step fails the stream: the failure message is recorded with zero
/// bytes and sent as an error event.
pub open spec fn fails_with(
    w: ChatStreamWorker,
    step: ChatStep,
    before: ChatServiceView,
    svc: ChatServiceView,
    kind: FailureKind,
    error: Seq<char>,
) -> bool {
    let msg = chat_failure_text(w.endpoint@, kind, error);
    &&& w.stage == ChatStage::Finished
    &&& step.next is Stop
    &&& recorded(before, svc, w.stream_id@, ChatStreamState::Failed, Some(msg), 0)
    &&& step.event matches Some(e) && e@ == chat_event(w.stream_id@, "error"@, None, ChatStreamState::Failed, Some(msg))
}

impl ChatStreamWorker {
    /// `bytes_received` counts the UTF-8 bytes of the chunks delivered,
    /// saturating at `u64::MAX`.
    pub open spec fn wf(&self) -> bool {
        self.bytes_received == cap_u64(total_utf8(self.chunks@) as int)
    }

    fn fail(
        &mut self,
        svc: &mut ChatService,
        kind: FailureKind,
        error: &str,
    ) -> (step: ChatStep)
        requires
            old(svc).wf(),
        ensures
            final(svc).wf(),
            fails_with(*final(self), step, old(svc)@, final(svc)@, kind, error@),
            final(self).stream_id@ == old(self).stream_id@,
            final(self).endpoint@ == old(self).endpoint@,
            final(self).bytes_received == old(self).bytes_received,
            final(self).chunks@ == old(self).chunks@,
    {
        let msg = chat_failure_message(self.endpoint.as_str(), kind, error);
        svc.set_state(self.stream_id.as_str(), ChatStreamState::Failed, Some(msg.clone()), 0);
        self.stage = ChatStage::Finished;
        ChatStep {
            event: Some(
                ChatStreamEvent {
                    stream_id: self.stream_id.clone(),
                    event_type: owned("error"),
                    data: None,
                    state: ChatStreamState::Failed,
                    error: Some(msg),
                },
            ),
            next: ChatNext::Stop,
        }
    }

    fn end(&mut self, svc: &mut ChatService, state: ChatStreamState, event_type: &str) -> (step: ChatStep)
        requires
            old(svc).wf(),
        ensures
            final(svc).wf(),
            ends_with(*final(self), step, old(svc)@, final(svc)@, state, event_type@, old(self).bytes_received),
            final(self).stream_id@ == old(self).stream_id@,
            final(self).endpoint@ == old(self).endpoint@,
            final(self).bytes_received == old(self).bytes_received,
            final(self).chunks@ == old(self).chunks@,
    {
        svc.set_state(self.stream_id.as_str(), state, None, self.bytes_received);
        self.stage = ChatStage::Finished;
        ChatStep {
            event: Some(
                ChatStreamEvent {
                    stream_id: self.stream_id.clone(),
                    event_type: owned(event_type),
                    data: None,
                    state,
                    error: None,
                },
            ),
            next: ChatNext::Stop,
        }
    }

    /// Starts the worker of stream `stream_id`. A server URL that is not
    /// HTTP(S) fails the stream at once; otherwise a `started` event is sent
    /// and the worker connects to the completions endpoint.
    pub fn begin(svc: &mut ChatService, stream_id: String, server_url: Option<String>) -> (r: (
        ChatStreamWorker,
        ChatStep,
    ))
        requires
            old(svc).wf(),
        ensures
            final(svc).wf(),
            r.0.wf(),
            r.0.stream_id@ == stream_id@,
            r.0.bytes_received == 0,
            ({
                let url = match server_url {
                    Some(u) => u@,
                    None => default_server_url(),
                };
                if is_http_url(url) {
                    &&& final(svc)@ == old(svc)@
                    &&& r.0.stage == ChatStage::Connecting
                    &&& r.0.endpoint@ == completions_endpoint(url)
                    &&& r.1.next matches ChatNext::Connect(ep) && ep@ == completions_endpoint(url)
                    &&& r.1.event matches Some(e) && e@ == chat_event(
                        stream_id@,
                        "started"@,
                        None,
                        ChatStreamState::Streaming,
                        None,
                    )
                } else {
                    &&& r.0.endpoint@ == url
                    &&& fails_with(r.0, r.1, old(svc)@, final(svc)@, FailureKind::Other,
                        "server_url must start with http:// or https://"@)
                }
            }),
    {
        let url = match server_url {
            Some(u) => u,
            None => owned("http://127.0.0.1:8080"),
        };
        if !is_http_url_exec(url.as_str()) {
            let mut w = ChatStreamWorker {
                stream_id,
                endpoint: url,
                bytes_received: 0,
                stage: ChatStage::Connecting,
                chunks: Ghost(Seq::empty()),
            };
            let step = w.fail(svc, FailureKind::Other, "server_url must start with http:// or https://");
            return (w, step);
        }
        let v = chars_of(url.as_str());
        let base = trim_end_char_exec(v.as_slice(), '/');
        let mut endpoint = string_of(base.as_slice());
        endpoint.append("/v1/chat/completions");
        let event = ChatStreamEvent {
            stream_id: stream_id.clone(),
            event_type: owned("started"),
            data: None,
            state: ChatStreamState::Streaming,
            error: None,
        };
        let next = ChatNext::Connect(endpoint.clone());
        (
            ChatStreamWorker {
                stream_id,
                endpoint,
                bytes_received: 0,
                stage: ChatStage::Connecting,
                chunks: Ghost(Seq::empty()),
            },
            ChatStep { event: Some(event), next },
        )
    }

    /// Handles the outcome of connecting. A client or send failure fails
    /// the stream with its category; a status outside `200..300` fails it
    /// as `Other`; a success status starts reading lines.
    pub fn on_connect(&mut self, svc: &mut ChatService, outcome: ConnectOutcome) -> (step: ChatStep)
        requires
            old(svc).wf(),
            old(self).wf(),
            old(self).stage == ChatStage::Connecting,
            outcome matches ConnectOutcome::Responded { status } ==> 100 <= status <= 999,
        ensures
            final(svc).wf(),
            final(self).wf(),
            final(self).stream_id@ == old(self).stream_id@,
            final(self).endpoint@ == old(self).endpoint@,
            final(self).bytes_received == old(self).bytes_received,
            match outcome {
                ConnectOutcome::ClientFailed(e) => fails_with(*final(self), step, old(svc)@, final(svc)@,
                    FailureKind::Other, "failed to build HTTP client: "@ + e@),
                ConnectOutcome::SendFailed { kind, error } => fails_with(*final(self), step, old(svc)@,
                    final(svc)@, kind, error@),
                ConnectOutcome::Responded { status } => if is_success_status(status) {
                    &&& final(svc)@ == old(svc)@
                    &&& final(self).stage == ChatStage::Reading
                    &&& step.event is None
                    &&& step.next is ReadLine
                } else {
                    fails_with(*final(self), step, old(svc)@, final(svc)@, FailureKind::Other,
                        "chat stream request failed with HTTP status "@ + status_text(status))
                },
            },
    {
        match outcome {
            ConnectOutcome::ClientFailed(e) => {
                let mut msg = owned("failed to build HTTP client: ");
                msg.append(e.as_str());
                self.fail(svc, FailureKind::Other, msg.as_str())
            },
            ConnectOutcome::SendFailed { kind, error } => self.fail(svc, kind, error.as_str()),
            ConnectOutcome::Responded { status } => {
                if 200 <= status && status < 300 {
                    self.stage = ChatStage::Reading;
                    ChatStep { event: None, next: ChatNext::ReadLine }
                } else {
                    let mut msg = owned("chat stream request failed with HTTP status ");
                    let st = status_display(status);
                    msg.append(st.as_str());
                    self.fail(svc, FailureKind::Other, msg.as_str())
                }
            },
        }
    }

    /// Handles one line of the response, a read error, or the end of the
    /// body.
    ///
    /// Before a line or an error is looked at, a requested cancellation
    /// ends the stream as cancelled. Blank lines are skipped. A `data: `
    /// prefix is removed; `[DONE]` completes the stream; any other chunk is
    /// counted, recorded and sent. A read error fails the stream with its
    /// category, and the end of the body completes it.
    pub fn on_line(&mut self, svc: &mut ChatService, outcome: LineOutcome) -> (step: ChatStep)
        requires
            old(svc).wf(),
            old(self).wf(),
            old(self).stage == ChatStage::Reading,
        ensures
            final(svc).wf(),
            final(self).wf(),
            final(self).stream_id@ == old(self).stream_id@,
            final(self).endpoint@ == old(self).endpoint@,
            final(self).bytes_received >= old(self).bytes_received,
            ({
                let id = old(self).stream_id@;
                let cancelled = stream_index(old(svc)@, id) matches Some(i)
                    && old(svc)@.streams[i].cancel_requested;
                match outcome {
                    LineOutcome::EndOfStream => ends_with(*final(self), step, old(svc)@, final(svc)@,
                        ChatStreamState::Completed, "completed"@, old(self).bytes_received),
                    LineOutcome::ReadFailed { kind, error } => if cancelled {
                        ends_with(*final(self), step, old(svc)@, final(svc)@, ChatStreamState::Cancelled,
                            "cancelled"@, old(self).bytes_received)
                    } else {
                        fails_with(*final(self), step, old(svc)@, final(svc)@, kind, error@)
                    },
                    LineOutcome::Line(line) => if cancelled {
                        ends_with(*final(self), step, old(svc)@, final(svc)@, ChatStreamState::Cancelled,
                            "cancelled"@, old(self).bytes_received)
                    } else if trim(line@).len() == 0 {
                        &&& final(svc)@ == old(svc)@
                        &&& final(self).stage == ChatStage::Reading
                        &&& final(self).bytes_received == old(self).bytes_received
                        &&& step.event is None
                        &&& step.next is ReadLine
                    } else {
                        let chunk = match strip_prefix(line@, "data: "@) {
                            Some(rest) => rest,
                            None => line@,
                        };
                        if chunk == "[DONE]"@ {
                            ends_with(*final(self), step, old(svc)@, final(svc)@, ChatStreamState::Completed,
                                "completed"@, old(self).bytes_received)
                        } else {
                            let bytes = cap_u64(old(self).bytes_received + utf8_len(chunk));
                            &&& final(self).stage == ChatStage::Reading
                            &&& final(self).bytes_received == bytes
                            &&& final(self).chunks@ == old(self).chunks@.push(chunk)
                            &&& recorded(old(svc)@, final(svc)@, id, ChatStreamState::Streaming, None, bytes)
                            &&& step.next is ReadLine
                            &&& step.event matches Some(e) && e@ == chat_event(id, "chunk"@, Some(chunk),
                                ChatStreamState::Streaming, None)
                        }
                    },
                }
            }),
    {
        match outcome {
            LineOutcome::EndOfStream => self.end(svc, ChatStreamState::Completed, "completed"),
            LineOutcome::ReadFailed { kind, error } => {
                if svc.is_cancel_requested(self.stream_id.as_str()) {
                    return self.end(svc, ChatStreamState::Cancelled, "cancelled");
                }
                self.fail(svc, kind, error.as_str())
            },
            LineOutcome::Line(line) => {
                if svc.is_cancel_requested(self.stream_id.as_str()) {
                    return self.end(svc, ChatStreamState::Cancelled, "cancelled");
                }
                let v = chars_of(line.as_str());
                let t = trim_chars(v.as_slice());
                if t.len() == 0 {
                    return ChatStep { event: None, next: ChatNext::ReadLine };
                }
                let prefix = chars_of("data: ");
                let chunk_chars = match strip_prefix_chars(v.as_slice(), prefix.as_slice()) {
                    Some(rest) => rest,
                    None => v,
                };
                let chunk = string_of(chunk_chars.as_slice());
                let done = owned("[DONE]");
                if chunk == done {
                    return self.end(svc, ChatStreamState::Completed, "completed");
                }
                let n = utf8_len_exec(chunk_chars.as_slice());
                let ghost old_bytes = self.bytes_received;
                self.bytes_received = self.bytes_received.saturating_add(n);
                proof {
                    let cs = self.chunks@.push(chunk@);
                    assert(cs.drop_last() =~= self.chunks@);
                    self.chunks@ = cs;
                }
                svc.set_state(self.stream_id.as_str(), ChatStreamState::Streaming, None, self.bytes_received);
                ChatStep {
                    event: Some(
                        ChatStreamEvent {
                            stream_id: self.stream_id.clone(),
                            event_type: owned("chunk"),
                            data: Some(chunk),
                            state: ChatStreamState::Streaming,
                            error: None,
                        },
                    ),
                    next: ChatNext::ReadLine,
                }
            },
        }
    }
}

} // verus!
