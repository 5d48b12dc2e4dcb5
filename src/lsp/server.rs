//! The session: its lifecycle, the documents it mirrors, and the handlers of
//! requests and notifications.
//!
//! A session starts `Uninitialized`, becomes `Initialized` on the first
//! `initialize` request and `Shutdown` on a `shutdown` request. Document
//! notifications are accepted only while it is initialized. The `exit`
//! notification is handed back to the caller, which ends the process.

pub mod edit;
pub mod logger;
pub mod state;

use crate::lsp::capabilities::{ClientCapabilities, TextDocumentSyncKind};
use crate::lsp::common::text_document::Range;
use crate::lsp::error::ServerError;
use crate::lsp::notification::did_change::{
    DidChangeTextDocumentParams, TextDocumentContentChangeEvent,
};
use crate::lsp::notification::did_open::DidOpenTextDocumentParams;
use crate::lsp::notification::trace::{opt_text, LogTraceParams, SetTraceParams, TraceValue};
use crate::lsp::notification::{ClientServerNotification, ClientServerNotificationVariant};
use crate::lsp::request::{InitializeParams, Request, RequestMethods};
use crate::lsp::response::initialize::InitializeResult;
use crate::lsp::response::{ResponseMessage, ResponsePayload, ResponseResult};
use crate::lsp::server::edit::apply_changes;
use crate::lsp::server::logger::LogEvent;
use crate::lsp::server::state::{InitializedServerState, LineSeperatedDocument, change_views};
use vstd::prelude::*;
use vstd::string::StringExecFns;
use vstd::utf8::{decode_utf8, encode_utf8, encode_utf8_decode_utf8};

verus! {

/// The lifecycle of a session.
pub enum Server {
    /// Before `initialize`: only `initialize` is answered with success.
    Uninitialized,
    /// After `initialize`: holds the client's capabilities, the trace level,
    /// the pending log events and the open documents.
    Initialized(InitializedServerState),
    /// After `shutdown`: waits for `exit`.
    Shutdown,
}

/// What the caller of the notification handler does next.
#[derive(Debug, Clone, Copy, PartialEq, Eq, Structural)]
pub enum Control {
    /// Go on reading messages.
    Continue,
    /// The client asked the process to end.
    Exit,
}

/// URI, language identifier, version and text of a document.
pub type DocumentView = (Seq<char>, Seq<char>, i32, Seq<char>);

/// The views of the open documents.
pub open spec fn doc_views(docs: Seq<LineSeperatedDocument>) -> Seq<DocumentView> {
    docs.map_values(|d: LineSeperatedDocument| d@)
}

/// The first document with URI `uri`.
pub open spec fn find_uri(docs: Seq<DocumentView>, uri: Seq<char>) -> Option<int>
    decreases docs.len(),
{
    if docs.len() == 0 {
        None
    } else {
        match find_uri(docs.drop_last(), uri) {
            Some(i) => Some(i),
            None => if docs.last().0 == uri {
                Some(docs.len() - 1)
            } else {
                None
            },
        }
    }
}

/// The documents after `item` is opened: it replaces the document with its
/// URI, or joins the others at the end.
pub open spec fn opened(docs: Seq<DocumentView>, item: DocumentView) -> Seq<DocumentView> {
    match find_uri(docs, item.0) {
        Some(i) => docs.update(i, item),
        None => docs.push(item),
    }
}

/// `after` is `before` with one more log entry, whose view is `entry`.
pub open spec fn logged(
    before: Seq<LogEvent>,
    after: Seq<LogEvent>,
    entry: (Seq<char>, Option<Seq<char>>),
) -> bool {
    &&& after.len() == before.len() + 1
    &&& after.take(before.len() as int) == before
    &&& after.last() matches LogEvent::LogMessage(p) && p@ == entry
}

/// The changes of a `didChange` notification, with their texts viewed.
pub open spec fn content_change_views(changes: Seq<TextDocumentContentChangeEvent>) -> Seq<
    (Option<Range>, Seq<char>),
> {
    changes.map_values(|c: TextDocumentContentChangeEvent| (c.range, c.text@))
}

/// The log line of a successful `initialize`.
pub open spec fn initialized_log() -> Seq<char> {
    "Server initialized. Waiting for client initialized ack"@
}

/// The log line of opening the document at `uri`.
pub open spec fn opening_log(uri: Seq<char>) -> Seq<char> {
    "Opening document "@ + uri
}

/// The effect of an `initialize` request with the client capabilities
/// `caps`: from `Uninitialized` a fresh session, answered with the server's
/// capabilities; otherwise an error answer and no change.
pub open spec fn initialize_post(
    pre: Server,
    post: Server,
    caps: ClientCapabilities,
    r: ResponsePayload,
) -> bool {
    match pre {
        Server::Uninitialized => {
            &&& post matches Server::Initialized(s) && {
                &&& s._client_capabilities == caps
                &&& !s.is_client_initialized
                &&& s.trace == TraceValue::Off
                &&& s.documents@.len() == 0
                &&& logged(Seq::empty(), s.log_events@, (initialized_log(), None))
            }
            &&& r matches ResponsePayload::Result(ResponseResult::Initialize(res)) && {
                &&& res.capabilities.text_document_sync.open_close
                &&& res.capabilities.text_document_sync.change == TextDocumentSyncKind::Incremental
                &&& res.server_info.name@ == "huml-lsp"@
                &&& res.server_info.version@ == "0.1.0"@
            }
        },
        Server::Initialized(_) => {
            &&& post == pre
            &&& r matches ResponsePayload::Error { code, message, data } && code == -32002
                && message@ == "Server is already initialized"@ && data is None
        },
        Server::Shutdown => {
            &&& post == pre
            &&& r matches ResponsePayload::Error { code, message, data } && code == -32600
                && message@ == "Server is shut down"@ && data is None
        },
    }
}

/// The effect of the `initialized` notification: the acknowledgement is
/// recorded; before `initialize` it is refused.
pub open spec fn acknowledged_post(pre: Server, post: Server, r: Result<(), ServerError>) -> bool {
    match pre {
        Server::Uninitialized => r == Err::<(), ServerError>(ServerError::NotInitialized) && post
            == pre,
        Server::Initialized(s) => r is Ok && post == Server::Initialized(
            InitializedServerState { is_client_initialized: true, ..s },
        ),
        Server::Shutdown => r is Ok && post == pre,
    }
}

/// The effect of `$/setTrace`: the new level is kept, and passed on to the
/// log worker; without an initialized session it is refused.
pub open spec fn set_trace_post(
    pre: Server,
    post: Server,
    value: TraceValue,
    r: Result<(), ServerError>,
) -> bool {
    match pre {
        Server::Initialized(s) => r is Ok && (post matches Server::Initialized(t) && {
            &&& t._client_capabilities == s._client_capabilities
            &&& t.is_client_initialized == s.is_client_initialized
            &&& t.trace == value
            &&& t.documents == s.documents
            &&& t.log_events@ == s.log_events@.push(LogEvent::SetTrace(value))
        }),
        _ => r == Err::<(), ServerError>(ServerError::NotInitialized) && post == pre,
    }
}

/// The effect of `textDocument/didOpen` for the document `item`: it is
/// stored (see [`opened`]) and the opening is logged, with the text as
/// verbose detail; without an initialized session it is refused.
pub open spec fn did_open_post(
    pre: Server,
    post: Server,
    item: DocumentView,
    r: Result<(), ServerError>,
) -> bool {
    match pre {
        Server::Initialized(s) => r is Ok && (post matches Server::Initialized(t) && {
            &&& t._client_capabilities == s._client_capabilities
            &&& t.is_client_initialized == s.is_client_initialized
            &&& t.trace == s.trace
            &&& doc_views(t.documents@) == opened(doc_views(s.documents@), item)
            &&& logged(s.log_events@, t.log_events@, (opening_log(item.0), Some(item.3)))
        }),
        _ => r == Err::<(), ServerError>(ServerError::NotInitialized) && post == pre,
    }
}

/// The effect of `textDocument/didChange` on the document at `uri`: its
/// text becomes the result of `changes` and its version `version`. An
/// unknown URI changes nothing; changes that do not fit the text change
/// nothing and report the error; without an initialized session it is
/// refused.
pub open spec fn did_change_post(
    pre: Server,
    post: Server,
    uri: Seq<char>,
    version: i32,
    changes: Seq<(Option<Range>, Seq<char>)>,
    r: Result<(), ServerError>,
) -> bool {
    match pre {
        Server::Initialized(s) => match find_uri(doc_views(s.documents@), uri) {
            None => r is Ok && post == pre,
            Some(i) => {
                let d = doc_views(s.documents@)[i];
                match apply_changes(d.3, changes) {
                    Ok(text) => r is Ok && (post matches Server::Initialized(t) && {
                        &&& t._client_capabilities == s._client_capabilities
                        &&& t.is_client_initialized == s.is_client_initialized
                        &&& t.trace == s.trace
                        &&& t.log_events == s.log_events
                        &&& doc_views(t.documents@) == doc_views(s.documents@).update(
                            i,
                            (d.0, d.1, version, text),
                        )
                    }),
                    Err(e) => r == Err::<(), ServerError>(ServerError::DocumentOutOfSync(e))
                        && post == pre,
                }
            },
        },
        _ => r == Err::<(), ServerError>(ServerError::NotInitialized) && post == pre,
    }
}

/// No two documents share a URI.
pub open spec fn one_per_uri(docs: Seq<DocumentView>) -> bool {
    forall|i: int, j: int| 0 <= i < j < docs.len() ==> #[trigger] docs[i].0 != #[trigger] docs[j].0
}

impl Server {
    /// The session's invariant: the open documents have distinct URIs.
    pub open spec fn wf(self) -> bool {
        match self {
            Server::Initialized(s) => one_per_uri(doc_views(s.documents@)),
            _ => true,
        }
    }
}

proof fn lemma_find_uri(docs: Seq<DocumentView>, uri: Seq<char>)
    ensures
        find_uri(docs, uri) matches Some(i) ==> 0 <= i < docs.len() && docs[i].0 == uri,
        find_uri(docs, uri) is None ==> forall|j: int| 0 <= j < docs.len() ==> docs[j].0 != uri,
    decreases docs.len(),
{
    if docs.len() > 0 {
        let d = docs.drop_last();
        lemma_find_uri(d, uri);
        assert forall|j: int| 0 <= j < d.len() implies d[j] == docs[j] by {}
    }
}

/// Opening a document keeps the URIs of the open documents distinct.
pub proof fn lemma_open_keeps_one_per_uri(docs: Seq<DocumentView>, item: DocumentView)
    requires
        one_per_uri(docs),
    ensures
        one_per_uri(opened(docs, item)),
{
    lemma_find_uri(docs, item.0);
    let after = opened(docs, item);
    assert forall|i: int, j: int| 0 <= i < j < after.len() implies #[trigger] after[i].0
        != #[trigger] after[j].0 by {
        if i < docs.len() && j < docs.len() {
            assert(docs[i].0 != docs[j].0);
        }
    }
}

/// Changing a document keeps its URI, so the URIs stay distinct.
pub proof fn lemma_change_keeps_one_per_uri(docs: Seq<DocumentView>, i: int, d: DocumentView)
    requires
        one_per_uri(docs),
        0 <= i < docs.len(),
        d.0 == docs[i].0,
    ensures
        one_per_uri(docs.update(i, d)),
{
    let after = docs.update(i, d);
    assert forall|a: int, b: int| 0 <= a < b < after.len() implies #[trigger] after[a].0
        != #[trigger] after[b].0 by {
        assert(docs[a].0 != docs[b].0);
    }
}

/// Whether two texts are equal, compared by their UTF-8 bytes.
fn same_text(a: &str, b: &str) -> (r: bool)
    ensures
        r == (a@ == b@),
{
    let x = a.as_bytes();
    let y = b.as_bytes();
    proof {
        encode_utf8_decode_utf8(a@);
        encode_utf8_decode_utf8(b@);
    }
    if x.len() != y.len() {
        return false;
    }
    let mut i: usize = 0;
    while i < x.len()
        invariant
            x@.len() == y@.len(),
            x@ == encode_utf8(a@),
            y@ == encode_utf8(b@),
            decode_utf8(encode_utf8(a@)) == a@,
            decode_utf8(encode_utf8(b@)) == b@,
            i <= x@.len(),
            forall|j: int| 0 <= j < i ==> x@[j] == y@[j],
        decreases x@.len() - i,
    {
        if x[i] != y[i] {
            assert(x@ != y@);
            return false;
        }
        i = i + 1;
    }
    assert(x@ =~= y@);
    true
}

/// A document found among the first `k` stays the first with its URI.
proof fn lemma_find_uri_prefix(docs: Seq<DocumentView>, uri: Seq<char>, k: int)
    requires
        0 <= k <= docs.len(),
        find_uri(docs.take(k), uri) is Some,
    ensures
        find_uri(docs, uri) == find_uri(docs.take(k), uri),
    decreases docs.len() - k,
{
    if k < docs.len() {
        let d = docs.drop_last();
        assert(d.take(k) =~= docs.take(k));
        lemma_find_uri_prefix(d, uri, k);
    } else {
        assert(docs.take(k) =~= docs);
    }
}

/// The index of the first document with URI `uri`.
fn find_document(docs: &Vec<LineSeperatedDocument>, uri: &str) -> (r: Option<usize>)
    ensures
        match (r, find_uri(doc_views(docs@), uri@)) {
            (Some(i), Some(j)) => i == j && i < docs@.len(),
            (None, None) => true,
            _ => false,
        },
{
    let ghost views = doc_views(docs@);
    let mut i: usize = 0;
    assert(views.take(0) =~= Seq::<DocumentView>::empty());
    while i < docs.len()
        invariant
            i <= docs@.len(),
            views == doc_views(docs@),
            find_uri(views.take(i as int), uri@) is None,
        decreases docs@.len() - i,
    {
        let ghost p = views.take(i + 1);
        assert(p.drop_last() =~= views.take(i as int));
        assert(p.last() == docs@[i as int]@);
        if same_text(docs[i].borrow_full_document().uri(), uri) {
            proof {
                lemma_find_uri_prefix(views, uri@, i + 1);
            }
            return Some(i);
        }
        i = i + 1;
    }
    assert(views.take(i as int) =~= views);
    None
}

impl Server {
    /// A session that has not been initialized.
    pub fn new() -> (r: Self)
        ensures
            r is Uninitialized,
            r.wf(),
    {
        Self::Uninitialized
    }

    /// The state of the session, while it is initialized.
    pub fn as_initialized(&self) -> (r: Option<&InitializedServerState>)
        ensures
            r is Some == self is Initialized,
            r matches Some(s) ==> *self == Server::Initialized(*s),
    {
        if let Self::Initialized(v) = self {
            Some(v)
        } else {
            None
        }
    }

    /// The state of the session, to change it, while it is initialized.
    pub fn as_mut_initialized(&mut self) -> (r: Option<&mut InitializedServerState>)
        ensures
            r is Some == *old(self) is Initialized,
            r matches Some(s) ==> *old(self) == Server::Initialized(*s) && *final(self)
                == Server::Initialized(*final(s)),
            r is None ==> *final(self) == *old(self),
    {
        if let Self::Initialized(v) = self {
            Some(v)
        } else {
            None
        }
    }

    pub fn is_initialized(&self) -> (r: bool)
        ensures
            r == self is Initialized,
    {
        matches!(self, Self::Initialized(..))
    }

    /// Hands over the log events queued so far, oldest first.
    pub fn take_log_events(&mut self) -> (r: Vec<LogEvent>)
        ensures
            match *old(self) {
                Server::Initialized(s) => r@ == s.log_events@ && (*final(self) matches Server::Initialized(t)
                    && {
                    &&& t._client_capabilities == s._client_capabilities
                    &&& t.is_client_initialized == s.is_client_initialized
                    &&& t.trace == s.trace
                    &&& t.documents == s.documents
                    &&& t.log_events@.len() == 0
                }),
                _ => r@.len() == 0 && *final(self) == *old(self),
            },
            old(self).wf() ==> final(self).wf(),
    {
        match self {
            Server::Initialized(state) => {
                let mut events = Vec::new();
                std::mem::swap(&mut events, &mut state.log_events);
                events
            },
            _ => Vec::new(),
        }
    }
}

/// The result of a notification handler without its `Control`.
pub open spec fn outcome(r: Result<Control, ServerError>) -> Result<(), ServerError> {
    match r {
        Ok(_) => Ok(()),
        Err(e) => Err(e),
    }
}

impl InitializedServerState {
    /// Queues a log entry for the log worker.
    fn log_message(&mut self, message: String, verbose: Option<String>)
        ensures
            logged(old(self).log_events@, final(self).log_events@, (message@, opt_text(verbose))),
            final(self)._client_capabilities == old(self)._client_capabilities,
            final(self).is_client_initialized == old(self).is_client_initialized,
            final(self).trace == old(self).trace,
            final(self).documents == old(self).documents,
    {
        let ghost before = self.log_events@;
        self.log_events.push(LogEvent::LogMessage(LogTraceParams::new(message, verbose)));
        assert(self.log_events@.take(before.len() as int) =~= before);
    }
}

impl Server {
    /// Answers `initialize`; see [`initialize_post`].
    fn handle_initialize_req(&mut self, params: &InitializeParams) -> (r: ResponsePayload)
        ensures
            initialize_post(*old(self), *final(self), params.capabilities, r),
    {
        match self {
            Server::Initialized(_) => {
                return ResponsePayload::Error {
                    code: -32002,
                    message: "Server is already initialized".to_owned(),
                    data: None,
                };
            },
            Server::Shutdown => {
                return ResponsePayload::Error {
                    code: -32600,
                    message: "Server is shut down".to_owned(),
                    data: None,
                };
            },
            Server::Uninitialized => {},
        }
        let mut state = InitializedServerState {
            _client_capabilities: *params.capabilities(),
            is_client_initialized: false,
            trace: TraceValue::Off,
            log_events: Vec::new(),
            documents: Vec::new(),
        };
        state.log_message("Server initialized. Waiting for client initialized ack".to_owned(), None);
        *self = Server::Initialized(state);
        ResponsePayload::Result(ResponseResult::Initialize(InitializeResult::default()))
    }

    /// Answers `shutdown`: the session ends, whatever its state.
    fn handle_shutdown_req(&mut self) -> (r: ResponsePayload)
        ensures
            *final(self) is Shutdown,
            r matches ResponsePayload::Result(ResponseResult::Shutdown),
    {
        *self = Server::Shutdown;
        ResponsePayload::Result(ResponseResult::Shutdown)
    }

    /// Answers a request. Every request gets a response with its id.
    pub fn handle_request(&mut self, req: &Request) -> (r: Result<ResponseMessage, ServerError>)
        ensures
            r matches Ok(m) && m.id == req.id && m.jsonrpc@ == "2.0"@ && match req.method {
                RequestMethods::Initialize(p) => initialize_post(
                    *old(self),
                    *final(self),
                    p.capabilities,
                    m.payload,
                ),
                RequestMethods::Shutdown => *final(self) is Shutdown && (m.payload matches ResponsePayload::Result(
                    ResponseResult::Shutdown,
                )),
            },
            old(self).wf() ==> final(self).wf(),
    {
        let response_payload = match req.method() {
            RequestMethods::Initialize(params) => self.handle_initialize_req(params),
            RequestMethods::Shutdown => self.handle_shutdown_req(),
        };
        Ok(ResponseMessage::new_for(req, response_payload))
    }

    /// Handles `initialized`; see [`acknowledged_post`].
    fn handle_initialized_notification(&mut self) -> (r: Result<(), ServerError>)
        ensures
            acknowledged_post(*old(self), *final(self), r),
    {
        match self {
            Server::Uninitialized => Err(ServerError::NotInitialized),
            Server::Initialized(state) => {
                state.is_client_initialized = true;
                Ok(())
            },
            Server::Shutdown => Ok(()),
        }
    }

    /// Handles `$/setTrace`; see [`set_trace_post`].
    fn handle_set_trace(&mut self, params: SetTraceParams) -> (r: Result<(), ServerError>)
        ensures
            set_trace_post(*old(self), *final(self), params.value, r),
    {
        match self {
            Server::Initialized(state) => {
                state.trace = params.value();
                state.log_events.push(LogEvent::SetTrace(params.value()));
                Ok(())
            },
            _ => Err(ServerError::NotInitialized),
        }
    }

    /// Handles `textDocument/didOpen`; see [`did_open_post`].
    pub fn handle_did_open(&mut self, params: DidOpenTextDocumentParams) -> (r: Result<
        (),
        ServerError,
    >)
        ensures
            did_open_post(
                *old(self),
                *final(self),
                (
                    params.text_document.uri@,
                    params.text_document.language_id@,
                    params.text_document.version,
                    params.text_document.text@,
                ),
                r,
            ),
            old(self).wf() ==> final(self).wf(),
    {
        match self {
            Server::Initialized(state) => {
                let item = params.into_text_document();
                let mut message = "Opening document ".to_owned();
                message.append(item.uri());
                let verbose = item.text.clone();
                let found = find_document(&state.documents, item.uri());
                let ghost before = doc_views(state.documents@);
                let document = LineSeperatedDocument::new(item);
                match found {
                    Some(i) => {
                        state.documents[i] = document;
                        assert(doc_views(state.documents@) =~= before.update(i as int, document@));
                    },
                    None => {
                        state.documents.push(document);
                        assert(doc_views(state.documents@) =~= before.push(document@));
                    },
                }
                state.log_message(message, Some(verbose));
                proof {
                    if old(self).wf() {
                        lemma_open_keeps_one_per_uri(before, document@);
                    }
                }
                Ok(())
            },
            _ => Err(ServerError::NotInitialized),
        }
    }

    /// Handles `textDocument/didChange`; see [`did_change_post`].
    pub fn handle_did_change(&mut self, params: DidChangeTextDocumentParams) -> (r: Result<
        (),
        ServerError,
    >)
        ensures
            did_change_post(
                *old(self),
                *final(self),
                params.text_document.identifier.uri@,
                params.text_document.version,
                content_change_views(params.content_changes@),
                r,
            ),
            old(self).wf() ==> final(self).wf(),
    {
        match self {
            Server::Initialized(state) => {
                let i = match find_document(&state.documents, params.text_document().uri()) {
                    Some(i) => i,
                    None => return Ok(()),
                };
                let events = params.content_changes();
                let mut changes: Vec<(Option<Range>, &str)> = Vec::new();
                let mut k: usize = 0;
                while k < events.len()
                    invariant
                        k <= events@.len(),
                        changes@.len() == k,
                        change_views(changes@) == content_change_views(events@).take(k as int),
                    decreases events@.len() - k,
                {
                    let ghost before = changes@;
                    changes.push((events[k].range(), events[k].text()));
                    proof {
                        assert forall|j: int| 0 <= j <= k implies #[trigger] change_views(
                            changes@,
                        )[j] == content_change_views(events@).take(k + 1)[j] by {
                            if j < k {
                                assert(change_views(changes@)[j] == change_views(before)[j]);
                                assert(change_views(before)[j] == content_change_views(
                                    events@,
                                ).take(k as int)[j]);
                            }
                        }
                        assert(change_views(changes@) =~= content_change_views(events@).take(
                            k + 1,
                        ));
                    }
                    k = k + 1;
                }
                assert(content_change_views(events@).take(events@.len() as int)
                    =~= content_change_views(events@));
                let text = match state.documents[i].apply_changes(changes.as_slice()) {
                    Ok(t) => t,
                    Err(e) => return Err(ServerError::DocumentOutOfSync(e)),
                };
                let current = state.documents[i].borrow_full_document();
                let item = crate::lsp::common::text_document::TextDocumentItemOwned::new(
                    current.uri.clone(),
                    current.language_id.clone(),
                    params.text_document().version(),
                    text,
                );
                let ghost before = doc_views(state.documents@);
                state.documents[i] = LineSeperatedDocument::new(item);
                assert(doc_views(state.documents@) =~= before.update(
                    i as int,
                    (before[i as int].0, before[i as int].1, params.text_document.version, text@),
                ));
                proof {
                    if old(self).wf() {
                        lemma_change_keeps_one_per_uri(
                            before,
                            i as int,
                            (before[i as int].0, before[i as int].1, params.text_document.version, text@),
                        );
                    }
                }
                Ok(())
            },
            _ => Err(ServerError::NotInitialized),
        }
    }

    /// Handles a notification. `exit` is handed back as [`Control::Exit`];
    /// every other notification gives [`Control::Continue`] or an error.
    pub fn handle_notification(&mut self, notification: ClientServerNotification) -> (r: Result<
        Control,
        ServerError,
    >)
        ensures
            r matches Ok(c) ==> (c == Control::Exit <==> notification.variant is Exit),
            match notification.variant {
                ClientServerNotificationVariant::Initialized(_) => acknowledged_post(
                    *old(self),
                    *final(self),
                    outcome(r),
                ),
                ClientServerNotificationVariant::SetTrace(p) => set_trace_post(
                    *old(self),
                    *final(self),
                    p.value,
                    outcome(r),
                ),
                ClientServerNotificationVariant::DidOpen(p) => did_open_post(
                    *old(self),
                    *final(self),
                    (
                        p.text_document.uri@,
                        p.text_document.language_id@,
                        p.text_document.version,
                        p.text_document.text@,
                    ),
                    outcome(r),
                ),
                ClientServerNotificationVariant::DidChange(p) => did_change_post(
                    *old(self),
                    *final(self),
                    p.text_document.identifier.uri@,
                    p.text_document.version,
                    content_change_views(p.content_changes@),
                    outcome(r),
                ),
                ClientServerNotificationVariant::Exit => r == Ok::<Control, ServerError>(
                    Control::Exit,
                ) && *final(self) == *old(self),
            },
            old(self).wf() ==> final(self).wf(),
    {
        let handled = match notification.into_variant() {
            ClientServerNotificationVariant::Initialized(_) => self.handle_initialized_notification(),
            ClientServerNotificationVariant::Exit => return Ok(Control::Exit),
            ClientServerNotificationVariant::SetTrace(params) => self.handle_set_trace(params),
            ClientServerNotificationVariant::DidChange(params) => self.handle_did_change(params),
            ClientServerNotificationVariant::DidOpen(params) => self.handle_did_open(params),
        };
        match handled {
            Ok(()) => Ok(Control::Continue),
            Err(e) => Err(e),
        }
    }
}

} // verus!
