use huml_lsp::lsp::capabilities::{ClientCapabilities, TextDocumentSyncKind};
use huml_lsp::lsp::common::text_document::{
    Position, Range, TextDocumentIdentifier, TextDocumentItem, VersionedTextDocumentIdentifier,
};
use huml_lsp::lsp::error::{EditError, ServerError};
use huml_lsp::lsp::notification::did_change::{
    DidChangeTextDocumentParams, TextDocumentContentChangeEvent,
};
use huml_lsp::lsp::notification::did_open::DidOpenTextDocumentParams;
use huml_lsp::lsp::notification::trace::{LogTraceParams, SetTraceParams, TraceValue};
use huml_lsp::lsp::notification::{
    ClientServerNotification, ClientServerNotificationVariant, InitializedParams,
    ServerClientNotification,
};
use huml_lsp::lsp::request::{InitializeParams, Request, RequestMethods};
use huml_lsp::lsp::response::initialize::InitializeResult;
use huml_lsp::lsp::response::{ResponsePayload, ResponseResult};
use huml_lsp::lsp::server::logger::{next_log_action, LogAction, LogEvent};
use huml_lsp::lsp::server::state::InitializedServerState;
use huml_lsp::lsp::server::{Control, Server};

fn initialize_request(id: i32) -> Request {
    Request {
        id,
        method: RequestMethods::Initialize(InitializeParams {
            process_id: None,
            client_info: None,
            capabilities: ClientCapabilities::default(),
            workspace_folders: None,
        }),
    }
}

fn shutdown_request(id: i32) -> Request {
    Request {
        id,
        method: RequestMethods::Shutdown,
    }
}

fn notification(variant: ClientServerNotificationVariant<'_>) -> ClientServerNotification<'_> {
    ClientServerNotification {
        variant,
        _jsonrpc: "2.0",
    }
}

fn initialized_server() -> Server {
    let mut server = Server::new();
    server.handle_request(&initialize_request(1)).unwrap();
    server.take_log_events();
    server
}

fn open<'a>(uri: &'a str, text: &'a str) -> ClientServerNotificationVariant<'a> {
    ClientServerNotificationVariant::DidOpen(DidOpenTextDocumentParams {
        text_document: TextDocumentItem {
            uri,
            language_id: "huml",
            version: 1,
            text,
        },
    })
}

fn change<'a>(
    uri: &'a str,
    version: i32,
    changes: Vec<TextDocumentContentChangeEvent<'a>>,
) -> ClientServerNotificationVariant<'a> {
    ClientServerNotificationVariant::DidChange(DidChangeTextDocumentParams {
        text_document: VersionedTextDocumentIdentifier {
            identifier: TextDocumentIdentifier { uri },
            version,
        },
        content_changes: changes,
    })
}

fn documents(server: &Server) -> Vec<(String, i32, String)> {
    server
        .as_initialized()
        .unwrap()
        .documents
        .iter()
        .map(|d| {
            let item = d.borrow_full_document();
            (item.uri().to_string(), item.version(), item.text().to_string())
        })
        .collect()
}

fn check_initialize(server: Server, response_id: i32, payload: &ResponsePayload) {
    match server {
        Server::Initialized(InitializedServerState {
            _client_capabilities: client_capabilities,
            is_client_initialized,
            ..
        }) => {
            assert_eq!(
                is_client_initialized, false,
                "Expected is_client_initialized to be false right after initialization"
            );
            assert_eq!(
                client_capabilities,
                ClientCapabilities::default(),
                "Expected client_capabilities to match the value passed in the request"
            )
        }
        _ => assert!(false, "Expected the server to be initialized"),
    }
    assert_eq!(response_id, 1, "Expected response id to be same as request id ");
    assert!(
        matches!(
            payload,
            ResponsePayload::Result(ResponseResult::Initialize(InitializeResult { .. }))
        ),
        "Expected response to contain an initialize result"
    );
}

#[test]
fn mod_should_initialize_server() {
    let mut server = Server::Uninitialized;
    let request = initialize_request(1);
    let response = server.handle_request(&request).unwrap();
    check_initialize(server, response.id(), response.payload());
}

#[test]
fn server_should_initialize_server() {
    let mut server = Server::new();
    let response = server.handle_request(&initialize_request(1)).unwrap();
    check_initialize(server, response.id(), response.payload());
}

fn check_shutdown(request: Request) {
    let mut server = Server::Initialized(InitializedServerState {
        _client_capabilities: ClientCapabilities::default(),
        is_client_initialized: true,
        trace: TraceValue::Off,
        log_events: vec![],
        documents: vec![],
    });

    let response = server.handle_request(&request).unwrap();

    assert!(
        matches!(server, Server::Shutdown),
        "Expected server to be shutdown"
    );
    assert_eq!(
        response.id(),
        2,
        "Expected response id to be same as request id "
    );
    assert!(matches!(
        response.payload(),
        ResponsePayload::Result(ResponseResult::Shutdown)
    ));
}

#[test]
fn mod_test_shutdown() {
    check_shutdown(shutdown_request(2));
}

#[test]
fn server_test_shutdown() {
    check_shutdown(shutdown_request(2));
}

#[test]
fn initialize_answers_with_server_capabilities() {
    let mut server = Server::new();
    let response = server.handle_request(&initialize_request(5)).unwrap();
    assert_eq!(response.jsonrpc, "2.0");
    match response.payload() {
        ResponsePayload::Result(ResponseResult::Initialize(result)) => {
            assert!(result.capabilities.text_document_sync.open_close);
            assert_eq!(
                result.capabilities.text_document_sync.change,
                TextDocumentSyncKind::Incremental
            );
            assert_eq!(result.server_info.name, "huml-lsp");
        }
        _ => panic!("expected an initialize result"),
    }
}

#[test]
fn second_initialize_is_an_error_response() {
    let mut server = initialized_server();
    let response = server.handle_request(&initialize_request(2)).unwrap();
    assert_eq!(response.id(), 2);
    match response.payload() {
        ResponsePayload::Error {
            code,
            message,
            data,
        } => {
            assert_eq!(*code, -32002);
            assert_eq!(message, "Server is already initialized");
            assert!(data.is_none());
        }
        _ => panic!("expected an error"),
    }
    assert!(server.is_initialized());
}

#[test]
fn initialize_after_shutdown_is_an_error_response() {
    let mut server = initialized_server();
    server.handle_request(&shutdown_request(2)).unwrap();
    let response = server.handle_request(&initialize_request(3)).unwrap();
    assert!(matches!(
        response.payload(),
        ResponsePayload::Error { code: -32600, .. }
    ));
    assert!(matches!(server, Server::Shutdown));
}

#[test]
fn initialize_queues_a_log_line() {
    let mut server = Server::new();
    server.handle_request(&initialize_request(1)).unwrap();
    let events = server.take_log_events();
    assert_eq!(events.len(), 1);
    match &events[0] {
        LogEvent::LogMessage(p) => {
            assert_eq!(p.message, "Server initialized. Waiting for client initialized ack");
            assert_eq!(p.verbose, None);
        }
        _ => panic!("expected a log message"),
    }
    assert!(server.take_log_events().is_empty());
}

#[test]
fn notifications_before_initialize_are_refused() {
    let mut server = Server::new();
    let init = notification(ClientServerNotificationVariant::Initialized(InitializedParams {}));
    assert_eq!(server.handle_notification(init), Err(ServerError::NotInitialized));
    let trace = notification(ClientServerNotificationVariant::SetTrace(SetTraceParams {
        value: TraceValue::Verbose,
    }));
    assert_eq!(server.handle_notification(trace), Err(ServerError::NotInitialized));
    assert_eq!(
        server.handle_notification(notification(open("file:///a", "x"))),
        Err(ServerError::NotInitialized)
    );
    assert_eq!(
        server.handle_notification(notification(change("file:///a", 2, vec![]))),
        Err(ServerError::NotInitialized)
    );
    assert!(matches!(server, Server::Uninitialized));
}

#[test]
fn initialized_notification_records_the_acknowledgement() {
    let mut server = initialized_server();
    let init = notification(ClientServerNotificationVariant::Initialized(InitializedParams {}));
    assert_eq!(server.handle_notification(init), Ok(Control::Continue));
    assert!(server.as_initialized().unwrap().is_client_initialized);
}

#[test]
fn exit_is_handed_back() {
    let mut server = initialized_server();
    assert_eq!(
        server.handle_notification(notification(ClientServerNotificationVariant::Exit)),
        Ok(Control::Exit)
    );
    assert!(server.is_initialized());
}

#[test]
fn set_trace_is_kept_and_passed_on() {
    let mut server = initialized_server();
    let trace = notification(ClientServerNotificationVariant::SetTrace(SetTraceParams {
        value: TraceValue::Verbose,
    }));
    assert_eq!(server.handle_notification(trace), Ok(Control::Continue));
    assert_eq!(server.as_initialized().unwrap().trace, TraceValue::Verbose);
    let events = server.take_log_events();
    assert!(matches!(events[..], [LogEvent::SetTrace(TraceValue::Verbose)]));
}

#[test]
fn did_open_stores_and_reopen_replaces() {
    let mut server = initialized_server();
    server.handle_notification(notification(open("file:///a", "one"))).unwrap();
    server.handle_notification(notification(open("file:///b", "two"))).unwrap();
    server.handle_notification(notification(open("file:///a", "three"))).unwrap();
    assert_eq!(
        documents(&server),
        vec![
            ("file:///a".to_string(), 1, "three".to_string()),
            ("file:///b".to_string(), 1, "two".to_string()),
        ]
    );
    let events = server.take_log_events();
    assert_eq!(events.len(), 3);
    match &events[2] {
        LogEvent::LogMessage(p) => {
            assert_eq!(p.message, "Opening document file:///a");
            assert_eq!(p.verbose.as_deref(), Some("three"));
        }
        _ => panic!("expected a log message"),
    }
}

#[test]
fn did_change_applies_edits_and_sets_version() {
    let mut server = initialized_server();
    server
        .handle_notification(notification(open("file:///a", "Hello\nworld")))
        .unwrap();
    let edits = vec![
        TextDocumentContentChangeEvent {
            range: Some(Range::new(Position::new(1, 0), Position::new(1, 5))),
            text: "there",
        },
        TextDocumentContentChangeEvent {
            range: Some(Range::new(Position::new(0, 5), Position::new(0, 5))),
            text: ",",
        },
    ];
    assert_eq!(
        server.handle_notification(notification(change("file:///a", 4, edits))),
        Ok(Control::Continue)
    );
    assert_eq!(
        documents(&server),
        vec![("file:///a".to_string(), 4, "Hello,\nthere".to_string())]
    );
}

#[test]
fn did_change_with_full_text_replaces_the_document() {
    let mut server = initialized_server();
    server.handle_notification(notification(open("file:///a", "old"))).unwrap();
    let edits = vec![
        TextDocumentContentChangeEvent {
            range: None,
            text: "brand\nnew",
        },
        TextDocumentContentChangeEvent {
            range: Some(Range::new(Position::new(1, 3), Position::new(1, 3))),
            text: "er",
        },
    ];
    server
        .handle_notification(notification(change("file:///a", 2, edits)))
        .unwrap();
    assert_eq!(
        documents(&server),
        vec![("file:///a".to_string(), 2, "brand\nnewer".to_string())]
    );
}

#[test]
fn did_change_of_unknown_document_changes_nothing() {
    let mut server = initialized_server();
    server.handle_notification(notification(open("file:///a", "keep"))).unwrap();
    let edits = vec![TextDocumentContentChangeEvent {
        range: None,
        text: "lost",
    }];
    assert_eq!(
        server.handle_notification(notification(change("file:///b", 9, edits))),
        Ok(Control::Continue)
    );
    assert_eq!(
        documents(&server),
        vec![("file:///a".to_string(), 1, "keep".to_string())]
    );
}

#[test]
fn did_change_out_of_range_reports_desync_and_keeps_document() {
    let mut server = initialized_server();
    server.handle_notification(notification(open("file:///a", "abc"))).unwrap();
    let edits = vec![TextDocumentContentChangeEvent {
        range: Some(Range::new(Position::new(4, 0), Position::new(4, 1))),
        text: "x",
    }];
    assert_eq!(
        server.handle_notification(notification(change("file:///a", 2, edits))),
        Err(ServerError::DocumentOutOfSync(EditError::PositionOutOfRange))
    );
    assert_eq!(
        documents(&server),
        vec![("file:///a".to_string(), 1, "abc".to_string())]
    );
}

#[test]
fn log_worker_follows_the_trace_level() {
    let entry = LogTraceParams::new("Hello World".to_string(), Some("details".to_string()));

    let (trace, action) = next_log_action(TraceValue::Off, LogEvent::LogMessage(entry.clone()));
    assert_eq!(trace, TraceValue::Off);
    assert!(matches!(action, LogAction::Skip));

    let (trace, action) = next_log_action(trace, LogEvent::SetTrace(TraceValue::Message));
    assert_eq!(trace, TraceValue::Message);
    assert!(matches!(action, LogAction::Skip));

    let (trace, action) = next_log_action(trace, LogEvent::LogMessage(entry.clone()));
    match action {
        LogAction::Write(ServerClientNotification::LogTrace(p)) => {
            assert_eq!(p.message, "Hello World");
            assert_eq!(p.verbose, None);
        }
        _ => panic!("expected a write"),
    }

    let (trace, action) = next_log_action(
        trace,
        LogEvent::SetTrace(TraceValue::Verbose),
    );
    assert!(matches!(action, LogAction::Skip));
    let (trace, action) = next_log_action(trace, LogEvent::LogMessage(entry));
    match action {
        LogAction::Write(ServerClientNotification::LogTrace(p)) => {
            assert_eq!(p.verbose.as_deref(), Some("details"));
        }
        _ => panic!("expected a write"),
    }

    let (_, action) = next_log_action(trace, LogEvent::Shutdown);
    assert!(matches!(action, LogAction::Stop));
    assert!(LogEvent::Shutdown.is_shutdown());
}

#[test]
fn trace_levels_shape_log_entries() {
    let entry = LogTraceParams::new("m".to_string(), Some("v".to_string()));
    assert!(entry.clone().with_trace_level(TraceValue::Off).is_none());
    let message = entry.clone().with_trace_level(TraceValue::Message).unwrap();
    assert_eq!((message.message.as_str(), message.verbose), ("m", None));
    let verbose = entry.with_trace_level(TraceValue::Verbose).unwrap();
    assert_eq!(verbose.verbose.as_deref(), Some("v"));
    assert!(TraceValue::Off.is_off() && TraceValue::Message.is_message());
    assert!(TraceValue::Verbose.is_verbose() && !TraceValue::Verbose.is_off());
}
