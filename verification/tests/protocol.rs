use texlab::ident::RequestId;
use texlab::protocol::cancel_response;
use texlab::protocol::finish_response;
use texlab::protocol::invalid_params_response;
use texlab::protocol::method_not_found_response;
use texlab::protocol::notification_kinds;
use texlab::protocol::request_kinds;
use texlab::protocol::route_notification;
use texlab::protocol::route_request;
use texlab::protocol::unknown_document_response;
use texlab::protocol::ErrorKind;
use texlab::protocol::Notification;
use texlab::protocol::NotificationDispatcher;
use texlab::protocol::NotificationKind;
use texlab::protocol::Outcome;
use texlab::protocol::Request;
use texlab::protocol::RequestDispatcher;
use texlab::protocol::RequestKind;
use texlab::protocol::Response;
use texlab::protocol::ResponseError;
use texlab::protocol::RoutedRequest;

fn request(id: i32, method: &str) -> Request {
    Request { id: RequestId::Number(id), method: method.to_string(), params: "{}".to_string() }
}

fn notification(method: &str) -> Notification {
    Notification { method: method.to_string(), params: "{}".to_string() }
}

fn failure(id: RequestId, code: i32, message: &str) -> Response {
    Response {
        id,
        outcome: Outcome::Failure { error: ResponseError { code, message: message.to_string() } },
    }
}

#[test]
fn error_codes_are_those_of_the_protocol() {
    assert_eq!(ErrorKind::InvalidRequest.code(), -32600);
    assert_eq!(ErrorKind::MethodNotFound.code(), -32601);
    assert_eq!(ErrorKind::InvalidParams.code(), -32602);
    assert_eq!(ErrorKind::InternalError.code(), -32603);
    assert_eq!(ErrorKind::RequestCanceled.code(), -32800);
}

#[test]
fn cancel_response_carries_request_canceled() {
    let response = cancel_response(RequestId::Text("r1".to_string()));
    assert_eq!(response, failure(RequestId::Text("r1".to_string()), -32800, "canceled by client"));
    assert!(response.is_error(ErrorKind::RequestCanceled));
    assert!(!response.is_error(ErrorKind::InternalError));
}

#[test]
fn unknown_document_response_carries_internal_error() {
    let response = unknown_document_response(RequestId::Number(4));
    assert_eq!(response, failure(RequestId::Number(4), -32603, "unknown document URI"));
}

#[test]
fn other_error_responses_carry_their_code_and_message() {
    assert_eq!(
        method_not_found_response(RequestId::Number(1)),
        failure(RequestId::Number(1), -32601, "unknown request")
    );
    assert_eq!(
        invalid_params_response(RequestId::Number(2), "missing field".to_string()),
        failure(RequestId::Number(2), -32602, "missing field")
    );
    assert_eq!(
        Response::new_err(RequestId::Number(3), ErrorKind::InvalidRequest, "no".to_string()),
        failure(RequestId::Number(3), -32600, "no")
    );
}

#[test]
fn finish_response_is_the_result_unless_canceled() {
    let done = finish_response(RequestId::Number(1), false, "[1]".to_string());
    assert_eq!(
        done,
        Response { id: RequestId::Number(1), outcome: Outcome::Success { result: "[1]".to_string() } }
    );
    assert!(!done.is_error(ErrorKind::RequestCanceled));
    let canceled = finish_response(RequestId::Number(1), true, "[1]".to_string());
    assert_eq!(canceled, failure(RequestId::Number(1), -32800, "canceled by client"));
}

#[test]
fn every_request_kind_is_routed_by_its_method() {
    let kinds = request_kinds();
    assert_eq!(kinds.len(), 16);
    for kind in kinds {
        match route_request(request(1, kind.method())) {
            RoutedRequest::Handler { kind: routed, request: taken } => {
                assert_eq!(routed, kind);
                assert_eq!(taken, request(1, kind.method()));
            }
            RoutedRequest::Unhandled { .. } => panic!("no handler took the request"),
        }
    }
}

#[test]
fn request_methods_are_those_of_the_protocol() {
    assert_eq!(RequestKind::DocumentLink.method(), "textDocument/documentLink");
    assert_eq!(RequestKind::FoldingRange.method(), "textDocument/foldingRange");
    assert_eq!(RequestKind::References.method(), "textDocument/references");
    assert_eq!(RequestKind::Hover.method(), "textDocument/hover");
    assert_eq!(RequestKind::DocumentSymbol.method(), "textDocument/documentSymbol");
    assert_eq!(RequestKind::WorkspaceSymbol.method(), "workspace/symbol");
    assert_eq!(RequestKind::Completion.method(), "textDocument/completion");
    assert_eq!(RequestKind::CompletionResolve.method(), "completionItem/resolve");
    assert_eq!(RequestKind::GotoDefinition.method(), "textDocument/definition");
    assert_eq!(RequestKind::PrepareRename.method(), "textDocument/prepareRename");
    assert_eq!(RequestKind::Rename.method(), "textDocument/rename");
    assert_eq!(RequestKind::DocumentHighlight.method(), "textDocument/documentHighlight");
    assert_eq!(RequestKind::Formatting.method(), "textDocument/formatting");
    assert_eq!(RequestKind::Build.method(), "textDocument/build");
    assert_eq!(RequestKind::ForwardSearch.method(), "textDocument/forwardSearch");
    assert_eq!(RequestKind::SemanticTokensRange.method(), "textDocument/semanticTokens/range");
}

#[test]
fn request_without_a_handler_gets_method_not_found() {
    match route_request(request(8, "textDocument/unknown")) {
        RoutedRequest::Unhandled { response } => {
            assert_eq!(response, failure(RequestId::Number(8), -32601, "unknown request"));
        }
        RoutedRequest::Handler { .. } => panic!("a handler took the request"),
    }
    assert!(matches!(
        route_request(request(8, "textDocument/didOpen")),
        RoutedRequest::Unhandled { .. }
    ));
}

#[test]
fn only_the_kinds_that_name_a_document_need_one() {
    for kind in request_kinds() {
        let whole_workspace =
            kind == RequestKind::WorkspaceSymbol || kind == RequestKind::CompletionResolve;
        assert_eq!(kind.is_document_request(), !whole_workspace);
    }
}

#[test]
fn every_notification_kind_is_routed_by_its_method() {
    let kinds = notification_kinds();
    assert_eq!(
        kinds,
        vec![
            NotificationKind::Cancel,
            NotificationKind::DidChangeConfiguration,
            NotificationKind::DidOpen,
            NotificationKind::DidChange,
            NotificationKind::DidSave,
            NotificationKind::DidClose,
        ]
    );
    for kind in kinds {
        assert_eq!(
            route_notification(notification(kind.method())),
            Some((kind, notification(kind.method())))
        );
    }
    assert_eq!(NotificationKind::Cancel.method(), "$/cancelRequest");
    assert_eq!(NotificationKind::DidChangeConfiguration.method(), "workspace/didChangeConfiguration");
    assert_eq!(NotificationKind::DidOpen.method(), "textDocument/didOpen");
    assert_eq!(NotificationKind::DidChange.method(), "textDocument/didChange");
    assert_eq!(NotificationKind::DidSave.method(), "textDocument/didSave");
    assert_eq!(NotificationKind::DidClose.method(), "textDocument/didClose");
}

#[test]
fn notification_without_a_handler_is_dropped() {
    assert_eq!(route_notification(notification("textDocument/willSave")), None);
    assert_eq!(route_notification(notification("textDocument/hover")), None);
}

#[test]
fn dispatcher_runs_at_most_one_handler() {
    let dispatcher = RequestDispatcher::new(request(1, "textDocument/hover"));
    let (dispatcher, first) = dispatcher.on("textDocument/rename");
    assert_eq!(first, None);
    let (dispatcher, second) = dispatcher.on("textDocument/hover");
    assert_eq!(second, Some(request(1, "textDocument/hover")));
    let (dispatcher, third) = dispatcher.on("textDocument/hover");
    assert_eq!(third, None);
    assert_eq!(dispatcher.default(), None);
}

#[test]
fn dispatcher_answers_what_no_handler_took() {
    let dispatcher = RequestDispatcher::new(request(2, "x"));
    let (dispatcher, taken) = dispatcher.on("y");
    assert_eq!(taken, None);
    assert_eq!(dispatcher.default(), Some(failure(RequestId::Number(2), -32601, "unknown request")));
}

#[test]
fn notification_dispatcher_has_no_default_error() {
    let dispatcher = NotificationDispatcher::new(notification("a"));
    let (dispatcher, taken) = dispatcher.on("b");
    assert_eq!(taken, None);
    assert!(dispatcher.default());
    let dispatcher = NotificationDispatcher::new(notification("a"));
    let (dispatcher, taken) = dispatcher.on("a");
    assert_eq!(taken, Some(notification("a")));
    assert!(!dispatcher.default());
}
