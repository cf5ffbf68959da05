//! Messages of the protocol as plain values: requests, notifications,
//! responses, the error codes, and the router from method names to handlers.
use vstd::prelude::*;
use crate::ident::RequestId;
use crate::ident::RequestIdView;
use crate::text::str_is;

verus! {

/// The errors that the server answers a request with.
#[derive(Clone, Copy, Debug, PartialEq, Eq, Structural)]
pub enum ErrorKind {
    InvalidRequest,
    MethodNotFound,
    InvalidParams,
    InternalError,
    RequestCanceled,
}

impl ErrorKind {
    /// The number that the protocol gives this error.
    pub open spec fn number(self) -> int {
        match self {
            ErrorKind::InvalidRequest => -32600,
            ErrorKind::MethodNotFound => -32601,
            ErrorKind::InvalidParams => -32602,
            ErrorKind::InternalError => -32603,
            ErrorKind::RequestCanceled => -32800,
        }
    }

    /// The number that the protocol gives this error.
    pub fn code(self) -> (r: i32)
        ensures
            r == self.number(),
    {
        error_code_number(self)
    }
}

/// Reads the number of an error off `lsp_server::ErrorCode`: the contract
/// says that the variant of that enum with the same name as `kind` has the
/// discriminant that `ErrorKind::number` gives.
#[verifier::external_body]
fn error_code_number(kind: ErrorKind) -> (r: i32)
    ensures
        r == kind.number(),
{
    let code = match kind {
        ErrorKind::InvalidRequest => lsp_server::ErrorCode::InvalidRequest,
        ErrorKind::MethodNotFound => lsp_server::ErrorCode::MethodNotFound,
        ErrorKind::InvalidParams => lsp_server::ErrorCode::InvalidParams,
        ErrorKind::InternalError => lsp_server::ErrorCode::InternalError,
        ErrorKind::RequestCanceled => lsp_server::ErrorCode::RequestCanceled,
    };
    code as i32
}

/// The error of a response.
#[derive(Debug, PartialEq, Eq)]
pub struct ResponseError {
    pub code: i32,
    pub message: String,
}

/// What a response carries: a result, as JSON text, or an error.
#[derive(Debug, PartialEq, Eq)]
pub enum Outcome {
    Success { result: String },
    Failure { error: ResponseError },
}

/// What a response carries, as contracts see it.
pub enum OutcomeView {
    Success { result: Seq<char> },
    Failure { code: int, message: Seq<char> },
}

impl View for Outcome {
    type V = OutcomeView;

    open spec fn view(&self) -> OutcomeView {
        match self {
            Outcome::Success { result } => OutcomeView::Success { result: result@ },
            Outcome::Failure { error } => OutcomeView::Failure {
                code: error.code as int,
                message: error.message@,
            },
        }
    }
}

/// A response as contracts see it.
pub struct ResponseView {
    pub id: RequestIdView,
    pub outcome: OutcomeView,
}

/// The answer to the request `id`.
#[derive(Debug, PartialEq, Eq)]
pub struct Response {
    pub id: RequestId,
    pub outcome: Outcome,
}

impl View for Response {
    type V = ResponseView;

    open spec fn view(&self) -> ResponseView {
        ResponseView { id: self.id@, outcome: self.outcome@ }
    }
}

/// The error response of kind `kind` with the given message.
pub open spec fn failure(id: RequestIdView, kind: ErrorKind, message: Seq<char>) -> ResponseView {
    ResponseView { id, outcome: OutcomeView::Failure { code: kind.number(), message } }
}

/// The response that carries `result`.
pub open spec fn success(id: RequestIdView, result: Seq<char>) -> ResponseView {
    ResponseView { id, outcome: OutcomeView::Success { result } }
}

impl Response {
    /// The response to `id` that carries `result`.
    pub fn new_ok(id: RequestId, result: String) -> (r: Response)
        ensures
            r@ == success(id@, result@),
    {
        Response { id, outcome: Outcome::Success { result } }
    }

    /// The response to `id` that reports an error.
    pub fn new_err(id: RequestId, kind: ErrorKind, message: String) -> (r: Response)
        ensures
            r@ == failure(id@, kind, message@),
    {
        Response { id, outcome: Outcome::Failure { error: ResponseError { code: kind.code(), message } } }
    }

    /// Whether this response reports the error `kind`.
    pub fn is_error(&self, kind: ErrorKind) -> (r: bool)
        ensures
            r == (self@.outcome is Failure && self@.outcome->code == kind.number()),
    {
        match &self.outcome {
            Outcome::Success { result: _ } => false,
            Outcome::Failure { error } => error.code == kind.code(),
        }
    }
}

/// The response to a request that the client withdrew.
pub fn cancel_response(id: RequestId) -> (r: Response)
    ensures
        r@ == failure(id@, ErrorKind::RequestCanceled, "canceled by client"@),
{
    Response::new_err(id, ErrorKind::RequestCanceled, String::from_str("canceled by client"))
}

/// The response to a request about a document that the workspace does not
/// hold.
pub fn unknown_document_response(id: RequestId) -> (r: Response)
    ensures
        r@ == failure(id@, ErrorKind::InternalError, "unknown document URI"@),
{
    Response::new_err(id, ErrorKind::InternalError, String::from_str("unknown document URI"))
}

/// The response to a request whose method no handler took.
pub fn method_not_found_response(id: RequestId) -> (r: Response)
    ensures
        r@ == failure(id@, ErrorKind::MethodNotFound, "unknown request"@),
{
    Response::new_err(id, ErrorKind::MethodNotFound, String::from_str("unknown request"))
}

/// The response to a request whose parameters did not have the shape that
/// its handler takes; `reason` is what the decoder said.
pub fn invalid_params_response(id: RequestId, reason: String) -> (r: Response)
    ensures
        r@ == failure(id@, ErrorKind::InvalidParams, reason@),
{
    Response::new_err(id, ErrorKind::InvalidParams, reason)
}

/// The response with which a worker ends a request: the cancel response
/// where the request's flag was set, else the handler's result.
pub fn finish_response(id: RequestId, canceled: bool, result: String) -> (r: Response)
    ensures
        r@ == (if canceled {
            failure(id@, ErrorKind::RequestCanceled, "canceled by client"@)
        } else {
            success(id@, result@)
        }),
{
    if canceled {
        cancel_response(id)
    } else {
        Response::new_ok(id, result)
    }
}

/// A request of the client: its id, its method and its parameters as JSON
/// text.
#[derive(Debug, PartialEq, Eq)]
pub struct Request {
    pub id: RequestId,
    pub method: String,
    pub params: String,
}

/// A notification of the client.
#[derive(Debug, PartialEq, Eq)]
pub struct Notification {
    pub method: String,
    pub params: String,
}

/// The requests that the server handles.
#[derive(Clone, Copy, Debug, PartialEq, Eq, Structural)]
pub enum RequestKind {
    DocumentLink,
    FoldingRange,
    References,
    Hover,
    DocumentSymbol,
    WorkspaceSymbol,
    Completion,
    CompletionResolve,
    GotoDefinition,
    PrepareRename,
    Rename,
    DocumentHighlight,
    Formatting,
    Build,
    ForwardSearch,
    SemanticTokensRange,
}

impl RequestKind {
    /// The method name of the request.
    pub open spec fn method_name(self) -> Seq<char> {
        match self {
            RequestKind::DocumentLink => "textDocument/documentLink"@,
            RequestKind::FoldingRange => "textDocument/foldingRange"@,
            RequestKind::References => "textDocument/references"@,
            RequestKind::Hover => "textDocument/hover"@,
            RequestKind::DocumentSymbol => "textDocument/documentSymbol"@,
            RequestKind::WorkspaceSymbol => "workspace/symbol"@,
            RequestKind::Completion => "textDocument/completion"@,
            RequestKind::CompletionResolve => "completionItem/resolve"@,
            RequestKind::GotoDefinition => "textDocument/definition"@,
            RequestKind::PrepareRename => "textDocument/prepareRename"@,
            RequestKind::Rename => "textDocument/rename"@,
            RequestKind::DocumentHighlight => "textDocument/documentHighlight"@,
            RequestKind::Formatting => "textDocument/formatting"@,
            RequestKind::Build => "textDocument/build"@,
            RequestKind::ForwardSearch => "textDocument/forwardSearch"@,
            RequestKind::SemanticTokensRange => "textDocument/semanticTokens/range"@,
        }
    }

    /// The method name of the request.
    pub fn method(self) -> (r: &'static str)
        ensures
            r@ == self.method_name(),
    {
        match self {
            RequestKind::DocumentLink => "textDocument/documentLink",
            RequestKind::FoldingRange => "textDocument/foldingRange",
            RequestKind::References => "textDocument/references",
            RequestKind::Hover => "textDocument/hover",
            RequestKind::DocumentSymbol => "textDocument/documentSymbol",
            RequestKind::WorkspaceSymbol => "workspace/symbol",
            RequestKind::Completion => "textDocument/completion",
            RequestKind::CompletionResolve => "completionItem/resolve",
            RequestKind::GotoDefinition => "textDocument/definition",
            RequestKind::PrepareRename => "textDocument/prepareRename",
            RequestKind::Rename => "textDocument/rename",
            RequestKind::DocumentHighlight => "textDocument/documentHighlight",
            RequestKind::Formatting => "textDocument/formatting",
            RequestKind::Build => "textDocument/build",
            RequestKind::ForwardSearch => "textDocument/forwardSearch",
            RequestKind::SemanticTokensRange => "textDocument/semanticTokens/range",
        }
    }

    /// Whether the request is about one document and is handled over the
    /// documents related to it. The other requests work on the whole
    /// workspace.
    pub open spec fn needs_document(self) -> bool {
        self != RequestKind::WorkspaceSymbol && self != RequestKind::CompletionResolve
    }

    /// Whether the request is about one document.
    pub fn is_document_request(self) -> (r: bool)
        ensures
            r == self.needs_document(),
    {
        match self {
            RequestKind::WorkspaceSymbol => false,
            RequestKind::CompletionResolve => false,
            _ => true,
        }
    }
}

/// The request handlers in the order in which the router tries them.
pub open spec fn request_order() -> Seq<RequestKind> {
    seq![
        RequestKind::DocumentLink,
        RequestKind::FoldingRange,
        RequestKind::References,
        RequestKind::Hover,
        RequestKind::DocumentSymbol,
        RequestKind::WorkspaceSymbol,
        RequestKind::Completion,
        RequestKind::CompletionResolve,
        RequestKind::GotoDefinition,
        RequestKind::PrepareRename,
        RequestKind::Rename,
        RequestKind::DocumentHighlight,
        RequestKind::Formatting,
        RequestKind::Build,
        RequestKind::ForwardSearch,
        RequestKind::SemanticTokensRange,
    ]
}

/// The request handlers in the order in which the router tries them.
pub fn request_kinds() -> (r: Vec<RequestKind>)
    ensures
        r@ == request_order(),
{
    let r = vec![
        RequestKind::DocumentLink,
        RequestKind::FoldingRange,
        RequestKind::References,
        RequestKind::Hover,
        RequestKind::DocumentSymbol,
        RequestKind::WorkspaceSymbol,
        RequestKind::Completion,
        RequestKind::CompletionResolve,
        RequestKind::GotoDefinition,
        RequestKind::PrepareRename,
        RequestKind::Rename,
        RequestKind::DocumentHighlight,
        RequestKind::Formatting,
        RequestKind::Build,
        RequestKind::ForwardSearch,
        RequestKind::SemanticTokensRange,
    ];
    assert(r@ =~= request_order());
    r
}

/// The notifications that the server handles.
#[derive(Clone, Copy, Debug, PartialEq, Eq, Structural)]
pub enum NotificationKind {
    Cancel,
    DidChangeConfiguration,
    DidOpen,
    DidChange,
    DidSave,
    DidClose,
}

impl NotificationKind {
    /// The method name of the notification.
    pub open spec fn method_name(self) -> Seq<char> {
        match self {
            NotificationKind::Cancel => "$/cancelRequest"@,
            NotificationKind::DidChangeConfiguration => "workspace/didChangeConfiguration"@,
            NotificationKind::DidOpen => "textDocument/didOpen"@,
            NotificationKind::DidChange => "textDocument/didChange"@,
            NotificationKind::DidSave => "textDocument/didSave"@,
            NotificationKind::DidClose => "textDocument/didClose"@,
        }
    }

    /// The method name of the notification.
    pub fn method(self) -> (r: &'static str)
        ensures
            r@ == self.method_name(),
    {
        match self {
            NotificationKind::Cancel => "$/cancelRequest",
            NotificationKind::DidChangeConfiguration => "workspace/didChangeConfiguration",
            NotificationKind::DidOpen => "textDocument/didOpen",
            NotificationKind::DidChange => "textDocument/didChange",
            NotificationKind::DidSave => "textDocument/didSave",
            NotificationKind::DidClose => "textDocument/didClose",
        }
    }
}

/// The notification handlers in the order in which the router tries them.
pub open spec fn notification_order() -> Seq<NotificationKind> {
    seq![
        NotificationKind::Cancel,
        NotificationKind::DidChangeConfiguration,
        NotificationKind::DidOpen,
        NotificationKind::DidChange,
        NotificationKind::DidSave,
        NotificationKind::DidClose,
    ]
}

/// The notification handlers in the order in which the router tries them.
pub fn notification_kinds() -> (r: Vec<NotificationKind>)
    ensures
        r@ == notification_order(),
{
    let r = vec![
        NotificationKind::Cancel,
        NotificationKind::DidChangeConfiguration,
        NotificationKind::DidOpen,
        NotificationKind::DidChange,
        NotificationKind::DidSave,
        NotificationKind::DidClose,
    ];
    assert(r@ =~= notification_order());
    r
}

/// A request on its way through a chain of handlers. Each handler is offered
/// the request under its method name; the first whose name matches takes
/// the request, and the later ones find nothing.
pub struct RequestDispatcher {
    request: Option<Request>,
}

impl RequestDispatcher {
    /// The request that no handler has taken yet, if any.
    pub closed spec fn pending(&self) -> Option<Request> {
        self.request
    }

    /// A dispatcher that carries `request`.
    pub fn new(request: Request) -> (d: RequestDispatcher)
        ensures
            d.pending() == Some(request),
    {
        RequestDispatcher { request: Some(request) }
    }

    /// Offers the request to the handler of `method`. Where the request is
    /// still there and has this method, the handler gets it and the
    /// dispatcher is left empty; otherwise the dispatcher goes on unchanged.
    pub fn on(self, method: &str) -> (r: (RequestDispatcher, Option<Request>))
        ensures
            self.pending().is_some() && self.pending().unwrap().method@ == method@ ==> r.1
                == self.pending() && r.0.pending().is_none(),
            !(self.pending().is_some() && self.pending().unwrap().method@ == method@) ==> r.1.is_none()
                && r.0.pending() == self.pending(),
    {
        match self.request {
            Some(request) => {
                if str_is(request.method.as_str(), method) {
                    (RequestDispatcher { request: None }, Some(request))
                } else {
                    (RequestDispatcher { request: Some(request) }, None)
                }
            },
            None => (RequestDispatcher { request: None }, None),
        }
    }

    /// Ends the chain: a request that no handler took is answered with the
    /// error that its method was not found.
    pub fn default(self) -> (r: Option<Response>)
        ensures
            self.pending().is_none() ==> r.is_none(),
            self.pending().is_some() ==> r.is_some() && r.unwrap()@ == failure(
                self.pending().unwrap().id@,
                ErrorKind::MethodNotFound,
                "unknown request"@,
            ),
    {
        match self.request {
            Some(request) => Some(method_not_found_response(request.id)),
            None => None,
        }
    }
}

/// A notification on its way through a chain of handlers.
pub struct NotificationDispatcher {
    notification: Option<Notification>,
}

impl NotificationDispatcher {
    /// The notification that no handler has taken yet, if any.
    pub closed spec fn pending(&self) -> Option<Notification> {
        self.notification
    }

    /// A dispatcher that carries `notification`.
    pub fn new(notification: Notification) -> (d: NotificationDispatcher)
        ensures
            d.pending() == Some(notification),
    {
        NotificationDispatcher { notification: Some(notification) }
    }

    /// Offers the notification to the handler of `method`.
    pub fn on(self, method: &str) -> (r: (NotificationDispatcher, Option<Notification>))
        ensures
            self.pending().is_some() && self.pending().unwrap().method@ == method@ ==> r.1
                == self.pending() && r.0.pending().is_none(),
            !(self.pending().is_some() && self.pending().unwrap().method@ == method@) ==> r.1.is_none()
                && r.0.pending() == self.pending(),
    {
        match self.notification {
            Some(notification) => {
                if str_is(notification.method.as_str(), method) {
                    (NotificationDispatcher { notification: None }, Some(notification))
                } else {
                    (NotificationDispatcher { notification: Some(notification) }, None)
                }
            },
            None => (NotificationDispatcher { notification: None }, None),
        }
    }

    /// Ends the chain. A notification that no handler took is dropped: the
    /// result says whether there was one.
    pub fn default(self) -> (unhandled: bool)
        ensures
            unhandled == self.pending().is_some(),
    {
        self.notification.is_some()
    }
}

/// Whether `index` is the first handler in `names` whose name is `method`.
pub open spec fn first_match(names: Seq<Seq<char>>, method: Seq<char>, index: int) -> bool {
    &&& 0 <= index < names.len()
    &&& names[index] == method
    &&& forall|j: int| 0 <= j < index ==> names[j] != method
}

/// Whether no handler in `names` has the name `method`.
pub open spec fn no_match(names: Seq<Seq<char>>, method: Seq<char>) -> bool {
    forall|j: int| 0 <= j < names.len() ==> names[j] != method
}

/// The method names of the request handlers, in the router's order.
pub open spec fn request_names() -> Seq<Seq<char>> {
    Seq::new(request_order().len(), |i: int| request_order()[i].method_name())
}

/// The method names of the notification handlers, in the router's order.
pub open spec fn notification_names() -> Seq<Seq<char>> {
    Seq::new(notification_order().len(), |i: int| notification_order()[i].method_name())
}

/// What the router made of a request.
#[derive(Debug, PartialEq, Eq)]
pub enum RoutedRequest {
    /// The handler of `kind` takes the request.
    Handler { kind: RequestKind, request: Request },
    /// No handler takes it: this response goes back.
    Unhandled { response: Response },
}

/// Sends `request` through the chain of request handlers. At most one handler
/// takes it: the first in the router's order whose method name is that of
/// the request. A request that none takes is answered with the error that
/// its method was not found.
pub fn route_request(request: Request) -> (r: RoutedRequest)
    ensures
        match r {
            RoutedRequest::Handler { kind, request: taken } => {
                &&& taken == request
                &&& exists|i: int|
                    first_match(request_names(), request.method@, i) && request_order()[i] == kind
            },
            RoutedRequest::Unhandled { response } => {
                &&& no_match(request_names(), request.method@)
                &&& response@ == failure(request.id@, ErrorKind::MethodNotFound, "unknown request"@)
            },
        },
{
    let kinds = request_kinds();
    let mut dispatcher = RequestDispatcher::new(request);
    let mut i: usize = 0;
    while i < kinds.len()
        invariant
            i <= kinds@.len(),
            kinds@ == request_order(),
            dispatcher.pending() == Some(request),
            forall|j: int| 0 <= j < i ==> request_names()[j] != request.method@,
        decreases kinds@.len() - i,
    {
        let kind = kinds[i];
        let (rest, taken) = dispatcher.on(kind.method());
        match taken {
            Some(taken) => {
                assert(first_match(request_names(), request.method@, i as int));
                return RoutedRequest::Handler { kind, request: taken };
            },
            None => {
                dispatcher = rest;
            },
        }
        i += 1;
    }
    match dispatcher.default() {
        Some(response) => RoutedRequest::Unhandled { response },
        None => vstd::pervasive::unreached(),
    }
}

/// Sends `notification` through the chain of notification handlers. The
/// first handler in the router's order whose method name is that of the
/// notification takes it; one that none takes is dropped.
pub fn route_notification(notification: Notification) -> (r: Option<
    (NotificationKind, Notification),
>)
    ensures
        match r {
            Some((kind, taken)) => {
                &&& taken == notification
                &&& exists|i: int|
                    first_match(notification_names(), notification.method@, i)
                        && notification_order()[i] == kind
            },
            None => no_match(notification_names(), notification.method@),
        },
{
    let kinds = notification_kinds();
    let mut dispatcher = NotificationDispatcher::new(notification);
    let mut i: usize = 0;
    while i < kinds.len()
        invariant
            i <= kinds@.len(),
            kinds@ == notification_order(),
            dispatcher.pending() == Some(notification),
            forall|j: int| 0 <= j < i ==> notification_names()[j] != notification.method@,
        decreases kinds@.len() - i,
    {
        let kind = kinds[i];
        let (rest, taken) = dispatcher.on(kind.method());
        match taken {
            Some(taken) => {
                assert(first_match(notification_names(), notification.method@, i as int));
                return Some((kind, taken));
            },
            None => {
                dispatcher = rest;
            },
        }
        i += 1;
    }
    let _unhandled = dispatcher.default();
    None
}

} // verus!
