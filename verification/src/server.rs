//! The orchestrator: what the server decides on each message, as a function
//! from its state and the message to the next state and a list of actions
//! that the driving program performs.
use vstd::prelude::*;
use crate::diagnostics::ChannelKind;
use crate::diagnostics::DiagnosticsManager;
use crate::ident::Key;
use crate::ident::RequestId;
use crate::ident::RequestIdView;
use crate::ident::Uri;
use crate::protocol::failure;
use crate::protocol::invalid_params_response;
use crate::protocol::route_request;
use crate::protocol::route_notification;
use crate::protocol::success;
use crate::protocol::unknown_document_response;
use crate::protocol::ErrorKind;
use crate::protocol::Notification;
use crate::protocol::NotificationKind;
use crate::protocol::Outcome;
use crate::protocol::OutcomeView;
use crate::protocol::Request;
use crate::protocol::RequestKind;
use crate::protocol::Response;
use crate::protocol::ResponseView;
use crate::protocol::RoutedRequest;
use crate::req_queue::flags_kept;
use crate::req_queue::CancelFlag;
use crate::req_queue::QueueError;
use crate::req_queue::ReplyChannel;
use crate::req_queue::ReqQueue;
use crate::text::str_is;
use crate::text::string_views;
use crate::text::uri_views;
use crate::workspace::Document;
use crate::workspace::DocumentLanguage;
use crate::workspace::DocumentView;
use crate::workspace::OpenHandler;
use crate::workspace::ParsedTree;
use crate::workspace::Workspace;
use crate::workspace::WorkspaceSource;
use crate::workspace::WorkspaceSubset;

verus! {

/// When the external linter runs.
#[derive(Clone, Copy, Debug, PartialEq, Eq, Structural)]
pub struct ChktexOptions {
    pub on_edit: bool,
    pub on_open_and_save: bool,
}

/// The configuration that the client supplies.
#[derive(Clone, Copy, Debug, PartialEq, Eq, Structural)]
pub struct Options {
    /// The debounce delay of the static channel, in milliseconds.
    pub diagnostics_delay: Option<u64>,
    pub chktex: ChktexOptions,
}

impl Options {
    /// The configuration of a client that supplied none.
    pub fn new() -> (r: Options)
        ensures
            r == (Options {
                diagnostics_delay: None,
                chktex: ChktexOptions { on_edit: false, on_open_and_save: false },
            }),
    {
        Options {
            diagnostics_delay: None,
            chktex: ChktexOptions { on_edit: false, on_open_and_save: false },
        }
    }
}

/// What the server reads of the capabilities of the client.
#[derive(Clone, Copy, Debug, PartialEq, Eq, Structural)]
pub struct ClientCapabilities {
    /// Whether the client answers a request for its configuration.
    pub pull_configuration: bool,
    /// Whether the client lets the server register for changes of its
    /// configuration.
    pub push_configuration: bool,
}

/// The name and version that the client gave of itself.
#[derive(Debug, PartialEq, Eq)]
pub struct ClientInfo {
    pub name: String,
    pub version: Option<String>,
}

/// The client's name and version as contracts see them.
pub struct ClientInfoView {
    pub name: Seq<char>,
    pub version: Option<Seq<char>>,
}

impl View for ClientInfo {
    type V = ClientInfoView;

    open spec fn view(&self) -> ClientInfoView {
        ClientInfoView {
            name: self.name@,
            version: match self.version {
                Some(version) => Some(version@),
                None => None,
            },
        }
    }
}

impl Clone for ClientInfo {
    fn clone(&self) -> (r: Self)
        ensures
            r@ == self@,
    {
        ClientInfo {
            name: self.name.clone(),
            version: match &self.version {
                Some(version) => Some(version.clone()),
                None => None,
            },
        }
    }
}

/// What the client gave of itself, if anything, as contracts see it.
pub open spec fn client_info_view(info: Option<ClientInfo>) -> Option<ClientInfoView> {
    match info {
        Some(info) => Some(info@),
        None => None,
    }
}

/// How the client sends the text of a changed document.
#[derive(Clone, Copy, Debug, PartialEq, Eq, Structural)]
pub enum TextDocumentSyncKind {
    Nothing,
    Full,
    Incremental,
}

/// What the server tells the client that it can do.
#[derive(Debug, PartialEq, Eq)]
pub struct ServerCapabilities {
    pub sync_open_close: bool,
    pub sync_change: TextDocumentSyncKind,
    pub sync_save_include_text: bool,
    pub document_link_resolve_provider: bool,
    pub folding_range_provider: bool,
    pub definition_provider: bool,
    pub references_provider: bool,
    pub hover_provider: bool,
    pub completion_resolve_provider: bool,
    pub completion_trigger_characters: Vec<String>,
    pub document_symbol_provider: bool,
    pub workspace_symbol_provider: bool,
    pub rename_prepare_provider: bool,
    pub document_highlight_provider: bool,
    pub document_formatting_provider: bool,
    pub semantic_tokens_range_provider: bool,
}

/// The characters after which the client asks for completion.
pub open spec fn trigger_characters() -> Seq<Seq<char>> {
    seq!["\\"@, "{"@, "}"@, "@"@, "/"@, " "@]
}

impl ServerCapabilities {
    /// Whether these are the capabilities that the server advertises, with
    /// semantic tokens for ranges as `semantic_tokens` says.
    pub open spec fn advertised(&self, semantic_tokens: bool) -> bool {
        &&& self.sync_open_close
        &&& self.sync_change == TextDocumentSyncKind::Full
        &&& !self.sync_save_include_text
        &&& !self.document_link_resolve_provider
        &&& self.folding_range_provider
        &&& self.definition_provider
        &&& self.references_provider
        &&& self.hover_provider
        &&& self.completion_resolve_provider
        &&& string_views(self.completion_trigger_characters@) == trigger_characters()
        &&& self.document_symbol_provider
        &&& self.workspace_symbol_provider
        &&& self.rename_prepare_provider
        &&& self.document_highlight_provider
        &&& self.document_formatting_provider
        &&& self.semantic_tokens_range_provider == semantic_tokens
    }
}

/// The capabilities that the server advertises: full-document sync with
/// open and close, save without text, and every feature that it routes.
pub fn capabilities(semantic_tokens: bool) -> (r: ServerCapabilities)
    ensures
        r.advertised(semantic_tokens),
{
    let mut triggers: Vec<String> = Vec::new();
    triggers.push(String::from_str("\\"));
    triggers.push(String::from_str("{"));
    triggers.push(String::from_str("}"));
    triggers.push(String::from_str("@"));
    triggers.push(String::from_str("/"));
    triggers.push(String::from_str(" "));
    assert(string_views(triggers@) =~= trigger_characters());
    ServerCapabilities {
        sync_open_close: true,
        sync_change: TextDocumentSyncKind::Full,
        sync_save_include_text: false,
        document_link_resolve_provider: false,
        folding_range_provider: true,
        definition_provider: true,
        references_provider: true,
        hover_provider: true,
        completion_resolve_provider: true,
        completion_trigger_characters: triggers,
        document_symbol_provider: true,
        workspace_symbol_provider: true,
        rename_prepare_provider: true,
        document_highlight_provider: true,
        document_formatting_provider: true,
        semantic_tokens_range_provider: semantic_tokens,
    }
}

/// The answer to the initialize request.
#[derive(Debug, PartialEq, Eq)]
pub struct InitializeResult {
    pub capabilities: ServerCapabilities,
    pub server_name: String,
    pub server_version: String,
}

/// The work that a request hands to the pool.
#[derive(Debug, PartialEq, Eq)]
pub struct Job {
    pub id: RequestId,
    pub kind: RequestKind,
    pub params: String,
    pub flag: CancelFlag,
    /// The documents related to the one that the request is about; nothing
    /// for a request on the whole workspace.
    pub subset: Option<WorkspaceSubset>,
}

/// A job as contracts see it.
pub struct JobView {
    pub id: RequestIdView,
    pub kind: RequestKind,
    pub params: Seq<char>,
    pub flag: CancelFlag,
    pub subset: Option<Seq<DocumentView>>,
}

impl View for Job {
    type V = JobView;

    open spec fn view(&self) -> JobView {
        JobView {
            id: self.id@,
            kind: self.kind,
            params: self.params@,
            flag: self.flag,
            subset: match self.subset {
                Some(subset) => Some(subset@),
                None => None,
            },
        }
    }
}

/// What the driving program does for the server.
#[derive(Debug, PartialEq, Eq)]
pub enum Action {
    /// Send this response to the client.
    Respond { response: Response },
    /// Hand this job to the pool.
    Submit { job: Job },
    /// Send an analyze message for this revision on this channel.
    Analyze { channel: ChannelKind, document: Document },
    /// Send this answer of the client on the channel that awaits it.
    Deliver { reply: ReplyChannel, outcome: Outcome },
    /// Ask the client for its configuration, in the pool.
    PullConfiguration,
    /// Detect the installed distribution, in the pool.
    DetectDistribution,
    /// Ask the client to send configuration changes, in the pool.
    RegisterConfigCapability,
    /// Start the worker of this channel.
    StartWorker { channel: ChannelKind },
    /// Wait until the pool has finished its jobs.
    JoinPool,
    /// Send the shutdown message on this channel.
    StopWorker { channel: ChannelKind },
    /// Wait until the worker of this channel has ended.
    JoinWorker { channel: ChannelKind },
}

/// An action as contracts see it.
pub enum ActionView {
    Respond { response: ResponseView },
    Submit { job: JobView },
    Analyze { channel: ChannelKind, document: DocumentView },
    Deliver { reply: ReplyChannel, outcome: OutcomeView },
    PullConfiguration,
    DetectDistribution,
    RegisterConfigCapability,
    StartWorker { channel: ChannelKind },
    JoinPool,
    StopWorker { channel: ChannelKind },
    JoinWorker { channel: ChannelKind },
}

impl View for Action {
    type V = ActionView;

    open spec fn view(&self) -> ActionView {
        match self {
            Action::Respond { response } => ActionView::Respond { response: response@ },
            Action::Submit { job } => ActionView::Submit { job: job@ },
            Action::Analyze { channel, document } => ActionView::Analyze {
                channel: *channel,
                document: document@,
            },
            Action::Deliver { reply, outcome } => ActionView::Deliver {
                reply: *reply,
                outcome: outcome@,
            },
            Action::PullConfiguration => ActionView::PullConfiguration,
            Action::DetectDistribution => ActionView::DetectDistribution,
            Action::RegisterConfigCapability => ActionView::RegisterConfigCapability,
            Action::StartWorker { channel } => ActionView::StartWorker { channel: *channel },
            Action::JoinPool => ActionView::JoinPool,
            Action::StopWorker { channel } => ActionView::StopWorker { channel: *channel },
            Action::JoinWorker { channel } => ActionView::JoinWorker { channel: *channel },
        }
    }
}

/// The views of a list of actions.
pub open spec fn action_views(actions: Seq<Action>) -> Seq<ActionView> {
    Seq::new(actions.len(), |i: int| actions[i]@)
}

/// Whether `action` answers the request `id`, now or through the pool.
pub open spec fn answers(action: ActionView, id: RequestIdView) -> bool {
    match action {
        ActionView::Respond { response } => response.id == id,
        ActionView::Submit { job } => job.id == id,
        _ => false,
    }
}

/// Whether `actions` settle the request `id`: exactly one of them responds
/// to it or submits its job, and no other responds or submits at all.
pub open spec fn settles(actions: Seq<ActionView>, id: RequestIdView) -> bool {
    exists|i: int|
        0 <= i < actions.len() && answers(#[trigger] actions[i], id) && forall|j: int|
            0 <= j < actions.len() && j != i ==> !(#[trigger] actions[j] is Respond)
                && !(actions[j] is Submit)
}

/// What the server does when it shuts down: it lets the pool finish, stops
/// both diagnostics workers and waits for them.
pub open spec fn shutdown_sequence() -> Seq<ActionView> {
    seq![
        ActionView::JoinPool,
        ActionView::StopWorker { channel: ChannelKind::Static },
        ActionView::StopWorker { channel: ChannelKind::External },
        ActionView::JoinWorker { channel: ChannelKind::Static },
        ActionView::JoinWorker { channel: ChannelKind::External },
    ]
}

/// The phases of the server's life.
#[derive(Clone, Copy, Debug, PartialEq, Eq, Structural)]
pub enum Phase {
    /// The handshake has not been made.
    Starting,
    /// Messages are taken.
    Serving,
    /// The shutdown request came: no message is taken any more.
    Stopped,
}

/// What `begin_request` made of a request.
#[derive(Debug, PartialEq, Eq)]
pub enum Begun {
    /// The request is settled by these actions.
    Done { actions: Vec<Action> },
    /// The request is registered and a handler takes it: its parameters are
    /// to be decoded as that handler's, and handed to `dispatch_request`.
    Decode { kind: RequestKind, request: Request, flag: CancelFlag },
}

/// What decoding the parameters of a request gave.
#[derive(Debug, PartialEq, Eq)]
pub enum Decoded {
    /// The parameters did not have the handler's shape.
    Invalid { reason: String },
    /// They name this document.
    Document { uri: Uri },
    /// They name no document.
    Plain,
}

/// The state of the server.
pub struct Server {
    queue: ReqQueue,
    workspace: Workspace,
    manager: DiagnosticsManager,
    options: Options,
    phase: Phase,
    load_resolver: bool,
    pulling: bool,
    client_capabilities: ClientCapabilities,
    client_info: Option<ClientInfo>,
}

impl Server {
    /// The requests in flight.
    pub closed spec fn queue(&self) -> ReqQueue {
        self.queue
    }

    /// The documents.
    pub closed spec fn workspace(&self) -> Workspace {
        self.workspace
    }

    /// The latest findings.
    pub closed spec fn manager(&self) -> DiagnosticsManager {
        self.manager
    }

    /// The configuration.
    pub closed spec fn options(&self) -> Options {
        self.options
    }

    /// The phase.
    pub closed spec fn phase(&self) -> Phase {
        self.phase
    }

    /// Whether the distribution is to be detected at start.
    pub closed spec fn load_resolver(&self) -> bool {
        self.load_resolver
    }

    /// Whether the client has been asked for its configuration and has not
    /// answered yet.
    pub closed spec fn pulling(&self) -> bool {
        self.pulling
    }

    /// The capabilities of the client, as the handshake captured them.
    pub closed spec fn client_capabilities(&self) -> ClientCapabilities {
        self.client_capabilities
    }

    /// What the client gave of itself in the handshake.
    pub closed spec fn client_info(&self) -> Option<ClientInfo> {
        self.client_info
    }

    /// What the client gave of itself in the handshake, as contracts see it.
    pub open spec fn client_info_view(&self) -> Option<ClientInfoView> {
        client_info_view(self.client_info())
    }

    /// Whether `self` and `other` hold the same of the client.
    pub open spec fn same_client(&self, other: &Server) -> bool {
        &&& self.client_capabilities() == other.client_capabilities()
        &&& self.client_info() == other.client_info()
    }

    /// Validity of the parts.
    pub open spec fn wf(&self) -> bool {
        &&& self.queue().wf()
        &&& self.workspace().wf()
    }

    /// Whether only the queue may differ between `self` and `other`.
    pub open spec fn same_but_queue(&self, other: &Server) -> bool {
        &&& self.workspace() == other.workspace()
        &&& self.manager() == other.manager()
        &&& self.options() == other.options()
        &&& self.phase() == other.phase()
        &&& self.load_resolver() == other.load_resolver()
        &&& self.pulling() == other.pulling()
        &&& self.same_client(other)
    }

    /// Whether only the workspace may differ between `self` and `other`.
    pub open spec fn same_but_workspace(&self, other: &Server) -> bool {
        &&& self.queue() == other.queue()
        &&& self.manager() == other.manager()
        &&& self.options() == other.options()
        &&& self.phase() == other.phase()
        &&& self.load_resolver() == other.load_resolver()
        &&& self.pulling() == other.pulling()
        &&& self.same_client(other)
    }

    /// A server before the handshake, with nothing in flight, no document
    /// and no finding.
    pub fn new(load_resolver: bool) -> (s: Server)
        ensures
            s.wf(),
            s.phase() == Phase::Starting,
            s.load_resolver() == load_resolver,
            !s.pulling(),
            s.client_capabilities() == (ClientCapabilities {
                pull_configuration: false,
                push_configuration: false,
            }),
            s.client_info().is_none(),
            s.options() == (Options {
                diagnostics_delay: None,
                chktex: ChktexOptions { on_edit: false, on_open_and_save: false },
            }),
            s.workspace()@ == Seq::<DocumentView>::empty(),
            s.workspace().handlers() == Seq::<OpenHandler>::empty(),
            s.queue().incoming() == Map::<RequestIdView, CancelFlag>::empty(),
            s.queue().outgoing() == Map::<RequestIdView, ReplyChannel>::empty(),
            s.queue().flags() == Seq::<bool>::empty(),
    {
        Server {
            queue: ReqQueue::new(),
            workspace: Workspace::new(),
            manager: DiagnosticsManager::new(),
            options: Options::new(),
            phase: Phase::Starting,
            load_resolver,
            pulling: false,
            client_capabilities: ClientCapabilities {
                pull_configuration: false,
                push_configuration: false,
            },
            client_info: None,
        }
    }

    /// A snapshot of the configuration.
    pub fn current_options(&self) -> (r: Options)
        ensures
            r == self.options(),
    {
        self.options
    }

    /// The phase.
    pub fn current_phase(&self) -> (r: Phase)
        ensures
            r == self.phase(),
    {
        self.phase
    }

    /// The capabilities of the client, as the handshake captured them.
    pub fn current_client_capabilities(&self) -> (r: ClientCapabilities)
        ensures
            r == self.client_capabilities(),
    {
        self.client_capabilities
    }

    /// What the client gave of itself in the handshake.
    pub fn current_client_info(&self) -> (r: Option<ClientInfo>)
        ensures
            client_info_view(r) == self.client_info_view(),
    {
        match &self.client_info {
            Some(info) => Some(info.clone()),
            None => None,
        }
    }

    /// The documents, to read.
    pub fn documents(&self) -> (r: &Workspace)
        ensures
            *r == self.workspace(),
    {
        &self.workspace
    }

    /// The findings, to read.
    pub fn findings(&self) -> (r: &DiagnosticsManager)
        ensures
            *r == self.manager(),
    {
        &self.manager
    }

    /// Stores the findings of a channel for `uri`.
    pub fn store_findings(
        &mut self,
        channel: ChannelKind,
        uri: Uri,
        diagnostics: Vec<crate::diagnostics::Diagnostic>,
    )
        requires
            old(self).wf(),
        ensures
            final(self).wf(),
            final(self).queue() == old(self).queue(),
            final(self).workspace() == old(self).workspace(),
            final(self).options() == old(self).options(),
            final(self).phase() == old(self).phase(),
            final(self).load_resolver() == old(self).load_resolver(),
            final(self).same_client(old(self)),
            final(self).pulling() == old(self).pulling(),
            channel == ChannelKind::Static ==> {
                &&& final(self).manager().static_slot(uri@) == crate::diagnostics::diagnostic_views(
                    diagnostics@,
                )
                &&& forall|o: Seq<char>|
                    o != uri@ ==> #[trigger] final(self).manager().static_slot(o) == old(
                        self,
                    ).manager().static_slot(o)
                &&& forall|o: Seq<char>| #[trigger]
                    final(self).manager().external_slot(o) == old(self).manager().external_slot(o)
            },
            channel == ChannelKind::External ==> {
                &&& final(self).manager().external_slot(uri@)
                    == crate::diagnostics::diagnostic_views(diagnostics@)
                &&& forall|o: Seq<char>|
                    o != uri@ ==> #[trigger] final(self).manager().external_slot(o) == old(
                        self,
                    ).manager().external_slot(o)
                &&& forall|o: Seq<char>| #[trigger]
                    final(self).manager().static_slot(o) == old(self).manager().static_slot(o)
            },
    {
        match channel {
            ChannelKind::Static => self.manager.update_static(uri, diagnostics),
            ChannelKind::External => self.manager.update_chktex(uri, diagnostics),
        }
    }

    /// Registers the handler that forwards every opened document to the
    /// static channel, and asks for the two workers to be started.
    pub fn register_diagnostics_handler(&mut self) -> (actions: Vec<Action>)
        requires
            old(self).wf(),
        ensures
            final(self).wf(),
            final(self).same_but_workspace(old(self)),
            final(self).workspace()@ == old(self).workspace()@,
            final(self).workspace().handlers() == old(self).workspace().handlers().push(
                OpenHandler { number: old(self).workspace().handlers().len() as u64 },
            ),
            action_views(actions@) == seq![
                ActionView::StartWorker { channel: ChannelKind::Static },
                ActionView::StartWorker { channel: ChannelKind::External },
            ],
    {
        let number = self.workspace.handler_count() as u64;
        self.workspace.register_open_handler(OpenHandler { number });
        let mut actions: Vec<Action> = Vec::new();
        actions.push(Action::StartWorker { channel: ChannelKind::Static });
        actions.push(Action::StartWorker { channel: ChannelKind::External });
        assert(action_views(actions@) =~= seq![
            ActionView::StartWorker { channel: ChannelKind::Static },
            ActionView::StartWorker { channel: ChannelKind::External },
        ]);
        actions
    }

    /// The handshake: the server captures the capabilities of the client
    /// and what the client gave of itself, and gives the answer to the
    /// initialize request and what is to be started after it: the detection
    /// of the distribution where the server was made to load the resolver,
    /// the two diagnostics workers, and the registration for changes of the
    /// configuration where the client supports it. The server then serves.
    pub fn initialize(
        &mut self,
        client: ClientCapabilities,
        info: Option<ClientInfo>,
        version: String,
        semantic_tokens: bool,
    ) -> (r: (InitializeResult, Vec<Action>))
        requires
            old(self).wf(),
        ensures
            final(self).wf(),
            final(self).phase() == Phase::Serving,
            final(self).client_capabilities() == client,
            final(self).client_info() == info,
            final(self).client_info_view() == client_info_view(info),
            final(self).queue() == old(self).queue(),
            final(self).manager() == old(self).manager(),
            final(self).options() == old(self).options(),
            final(self).load_resolver() == old(self).load_resolver(),
            final(self).pulling() == old(self).pulling(),
            final(self).workspace()@ == old(self).workspace()@,
            final(self).workspace().handlers() == old(self).workspace().handlers().push(
                OpenHandler { number: old(self).workspace().handlers().len() as u64 },
            ),
            r.0.capabilities.advertised(semantic_tokens),
            r.0.server_name@ == "TexLab"@,
            r.0.server_version@ == version@,
            action_views(r.1@) == startup(old(self).load_resolver(), client.push_configuration),
    {
        let result = InitializeResult {
            capabilities: capabilities(semantic_tokens),
            server_name: String::from_str("TexLab"),
            server_version: version,
        };
        self.client_capabilities = client;
        self.client_info = info;
        let mut actions: Vec<Action> = Vec::new();
        if self.load_resolver {
            actions.push(Action::DetectDistribution);
        }
        let mut started = self.register_diagnostics_handler();
        let ghost before = actions@;
        let ghost added = started@;
        assert(added.len() == action_views(added).len());
        assert(action_views(added)[0] == added[0]@ && action_views(added)[1] == added[1]@);
        actions.append(&mut started);
        assert(actions@ == before + added);
        if client.push_configuration {
            actions.push(Action::RegisterConfigCapability);
        }
        self.phase = Phase::Serving;
        assert(action_views(actions@) =~= startup(
            old(self).load_resolver(),
            client.push_configuration,
        )) by {
            let views = action_views(actions@);
            let first = before.len() as int;
            assert forall|i: int| 0 <= i < first implies views[i] == before[i]@ by {
                assert(actions@[i] == before[i]);
            }
            assert(actions@[first] == added[0]);
            assert(actions@[first + 1] == added[1]);
        }
        (result, actions)
    }

    /// Registers the incoming request `id` with a new cancel flag.
    pub fn register_incoming_request(&mut self, id: RequestId) -> (r: Result<
        CancelFlag,
        QueueError,
    >)
        requires
            old(self).wf(),
        ensures
            final(self).wf(),
            final(self).same_but_queue(old(self)),
            final(self).queue().outgoing() == old(self).queue().outgoing(),
            old(self).queue().incoming().contains_key(id@) ==> {
                &&& r == Err::<CancelFlag, QueueError>(QueueError::DuplicateId)
                &&& final(self).queue().incoming() == old(self).queue().incoming()
                &&& final(self).queue().flags() == old(self).queue().flags()
            },
            !old(self).queue().incoming().contains_key(id@) ==> {
                &&& r == Ok::<CancelFlag, QueueError>(
                    CancelFlag { slot: old(self).queue().flags().len() as usize },
                )
                &&& final(self).queue().incoming() == old(self).queue().incoming().insert(
                    id@,
                    r.unwrap(),
                )
                &&& final(self).queue().flags() == old(self).queue().flags().push(false)
                &&& !final(self).queue().is_set(r.unwrap())
            },
            flags_kept(old(self).queue().flags(), final(self).queue().flags()),
    {
        self.queue.register_incoming(id)
    }

    /// The client withdrew the request `id`: its flag is set and its entry
    /// leaves the registry. Returns the flag, or nothing for an id that is
    /// not registered, in which case nothing changes.
    pub fn cancel(&mut self, id: &RequestId) -> (r: Option<CancelFlag>)
        requires
            old(self).wf(),
        ensures
            final(self).wf(),
            final(self).same_but_queue(old(self)),
            final(self).queue().outgoing() == old(self).queue().outgoing(),
            final(self).queue().incoming() == old(self).queue().incoming().remove(id@),
            old(self).queue().incoming().contains_key(id@) ==> {
                &&& r == Some(old(self).queue().incoming()[id@])
                &&& final(self).queue().is_set(r.unwrap())
                &&& final(self).queue().flags() == old(self).queue().flags().update(
                    r.unwrap().slot as int,
                    true,
                )
            },
            !old(self).queue().incoming().contains_key(id@) ==> {
                &&& r.is_none()
                &&& final(self).queue().flags() == old(self).queue().flags()
            },
            flags_kept(old(self).queue().flags(), final(self).queue().flags()),
    {
        self.queue.cancel(id)
    }

    /// Whether `flag` is set: what a worker polls.
    pub fn is_canceled(&self, flag: CancelFlag) -> (r: bool)
        requires
            self.wf(),
        ensures
            r == self.queue().is_set(flag),
    {
        self.queue.is_canceled(flag)
    }

    /// Takes over the configuration that the client sent.
    pub fn did_change_configuration(&mut self, options: Options)
        ensures
            final(self).options() == options,
            final(self).queue() == old(self).queue(),
            final(self).workspace() == old(self).workspace(),
            final(self).manager() == old(self).manager(),
            final(self).phase() == old(self).phase(),
            final(self).load_resolver() == old(self).load_resolver(),
            final(self).same_client(old(self)),
            final(self).pulling() == old(self).pulling(),
    {
        self.options = options;
    }

    /// The pull of the configuration has ended: with the configuration that
    /// the client sent, which is taken over, or without one. The next
    /// request about a document pulls again.
    pub fn configuration_pulled(&mut self, pulled: Option<Options>)
        ensures
            !final(self).pulling(),
            final(self).options() == (match pulled {
                Some(options) => options,
                None => old(self).options(),
            }),
            final(self).queue() == old(self).queue(),
            final(self).workspace() == old(self).workspace(),
            final(self).manager() == old(self).manager(),
            final(self).phase() == old(self).phase(),
            final(self).load_resolver() == old(self).load_resolver(),
            final(self).same_client(old(self)),
    {
        self.pulling = false;
        match pulled {
            Some(options) => {
                self.options = options;
            },
            None => {},
        }
    }

    /// The client opened a document: it enters the workspace as the
    /// client's, in the language that `language_id` names or else as LaTeX.
    /// Every open handler hears of it on the static channel, and the
    /// external linter runs where the configuration asks for it on open.
    pub fn did_open(&mut self, uri: Uri, text: String, language_id: &str, tree: ParsedTree) -> (r:
        Vec<Action>)
        requires
            old(self).wf(),
        ensures
            final(self).wf(),
            final(self).same_but_workspace(old(self)),
            stores(
                old(self).workspace(),
                final(self).workspace(),
                client_revision(
                    uri@,
                    text@,
                    language_or_latex(DocumentLanguage::of_id(language_id@)),
                    tree,
                ),
            ),
            action_views(r@) == analyses(
                old(self).workspace().handlers().len(),
                client_revision(
                    uri@,
                    text@,
                    language_or_latex(DocumentLanguage::of_id(language_id@)),
                    tree,
                ),
                old(self).options().chktex.on_open_and_save,
            ),
    {
        let language = match DocumentLanguage::by_language_id(language_id) {
            Some(language) => language,
            None => DocumentLanguage::Latex,
        };
        let lint = self.options.chktex.on_open_and_save;
        self.store(uri, text, language, tree, lint)
    }

    /// The client changed a document: the new text replaces the old revision
    /// and keeps its language; a document that was not open enters as LaTeX.
    /// Every open handler hears of it on the static channel, and the
    /// external linter runs where the configuration asks for it on edits.
    pub fn did_change(&mut self, uri: Uri, text: String, tree: ParsedTree) -> (r: Vec<Action>)
        requires
            old(self).wf(),
        ensures
            final(self).wf(),
            final(self).same_but_workspace(old(self)),
            stores(
                old(self).workspace(),
                final(self).workspace(),
                client_revision(uri@, text@, language_kept(old(self).workspace(), uri@), tree),
            ),
            action_views(r@) == analyses(
                old(self).workspace().handlers().len(),
                client_revision(uri@, text@, language_kept(old(self).workspace(), uri@), tree),
                old(self).options().chktex.on_edit,
            ),
    {
        let language = match self.workspace.get(&uri) {
            Some(document) => document.language,
            None => DocumentLanguage::Latex,
        };
        let lint = self.options.chktex.on_edit;
        self.store(uri, text, language, tree, lint)
    }

    /// Opens the revision as the client's and lists the analyses to ask for.
    fn store(
        &mut self,
        uri: Uri,
        text: String,
        language: DocumentLanguage,
        tree: ParsedTree,
        lint: bool,
    ) -> (r: Vec<Action>)
        requires
            old(self).wf(),
        ensures
            final(self).wf(),
            final(self).same_but_workspace(old(self)),
            stores(
                old(self).workspace(),
                final(self).workspace(),
                client_revision(uri@, text@, language, tree),
            ),
            action_views(r@) == analyses(
                old(self).workspace().handlers().len(),
                client_revision(uri@, text@, language, tree),
                lint,
            ),
    {
        let ghost revision = client_revision(uri@, text@, language, tree);
        let (document, handlers) = self.workspace.open(
            uri,
            text,
            language,
            WorkspaceSource::Client,
            tree,
        );
        let mut actions: Vec<Action> = Vec::new();
        let mut i: usize = 0;
        while i < handlers.len()
            invariant
                i <= handlers@.len(),
                document@ == revision,
                actions@.len() == i,
                forall|j: int|
                    0 <= j < i ==> (#[trigger] actions@[j])@ == (ActionView::Analyze {
                        channel: ChannelKind::Static,
                        document: revision,
                    }),
            decreases handlers@.len() - i,
        {
            actions.push(Action::Analyze { channel: ChannelKind::Static, document: document.clone() });
            i += 1;
        }
        if lint {
            actions.push(Action::Analyze { channel: ChannelKind::External, document });
        }
        assert(action_views(actions@) =~= analyses(handlers@.len(), revision, lint));
        actions
    }

    /// The client saved a document: the external linter runs on its latest
    /// revision where the configuration asks for it on save and the
    /// workspace holds the document.
    pub fn did_save(&self, uri: &Uri) -> (r: Vec<Action>)
        requires
            self.wf(),
        ensures
            action_views(r@) == (if self.options().chktex.on_open_and_save && self.workspace().has(
                uri@,
            ) {
                seq![
                    ActionView::Analyze {
                        channel: ChannelKind::External,
                        document: self.workspace().doc(uri@),
                    },
                ]
            } else {
                Seq::<ActionView>::empty()
            }),
    {
        let mut actions: Vec<Action> = Vec::new();
        if self.options.chktex.on_open_and_save {
            match self.workspace.get(uri) {
                Some(document) => {
                    actions.push(Action::Analyze { channel: ChannelKind::External, document });
                },
                None => {},
            }
        }
        assert(action_views(actions@) =~= (if self.options().chktex.on_open_and_save
            && self.workspace().has(uri@) {
            seq![
                ActionView::Analyze {
                    channel: ChannelKind::External,
                    document: self.workspace().doc(uri@),
                },
            ]
        } else {
            Seq::<ActionView>::empty()
        }));
        actions
    }

    /// The client closed a document: it leaves the workspace if the client
    /// had opened it.
    pub fn did_close(&mut self, uri: &Uri)
        requires
            old(self).wf(),
        ensures
            final(self).wf(),
            final(self).same_but_workspace(old(self)),
            final(self).workspace().handlers() == old(self).workspace().handlers(),
            old(self).workspace().has(uri@) && old(self).workspace().doc(uri@).source
                == WorkspaceSource::Client ==> final(self).workspace()@ == old(
                self,
            ).workspace()@.remove(old(self).workspace().uris().index_of(uri@)),
            !(old(self).workspace().has(uri@) && old(self).workspace().doc(uri@).source
                == WorkspaceSource::Client) ==> final(self).workspace()@ == old(self).workspace()@,
    {
        self.workspace.close(uri);
    }

    /// A document that the server found on disk while following an include
    /// enters the workspace as the server's, unless the workspace holds a
    /// document with this URI already, which then stays as it is. Every open
    /// handler hears of a document that entered on the static channel.
    pub fn did_discover(
        &mut self,
        uri: Uri,
        text: String,
        language: DocumentLanguage,
        tree: ParsedTree,
    ) -> (r: Vec<Action>)
        requires
            old(self).wf(),
        ensures
            final(self).wf(),
            final(self).same_but_workspace(old(self)),
            final(self).workspace().handlers() == old(self).workspace().handlers(),
            old(self).workspace().has(uri@) ==> {
                &&& final(self).workspace()@ == old(self).workspace()@
                &&& action_views(r@) == Seq::<ActionView>::empty()
            },
            !old(self).workspace().has(uri@) ==> {
                &&& final(self).workspace()@ == old(self).workspace()@.push(
                    revision(uri@, text@, language, WorkspaceSource::Server, tree),
                )
                &&& action_views(r@) == analyses(
                    old(self).workspace().handlers().len(),
                    revision(uri@, text@, language, WorkspaceSource::Server, tree),
                    false,
                )
            },
    {
        let mut actions: Vec<Action> = Vec::new();
        if self.workspace.contains(&uri) {
            assert(action_views(actions@) =~= Seq::<ActionView>::empty());
            return actions;
        }
        let ghost wanted = revision(uri@, text@, language, WorkspaceSource::Server, tree);
        let (document, handlers) = self.workspace.open(
            uri,
            text,
            language,
            WorkspaceSource::Server,
            tree,
        );
        let mut i: usize = 0;
        while i < handlers.len()
            invariant
                i <= handlers@.len(),
                document@ == wanted,
                actions@.len() == i,
                forall|j: int|
                    0 <= j < i ==> (#[trigger] actions@[j])@ == (ActionView::Analyze {
                        channel: ChannelKind::Static,
                        document: wanted,
                    }),
            decreases handlers@.len() - i,
        {
            actions.push(Action::Analyze { channel: ChannelKind::Static, document: document.clone() });
            i += 1;
        }
        assert(action_views(actions@) =~= analyses(handlers@.len(), wanted, false));
        actions
    }

    /// What a handler of a request about the document `uri` gets: the
    /// parameters and the documents related to `uri`. Nothing where the
    /// workspace does not hold `uri`.
    pub fn feature_request(&self, uri: &Uri, params: String) -> (r: Option<FeatureRequest>)
        requires
            self.wf(),
        ensures
            r.is_some() == self.workspace().has(uri@),
            r.is_some() ==> r.unwrap().params == params && self.workspace().is_closure(
                uri@,
                r.unwrap().subset@,
            ),
    {
        match self.workspace.subset(uri) {
            Some(subset) => Some(FeatureRequest { params, subset }),
            None => None,
        }
    }

    /// Starts the handler of a request about the document `uri`. The
    /// configuration is pulled first, where the client answers such a
    /// request and no pull is under way. Where the
    /// workspace holds the document, the job goes to the pool with the
    /// documents related to it; where it does not, the request is answered
    /// with an error at once and leaves the registry.
    pub fn handle_feature_request(
        &mut self,
        id: RequestId,
        kind: RequestKind,
        params: String,
        uri: &Uri,
        flag: CancelFlag,
    ) -> (r: Vec<Action>)
        requires
            old(self).wf(),
        ensures
            final(self).wf(),
            final(self).workspace() == old(self).workspace(),
            final(self).manager() == old(self).manager(),
            final(self).options() == old(self).options(),
            final(self).phase() == old(self).phase(),
            final(self).load_resolver() == old(self).load_resolver(),
            final(self).same_client(old(self)),
            final(self).pulling() == (old(self).pulling() || old(
                self,
            ).client_capabilities().pull_configuration),
            final(self).queue().outgoing() == old(self).queue().outgoing(),
            final(self).queue().flags() == old(self).queue().flags(),
            starts_feature(*old(self), *final(self), action_views(r@), id@, kind, params@, uri@, flag),
            settles(action_views(r@), id@),
    {
        let mut actions: Vec<Action> = Vec::new();
        if !self.pulling && self.client_capabilities.pull_configuration {
            self.pulling = true;
            actions.push(Action::PullConfiguration);
        }
        let ghost pulled = action_views(actions@);
        assert(pulled =~= pull(
            old(self).pulling(),
            old(self).client_capabilities().pull_configuration,
        ));
        let ghost before = actions@;
        match self.feature_request(uri, params) {
            Some(request) => {
                actions.push(
                    Action::Submit {
                        job: Job {
                            id,
                            kind,
                            params: request.params,
                            flag,
                            subset: Some(request.subset),
                        },
                    },
                );
            },
            None => {
                let _flag = self.queue.complete_incoming(&id);
                actions.push(Action::Respond { response: unknown_document_response(id) });
            },
        }
        proof {
            let views = action_views(actions@);
            let last = views.len() - 1;
            assert(views[last] == actions@[last]@);
            assert(views =~= pulled.push(actions@[last]@)) by {
                assert forall|i: int| 0 <= i < pulled.len() implies views[i] == pulled[i] by {
                    assert(actions@[i] == before[i]);
                }
            }
            assert(answers(views[last], id@));
            assert(views.drop_last() =~= pulled);
            assert(views.last() == actions@[last]@);
            assert(self.workspace() == old(self).workspace());
        }
        actions
    }

    /// Takes a request of the client. A server that does not serve refuses
    /// it. The shutdown request is answered, the server stops and the
    /// shutdown sequence follows. An id that is in flight already is
    /// refused, and so is a method that no handler takes. Any other request
    /// is registered with a new cancel flag and goes on to be decoded.
    pub fn begin_request(&mut self, request: Request) -> (r: Begun)
        requires
            old(self).wf(),
        ensures
            final(self).wf(),
            final(self).workspace() == old(self).workspace(),
            final(self).manager() == old(self).manager(),
            final(self).options() == old(self).options(),
            final(self).load_resolver() == old(self).load_resolver(),
            final(self).same_client(old(self)),
            final(self).pulling() == old(self).pulling(),
            final(self).queue().outgoing() == old(self).queue().outgoing(),
            flags_kept(old(self).queue().flags(), final(self).queue().flags()),
            old(self).phase() != Phase::Serving ==> {
                &&& r is Done
                &&& action_views(r->actions@) == seq![
                    ActionView::Respond {
                        response: failure(
                            request.id@,
                            ErrorKind::InvalidRequest,
                            "server is not serving"@,
                        ),
                    },
                ]
                &&& final(self).phase() == old(self).phase()
                &&& final(self).queue() == old(self).queue()
            },
            old(self).phase() == Phase::Serving && request.method@ == "shutdown"@ ==> {
                &&& r is Done
                &&& action_views(r->actions@) == seq![
                    ActionView::Respond { response: success(request.id@, "null"@) },
                ] + shutdown_sequence()
                &&& final(self).phase() == Phase::Stopped
                &&& final(self).queue() == old(self).queue()
            },
            old(self).phase() == Phase::Serving && request.method@ != "shutdown"@ ==> {
                &&& final(self).phase() == Phase::Serving
                &&& old(self).queue().incoming().contains_key(request.id@) ==> {
                    &&& r is Done
                    &&& action_views(r->actions@) == seq![
                        ActionView::Respond {
                            response: failure(
                                request.id@,
                                ErrorKind::InvalidRequest,
                                "duplicate request id"@,
                            ),
                        },
                    ]
                    &&& final(self).queue() == old(self).queue()
                }
                &&& !old(self).queue().incoming().contains_key(request.id@)
                    && crate::protocol::no_match(crate::protocol::request_names(), request.method@)
                    ==> {
                    &&& r is Done
                    &&& action_views(r->actions@) == seq![
                        ActionView::Respond {
                            response: failure(
                                request.id@,
                                ErrorKind::MethodNotFound,
                                "unknown request"@,
                            ),
                        },
                    ]
                    &&& final(self).queue() == old(self).queue()
                }
                &&& !old(self).queue().incoming().contains_key(request.id@)
                    && !crate::protocol::no_match(crate::protocol::request_names(), request.method@)
                    ==> {
                    &&& r is Decode
                    &&& r->request == request
                    &&& exists|i: int|
                        crate::protocol::first_match(
                            crate::protocol::request_names(),
                            request.method@,
                            i,
                        ) && crate::protocol::request_order()[i] == r->kind
                    &&& r->flag == (CancelFlag { slot: old(self).queue().flags().len() as usize })
                    &&& final(self).queue().incoming() == old(self).queue().incoming().insert(
                        request.id@,
                        r->flag,
                    )
                    &&& final(self).queue().flags() == old(self).queue().flags().push(false)
                }
            },
            r is Done ==> settles(action_views(r->actions@), request.id@),
    {
        let mut actions: Vec<Action> = Vec::new();
        match self.phase {
            Phase::Serving => {},
            _ => {
                actions.push(
                    Action::Respond {
                        response: Response::new_err(
                            request.id,
                            ErrorKind::InvalidRequest,
                            String::from_str("server is not serving"),
                        ),
                    },
                );
                proof {
                    let views = action_views(actions@);
                    assert(views =~= seq![actions@[0]@]);
                    assert(answers(views[0], request.id@));
                }
                return Begun::Done { actions };
            },
        }
        if str_is(request.method.as_str(), "shutdown") {
            self.phase = Phase::Stopped;
            actions.push(
                Action::Respond { response: Response::new_ok(request.id, String::from_str("null")) },
            );
            actions.push(Action::JoinPool);
            actions.push(Action::StopWorker { channel: ChannelKind::Static });
            actions.push(Action::StopWorker { channel: ChannelKind::External });
            actions.push(Action::JoinWorker { channel: ChannelKind::Static });
            actions.push(Action::JoinWorker { channel: ChannelKind::External });
            proof {
                let views = action_views(actions@);
                assert(views =~= seq![
                    ActionView::Respond { response: success(request.id@, "null"@) },
                ] + shutdown_sequence());
                assert(answers(views[0], request.id@));
            }
            return Begun::Done { actions };
        }
        if self.queue.is_registered(&request.id) {
            actions.push(
                Action::Respond {
                    response: Response::new_err(
                        request.id,
                        ErrorKind::InvalidRequest,
                        String::from_str("duplicate request id"),
                    ),
                },
            );
            proof {
                let views = action_views(actions@);
                assert(views =~= seq![actions@[0]@]);
                assert(answers(views[0], request.id@));
            }
            return Begun::Done { actions };
        }
        match route_request(request) {
            RoutedRequest::Unhandled { response } => {
                actions.push(Action::Respond { response });
                proof {
                    let views = action_views(actions@);
                    assert(views =~= seq![actions@[0]@]);
                    assert(answers(views[0], request.id@));
                }
                Begun::Done { actions }
            },
            RoutedRequest::Handler { kind, request: taken } => {
                let id = taken.id.duplicate();
                match self.queue.register_incoming(id) {
                    Ok(flag) => {
                        proof {
                            let i = choose|i: int|
                                crate::protocol::first_match(
                                    crate::protocol::request_names(),
                                    request.method@,
                                    i,
                                ) && crate::protocol::request_order()[i] == kind;
                            assert(crate::protocol::request_names()[i] == request.method@);
                        }
                        Begun::Decode { kind, request: taken, flag }
                    },
                    Err(_) => Begun::Done { actions: no_actions_for(taken.id) },
                }
            },
        }
    }

    /// Starts the handler of a registered request once its parameters are
    /// decoded. Parameters of the wrong shape, or without the document that
    /// the handler needs, are answered with an error and the request leaves
    /// the registry. A request on the whole workspace goes to the pool as it
    /// is; one about a document goes through `handle_feature_request`.
    pub fn dispatch_request(
        &mut self,
        kind: RequestKind,
        request: Request,
        flag: CancelFlag,
        decoded: Decoded,
    ) -> (r: Vec<Action>)
        requires
            old(self).wf(),
        ensures
            final(self).wf(),
            final(self).workspace() == old(self).workspace(),
            final(self).manager() == old(self).manager(),
            final(self).options() == old(self).options(),
            final(self).phase() == old(self).phase(),
            final(self).load_resolver() == old(self).load_resolver(),
            final(self).same_client(old(self)),
            final(self).queue().outgoing() == old(self).queue().outgoing(),
            final(self).queue().flags() == old(self).queue().flags(),
            settles(action_views(r@), request.id@),
            decoded is Invalid ==> {
                &&& action_views(r@) == seq![
                    ActionView::Respond {
                        response: failure(
                            request.id@,
                            ErrorKind::InvalidParams,
                            decoded->reason@,
                        ),
                    },
                ]
                &&& final(self).queue().incoming() == old(self).queue().incoming().remove(
                    request.id@,
                )
            },
            !(decoded is Invalid) && !kind.needs_document() ==> {
                &&& action_views(r@) == seq![
                    ActionView::Submit {
                        job: JobView {
                            id: request.id@,
                            kind,
                            params: request.params@,
                            flag,
                            subset: None,
                        },
                    },
                ]
                &&& final(self).queue().incoming() == old(self).queue().incoming()
            },
            decoded is Plain && kind.needs_document() ==> {
                &&& action_views(r@) == seq![
                    ActionView::Respond {
                        response: failure(
                            request.id@,
                            ErrorKind::InvalidParams,
                            "missing document URI"@,
                        ),
                    },
                ]
                &&& final(self).queue().incoming() == old(self).queue().incoming().remove(
                    request.id@,
                )
            },
            decoded is Document && kind.needs_document() ==> final(self).pulling() == (old(
                self,
            ).pulling() || old(self).client_capabilities().pull_configuration) && starts_feature(
                *old(self),
                *final(self),
                action_views(r@),
                request.id@,
                kind,
                request.params@,
                decoded->uri@,
                flag,
            ),
            !(decoded is Document && kind.needs_document()) ==> final(self).pulling() == old(
                self,
            ).pulling(),
    {
        let mut actions: Vec<Action> = Vec::new();
        match decoded {
            Decoded::Invalid { reason } => {
                let _flag = self.queue.complete_incoming(&request.id);
                actions.push(
                    Action::Respond { response: invalid_params_response(request.id, reason) },
                );
            },
            Decoded::Document { uri } => {
                if kind.is_document_request() {
                    return self.handle_feature_request(
                        request.id,
                        kind,
                        request.params,
                        &uri,
                        flag,
                    );
                }
                actions.push(
                    Action::Submit {
                        job: Job { id: request.id, kind, params: request.params, flag, subset: None },
                    },
                );
            },
            Decoded::Plain => {
                if kind.is_document_request() {
                    let _flag = self.queue.complete_incoming(&request.id);
                    actions.push(
                        Action::Respond {
                            response: invalid_params_response(
                                request.id,
                                String::from_str("missing document URI"),
                            ),
                        },
                    );
                } else {
                    actions.push(
                        Action::Submit {
                            job: Job {
                                id: request.id,
                                kind,
                                params: request.params,
                                flag,
                                subset: None,
                            },
                        },
                    );
                }
            },
        }
        proof {
            let views = action_views(actions@);
            assert(views =~= seq![actions@[0]@]);
            assert(answers(views[0], request.id@));
        }
        actions
    }

    /// Where the documentation of a completion item comes from: for a
    /// package or a class, the component database under the label of the
    /// item; for a citation, the BibTeX document that the workspace holds
    /// under its URI; nothing for a citation of another document, which may
    /// have been closed since, and for any other item.
    pub fn completion_resolve(&self, data: CompletionItemData, label: &str) -> (r:
        DocumentationSource)
        requires
            self.wf(),
        ensures
            r@ == documentation_source(self.workspace(), data, label@),
    {
        match data {
            CompletionItemData::Package => DocumentationSource::Component {
                name: String::from_str(label),
            },
            CompletionItemData::Class => DocumentationSource::Component {
                name: String::from_str(label),
            },
            CompletionItemData::Citation { uri, key } => match self.workspace.get(&uri) {
                Some(document) => match document.language {
                    DocumentLanguage::Bibtex => DocumentationSource::Citation { document, key },
                    DocumentLanguage::Latex => DocumentationSource::Nothing,
                },
                None => DocumentationSource::Nothing,
            },
            CompletionItemData::Other => DocumentationSource::Nothing,
        }
    }

    /// Resolves the completion item of the request `id` in the worker. An
    /// item whose data is there and was decoded gives the source of its
    /// documentation, and the request goes on to `finish`. An item without
    /// data, or with data that was not decoded, is a fault of this request
    /// alone: it is answered with an internal error and leaves the
    /// registry; nothing else of the server changes, so that later
    /// requests are served.
    pub fn resolve_completion_item(
        &mut self,
        id: RequestId,
        data: Option<CompletionItemData>,
        label: &str,
    ) -> (r: Resolved)
        requires
            old(self).wf(),
        ensures
            final(self).wf(),
            final(self).same_but_queue(old(self)),
            final(self).queue().outgoing() == old(self).queue().outgoing(),
            final(self).queue().flags() == old(self).queue().flags(),
            match data {
                Some(decoded) => {
                    &&& r is Source
                    &&& r->source@ == documentation_source(old(self).workspace(), decoded, label@)
                    &&& final(self).queue().incoming() == old(self).queue().incoming()
                },
                None => {
                    &&& r is Fault
                    &&& r->response@ == failure(
                        id@,
                        ErrorKind::InternalError,
                        "invalid completion item data"@,
                    )
                    &&& final(self).queue().incoming() == old(self).queue().incoming().remove(
                        id@,
                    )
                },
            },
    {
        match data {
            Some(decoded) => Resolved::Source { source: self.completion_resolve(decoded, label) },
            None => Resolved::Fault {
                response: self.abort(id, String::from_str("invalid completion item data")),
            },
        }
    }

    /// Ends the session where it has not ended: the server stops, and the
    /// shutdown sequence is to be performed. A server that has stopped
    /// already asks for nothing more.
    pub fn shutdown(&mut self) -> (r: Vec<Action>)
        ensures
            final(self).phase() == Phase::Stopped,
            final(self).queue() == old(self).queue(),
            final(self).workspace() == old(self).workspace(),
            final(self).manager() == old(self).manager(),
            final(self).options() == old(self).options(),
            final(self).load_resolver() == old(self).load_resolver(),
            final(self).pulling() == old(self).pulling(),
            final(self).same_client(old(self)),
            action_views(r@) == (if old(self).phase() == Phase::Stopped {
                Seq::<ActionView>::empty()
            } else {
                shutdown_sequence()
            }),
    {
        let mut actions: Vec<Action> = Vec::new();
        match self.phase {
            Phase::Stopped => {},
            _ => {
                self.phase = Phase::Stopped;
                actions.push(Action::JoinPool);
                actions.push(Action::StopWorker { channel: ChannelKind::Static });
                actions.push(Action::StopWorker { channel: ChannelKind::External });
                actions.push(Action::JoinWorker { channel: ChannelKind::Static });
                actions.push(Action::JoinWorker { channel: ChannelKind::External });
            },
        }
        assert(action_views(actions@) =~= (if old(self).phase() == Phase::Stopped {
            Seq::<ActionView>::empty()
        } else {
            shutdown_sequence()
        }));
        actions
    }

    /// Whether `notification` ends the session: it is the exit notification
    /// and the server has stopped. After the shutdown request the client
    /// owes this notification and no other message.
    pub fn ends_on(&self, notification: &Notification) -> (r: bool)
        ensures
            r == (self.phase() == Phase::Stopped && notification.method@ == "exit"@),
    {
        match self.phase {
            Phase::Stopped => str_is(notification.method.as_str(), "exit"),
            _ => false,
        }
    }

    /// The response that ends a request whose handler returned `result`: the
    /// cancel response where the flag is set, else the result.
    pub open spec fn finished(
        &self,
        id: RequestIdView,
        flag: CancelFlag,
        result: Seq<char>,
    ) -> ResponseView {
        if self.queue().is_set(flag) {
            failure(id, ErrorKind::RequestCanceled, "canceled by client"@)
        } else {
            success(id, result)
        }
    }

    /// Ends a request whose handler returned `result`: the request leaves
    /// the registry, and the response is the cancel response where the flag
    /// is set, else the result.
    pub fn finish(&mut self, id: RequestId, flag: CancelFlag, result: String) -> (r: Response)
        requires
            old(self).wf(),
        ensures
            final(self).wf(),
            final(self).same_but_queue(old(self)),
            final(self).queue().outgoing() == old(self).queue().outgoing(),
            final(self).queue().flags() == old(self).queue().flags(),
            final(self).queue().incoming() == old(self).queue().incoming().remove(id@),
            r@ == old(self).finished(id@, flag, result@),
    {
        let canceled = self.queue.is_canceled(flag);
        let _flag = self.queue.complete_incoming(&id);
        crate::protocol::finish_response(id, canceled, result)
    }

    /// Ends a request whose handler failed: the request leaves the registry
    /// and is answered with an internal error that carries `reason`.
    pub fn abort(&mut self, id: RequestId, reason: String) -> (r: Response)
        requires
            old(self).wf(),
        ensures
            final(self).wf(),
            final(self).same_but_queue(old(self)),
            final(self).queue().outgoing() == old(self).queue().outgoing(),
            final(self).queue().flags() == old(self).queue().flags(),
            final(self).queue().incoming() == old(self).queue().incoming().remove(id@),
            r@ == failure(id@, ErrorKind::InternalError, reason@),
    {
        let _flag = self.queue.complete_incoming(&id);
        Response::new_err(id, ErrorKind::InternalError, reason)
    }

    /// Takes a notification of the client: the handler that takes it, with
    /// the notification. A server that does not serve takes none, and one
    /// that no handler takes is dropped.
    pub fn process_notification(&self, notification: Notification) -> (r: Option<
        (NotificationKind, Notification),
    >)
        ensures
            self.phase() != Phase::Serving ==> r.is_none(),
            self.phase() == Phase::Serving ==> (match r {
                Some((kind, taken)) => {
                    &&& taken == notification
                    &&& exists|i: int|
                        crate::protocol::first_match(
                            crate::protocol::notification_names(),
                            notification.method@,
                            i,
                        ) && crate::protocol::notification_order()[i] == kind
                },
                None => crate::protocol::no_match(
                    crate::protocol::notification_names(),
                    notification.method@,
                ),
            }),
    {
        match self.phase {
            Phase::Serving => route_notification(notification),
            _ => None,
        }
    }

    /// Registers a request that the server sends to the client, with the
    /// channel on which its answer is awaited.
    pub fn send_request(&mut self, id: RequestId, reply: ReplyChannel) -> (r: Result<
        (),
        QueueError,
    >)
        requires
            old(self).wf(),
        ensures
            final(self).wf(),
            final(self).same_but_queue(old(self)),
            final(self).queue().incoming() == old(self).queue().incoming(),
            final(self).queue().flags() == old(self).queue().flags(),
            old(self).queue().outgoing().contains_key(id@) ==> {
                &&& r == Err::<(), QueueError>(QueueError::DuplicateId)
                &&& final(self).queue().outgoing() == old(self).queue().outgoing()
            },
            !old(self).queue().outgoing().contains_key(id@) ==> {
                &&& r == Ok::<(), QueueError>(())
                &&& final(self).queue().outgoing() == old(self).queue().outgoing().insert(
                    id@,
                    reply,
                )
            },
    {
        self.queue.register_outgoing(id, reply)
    }

    /// Takes the client's answer to a request of the server: it is to be
    /// delivered on the channel that awaits it, and the request leaves the
    /// registry. An answer to a request that is not in flight is an error.
    pub fn process_response(&mut self, id: &RequestId, outcome: Outcome) -> (r: Result<
        Action,
        QueueError,
    >)
        requires
            old(self).wf(),
        ensures
            final(self).wf(),
            final(self).same_but_queue(old(self)),
            final(self).queue().incoming() == old(self).queue().incoming(),
            final(self).queue().flags() == old(self).queue().flags(),
            final(self).queue().outgoing() == old(self).queue().outgoing().remove(id@),
            old(self).queue().outgoing().contains_key(id@) ==> r.is_ok() && r.unwrap()@ == (
            ActionView::Deliver { reply: old(self).queue().outgoing()[id@], outcome: outcome@ }),
            !old(self).queue().outgoing().contains_key(id@) ==> r == Err::<Action, QueueError>(
                QueueError::UnknownId,
            ),
    {
        match self.queue.complete_outgoing(id) {
            Ok(reply) => Ok(Action::Deliver { reply, outcome }),
            Err(e) => Err(e),
        }
    }
}

/// What a completion item carries to be resolved later.
#[derive(Debug, PartialEq, Eq)]
pub enum CompletionItemData {
    Package,
    Class,
    Citation { uri: Uri, key: String },
    Other,
}

/// Where the documentation of a completion item comes from.
#[derive(Debug, PartialEq, Eq)]
pub enum DocumentationSource {
    /// The component database, under this name.
    Component { name: String },
    /// The entry `key` of this BibTeX document, rendered.
    Citation { document: Document, key: String },
    /// The item has no documentation.
    Nothing,
}

/// A source of documentation as contracts see it.
pub enum DocumentationSourceView {
    Component { name: Seq<char> },
    Citation { document: DocumentView, key: Seq<char> },
    Nothing,
}

impl View for DocumentationSource {
    type V = DocumentationSourceView;

    open spec fn view(&self) -> DocumentationSourceView {
        match self {
            DocumentationSource::Component { name } => DocumentationSourceView::Component {
                name: name@,
            },
            DocumentationSource::Citation { document, key } => DocumentationSourceView::Citation {
                document: document@,
                key: key@,
            },
            DocumentationSource::Nothing => DocumentationSourceView::Nothing,
        }
    }
}

/// What became of resolving a completion item.
#[derive(Debug, PartialEq, Eq)]
pub enum Resolved {
    /// The documentation comes from here.
    Source { source: DocumentationSource },
    /// The item could not be resolved: this response ends the request.
    Fault { response: Response },
}

/// Where the documentation of a completion item with this data and label
/// comes from.
pub open spec fn documentation_source(
    workspace: Workspace,
    data: CompletionItemData,
    label: Seq<char>,
) -> DocumentationSourceView {
    match data {
        CompletionItemData::Package => DocumentationSourceView::Component { name: label },
        CompletionItemData::Class => DocumentationSourceView::Component { name: label },
        CompletionItemData::Citation { uri, key } => if workspace.has(uri@) && workspace.doc(
            uri@,
        ).language == DocumentLanguage::Bibtex {
            DocumentationSourceView::Citation { document: workspace.doc(uri@), key: key@ }
        } else {
            DocumentationSourceView::Nothing
        },
        CompletionItemData::Other => DocumentationSourceView::Nothing,
    }
}

/// What a handler of a request about a document works on.
#[derive(Debug, PartialEq, Eq)]
pub struct FeatureRequest {
    pub params: String,
    pub subset: WorkspaceSubset,
}

/// The pull of the configuration that goes before a job: none where a pull
/// is under way, or where the client does not answer such a request.
pub open spec fn pull(pulling: bool, supported: bool) -> Seq<ActionView> {
    if pulling || !supported {
        Seq::empty()
    } else {
        seq![ActionView::PullConfiguration]
    }
}

/// What is started after the handshake: the detection of the distribution
/// if `detect`, the two diagnostics workers, and the registration for
/// changes of the configuration if `register`.
pub open spec fn startup(detect: bool, register: bool) -> Seq<ActionView> {
    (if detect {
        seq![ActionView::DetectDistribution]
    } else {
        Seq::<ActionView>::empty()
    }) + seq![
        ActionView::StartWorker { channel: ChannelKind::Static },
        ActionView::StartWorker { channel: ChannelKind::External },
    ] + (if register {
        seq![ActionView::RegisterConfigCapability]
    } else {
        Seq::<ActionView>::empty()
    })
}

/// What starting the handler of a request about the document `uri` does to
/// the server and asks of the driver: after the pull of the configuration,
/// the job with the documents related to `uri` where the workspace holds
/// it, and else the error response, with which the request leaves the
/// registry.
pub open spec fn starts_feature(
    before: Server,
    after: Server,
    actions: Seq<ActionView>,
    id: RequestIdView,
    kind: RequestKind,
    params: Seq<char>,
    uri: Seq<char>,
    flag: CancelFlag,
) -> bool {
    &&& actions.len() == pull(
        before.pulling(),
        before.client_capabilities().pull_configuration,
    ).len() + 1
    &&& actions.drop_last() == pull(
        before.pulling(),
        before.client_capabilities().pull_configuration,
    )
    &&& if before.workspace().has(uri) {
        &&& after.queue().incoming() == before.queue().incoming()
        &&& actions.last() is Submit
        &&& actions.last()->job.id == id
        &&& actions.last()->job.kind == kind
        &&& actions.last()->job.params == params
        &&& actions.last()->job.flag == flag
        &&& actions.last()->job.subset.is_some()
        &&& before.workspace().is_closure(uri, actions.last()->job.subset.unwrap())
    } else {
        &&& after.queue().incoming() == before.queue().incoming().remove(id)
        &&& actions.last() == (ActionView::Respond {
            response: failure(id, ErrorKind::InternalError, "unknown document URI"@),
        })
    }
}

/// The revision that `open` stores.
pub open spec fn revision(
    uri: Seq<char>,
    text: Seq<char>,
    language: DocumentLanguage,
    source: WorkspaceSource,
    tree: ParsedTree,
) -> DocumentView {
    DocumentView {
        uri,
        text,
        language,
        source,
        includes: uri_views(tree.includes@),
        components: string_views(tree.components@),
    }
}

/// The revision that the client's opening or changing a document stores.
pub open spec fn client_revision(
    uri: Seq<char>,
    text: Seq<char>,
    language: DocumentLanguage,
    tree: ParsedTree,
) -> DocumentView {
    revision(uri, text, language, WorkspaceSource::Client, tree)
}

/// The language that a language id names, or else LaTeX.
pub open spec fn language_or_latex(named: Option<DocumentLanguage>) -> DocumentLanguage {
    match named {
        Some(language) => language,
        None => DocumentLanguage::Latex,
    }
}

/// The language of the document `uri` in `workspace`, or else LaTeX.
pub open spec fn language_kept(workspace: Workspace, uri: Seq<char>) -> DocumentLanguage {
    if workspace.has(uri) {
        workspace.doc(uri).language
    } else {
        DocumentLanguage::Latex
    }
}

/// Whether `after` is `before` with `document` stored: in the place of the
/// revision with the same URI, or at the end.
pub open spec fn stores(before: Workspace, after: Workspace, document: DocumentView) -> bool {
    &&& after.handlers() == before.handlers()
    &&& after@ == (if before.has(document.uri) {
        before@.update(before.uris().index_of(document.uri), document)
    } else {
        before@.push(document)
    })
}

/// The analyses that follow the storing of `document`: one on the static
/// channel for each of the `handlers` open handlers, then one on the
/// external channel if `lint`.
pub open spec fn analyses(handlers: nat, document: DocumentView, lint: bool) -> Seq<ActionView> {
    Seq::new(handlers, |i: int| ActionView::Analyze { channel: ChannelKind::Static, document }) + (
    if lint {
        seq![ActionView::Analyze { channel: ChannelKind::External, document }]
    } else {
        Seq::<ActionView>::empty()
    })
}

/// The refusal of a request id that is in flight.
fn no_actions_for(id: RequestId) -> (r: Vec<Action>)
    ensures
        action_views(r@) == seq![
            ActionView::Respond {
                response: failure(id@, ErrorKind::InvalidRequest, "duplicate request id"@),
            },
        ],
{
    let mut actions: Vec<Action> = Vec::new();
    actions.push(
        Action::Respond {
            response: Response::new_err(
                id,
                ErrorKind::InvalidRequest,
                String::from_str("duplicate request id"),
            ),
        },
    );
    assert(action_views(actions@) =~= seq![actions@[0]@]);
    actions
}

/// A snapshot outlives a later opening of its document: the workspace then
/// holds the new revision under the URI, and the snapshot, which is a value
/// of its own, is the revision that the workspace held before, with the
/// text of that time.
pub proof fn lemma_snapshot_is_kept(
    before: Workspace,
    after: Workspace,
    snapshot: DocumentView,
    revision: DocumentView,
)
    requires
        before.wf(),
        after.wf(),
        before.has(revision.uri),
        snapshot == before.doc(revision.uri),
        stores(before, after, revision),
    ensures
        after.has(revision.uri),
        after.doc(revision.uri) == revision,
        snapshot == before.doc(revision.uri),
        snapshot.text == before.doc(revision.uri).text,
{
    let at = before.uris().index_of(revision.uri);
    assert(before.uris()[at] == revision.uri);
    assert(after@[at] == revision);
    after.lemma_doc_at(at);
}

/// A request that the client withdrew before its handler ended is answered
/// with the cancel response, and with its own id: a flag that is set at the
/// time of the cancel is still set when the handler ends, whatever the queue
/// did in between, and `finish` then gives the cancel response.
pub proof fn lemma_cancel_is_kept(
    at_cancel: Server,
    at_finish: Server,
    id: RequestIdView,
    flag: CancelFlag,
    result: Seq<char>,
)
    requires
        at_cancel.queue().is_set(flag),
        flags_kept(at_cancel.queue().flags(), at_finish.queue().flags()),
    ensures
        at_finish.queue().is_set(flag),
        at_finish.finished(id, flag, result) == failure(
            id,
            ErrorKind::RequestCanceled,
            "canceled by client"@,
        ),
{
}

/// A request that was not withdrawn is answered with the result of its
/// handler, and with its own id.
pub proof fn lemma_result_is_kept(
    at_finish: Server,
    id: RequestIdView,
    flag: CancelFlag,
    result: Seq<char>,
)
    requires
        !at_finish.queue().is_set(flag),
    ensures
        at_finish.finished(id, flag, result) == success(id, result),
        at_finish.finished(id, flag, result).id == id,
{
}

} // verus!
