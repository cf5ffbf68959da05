//! The diagnostics pipeline: the debouncing worker of a channel, the store
//! of the latest results, and what is published from it.
use vstd::prelude::*;
use crate::ident::Key;
use crate::ident::Uri;
use vstd::hash_map::StringHashMap;
use crate::workspace::Document;
use crate::workspace::Workspace;

verus! {

/// The debounce delay of the static channel where none is configured, in
/// milliseconds.
pub const DEFAULT_DIAGNOSTICS_DELAY: u64 = 300;

/// The delay of a channel where none is configured: the static channel
/// waits for the burst to end, the external one does not wait.
pub open spec fn default_delay(kind: ChannelKind) -> u64 {
    match kind {
        ChannelKind::Static => DEFAULT_DIAGNOSTICS_DELAY,
        ChannelKind::External => 0,
    }
}

/// How a worker collects a burst: with a delay it sleeps and then takes what
/// is at hand, without one it takes what is at hand at once.
pub open spec fn collect(delay: u64) -> WorkerAction {
    if delay == 0 {
        WorkerAction::Drain
    } else {
        WorkerAction::SleepThenDrain { millis: delay }
    }
}

/// How grave a finding is.
#[derive(Clone, Copy, Debug, PartialEq, Eq, Structural)]
pub enum Severity {
    Error,
    Warning,
    Information,
    Hint,
}

/// A finding as contracts see it.
pub struct DiagnosticView {
    pub line: u32,
    pub character: u32,
    pub end_line: u32,
    pub end_character: u32,
    pub severity: Severity,
    pub message: Seq<char>,
}

/// A finding in a document.
#[derive(Debug, PartialEq, Eq)]
pub struct Diagnostic {
    pub line: u32,
    pub character: u32,
    pub end_line: u32,
    pub end_character: u32,
    pub severity: Severity,
    pub message: String,
}

impl View for Diagnostic {
    type V = DiagnosticView;

    open spec fn view(&self) -> DiagnosticView {
        DiagnosticView {
            line: self.line,
            character: self.character,
            end_line: self.end_line,
            end_character: self.end_character,
            severity: self.severity,
            message: self.message@,
        }
    }
}

impl Clone for Diagnostic {
    fn clone(&self) -> (r: Self)
        ensures
            r@ == self@,
    {
        Diagnostic {
            line: self.line,
            character: self.character,
            end_line: self.end_line,
            end_character: self.end_character,
            severity: self.severity,
            message: self.message.clone(),
        }
    }
}

/// The views of a sequence of findings.
pub open spec fn diagnostic_views(list: Seq<Diagnostic>) -> Seq<DiagnosticView> {
    Seq::new(list.len(), |i: int| list[i]@)
}

/// Appends copies of the findings of `from` to `to`.
fn append_copies(to: &mut Vec<Diagnostic>, from: &Vec<Diagnostic>)
    ensures
        diagnostic_views(final(to)@) == diagnostic_views(old(to)@) + diagnostic_views(from@),
{
    let mut i: usize = 0;
    while i < from.len()
        invariant
            i <= from@.len(),
            diagnostic_views(to@) == diagnostic_views(old(to)@) + diagnostic_views(from@).subrange(
                0,
                i as int,
            ),
        decreases from@.len() - i,
    {
        let ghost before = to@;
        to.push(from[i].clone());
        assert(diagnostic_views(to@) =~= diagnostic_views(before).push(from@[i as int]@));
        assert(diagnostic_views(from@).subrange(0, i + 1) =~= diagnostic_views(from@).subrange(
            0,
            i as int,
        ).push(from@[i as int]@));
        i += 1;
    }
    assert(diagnostic_views(from@).subrange(0, from@.len() as int) =~= diagnostic_views(from@));
}

/// The latest findings of each channel, by the text of the document's URI.
pub struct DiagnosticsManager {
    static_slots: StringHashMap<Vec<Diagnostic>>,
    external_slots: StringHashMap<Vec<Diagnostic>>,
}

/// What is to be published for one document.
#[derive(Debug, PartialEq, Eq)]
pub struct Publication {
    pub uri: Uri,
    pub diagnostics: Vec<Diagnostic>,
}

impl DiagnosticsManager {
    /// The latest findings of the static channel for `uri`; none where the
    /// channel has not reported on it.
    pub closed spec fn static_slot(&self, uri: Seq<char>) -> Seq<DiagnosticView> {
        if self.static_slots@.contains_key(uri) {
            diagnostic_views(self.static_slots@[uri]@)
        } else {
            Seq::empty()
        }
    }

    /// The latest findings of the external channel for `uri`.
    pub closed spec fn external_slot(&self, uri: Seq<char>) -> Seq<DiagnosticView> {
        if self.external_slots@.contains_key(uri) {
            diagnostic_views(self.external_slots@[uri]@)
        } else {
            Seq::empty()
        }
    }

    /// What is published for `uri`: the findings of the static channel, then
    /// those of the external one.
    pub open spec fn merged(&self, uri: Seq<char>) -> Seq<DiagnosticView> {
        self.static_slot(uri) + self.external_slot(uri)
    }

    /// A manager without findings.
    pub fn new() -> (m: DiagnosticsManager)
        ensures
            forall|uri: Seq<char>| #[trigger] m.static_slot(uri) == Seq::<DiagnosticView>::empty(),
            forall|uri: Seq<char>| #[trigger]
                m.external_slot(uri) == Seq::<DiagnosticView>::empty(),
    {
        DiagnosticsManager {
            static_slots: StringHashMap::new(),
            external_slots: StringHashMap::new(),
        }
    }

    /// Replaces the findings of the static channel for `uri`.
    pub fn update_static(&mut self, uri: Uri, diagnostics: Vec<Diagnostic>)
        ensures
            final(self).static_slot(uri@) == diagnostic_views(diagnostics@),
            forall|o: Seq<char>|
                o != uri@ ==> #[trigger] final(self).static_slot(o) == old(self).static_slot(o),
            forall|o: Seq<char>| #[trigger]
                final(self).external_slot(o) == old(self).external_slot(o),
    {
        self.static_slots.insert(String::from_str(uri.as_str()), diagnostics);
    }

    /// Replaces the findings of the external channel for `uri`.
    pub fn update_chktex(&mut self, uri: Uri, diagnostics: Vec<Diagnostic>)
        ensures
            final(self).external_slot(uri@) == diagnostic_views(diagnostics@),
            forall|o: Seq<char>|
                o != uri@ ==> #[trigger] final(self).external_slot(o) == old(self).external_slot(o),
            forall|o: Seq<char>| #[trigger] final(self).static_slot(o) == old(self).static_slot(o),
    {
        self.external_slots.insert(String::from_str(uri.as_str()), diagnostics);
    }

    /// The findings to publish for `uri`, merged over the two channels.
    pub fn publish(&self, uri: &Uri) -> (r: Vec<Diagnostic>)
        ensures
            diagnostic_views(r@) == self.merged(uri@),
    {
        let mut out: Vec<Diagnostic> = Vec::new();
        assert(diagnostic_views(out@) =~= Seq::<DiagnosticView>::empty());
        match self.static_slots.get(uri.as_str()) {
            Some(list) => {
                append_copies(&mut out, list);
            },
            None => {},
        }
        assert(diagnostic_views(out@) =~= self.static_slot(uri@));
        match self.external_slots.get(uri.as_str()) {
            Some(list) => {
                append_copies(&mut out, list);
            },
            None => {},
        }
        assert(diagnostic_views(out@) =~= self.merged(uri@));
        out
    }
}

/// What `list` publishes: for the document at each index of the workspace,
/// in order, its URI and its merged findings.
pub open spec fn publishes(
    list: Seq<Publication>,
    workspace: &Workspace,
    manager: &DiagnosticsManager,
) -> bool {
    &&& list.len() == workspace@.len()
    &&& forall|i: int|
        0 <= i < list.len() ==> (#[trigger] list[i]).uri@ == workspace@[i].uri && diagnostic_views(
            list[i].diagnostics@,
        ) == manager.merged(workspace@[i].uri)
}

/// One publication for every document of the workspace, in its order, each
/// with the findings merged over the two channels.
pub fn publish_diagnostics(workspace: &Workspace, manager: &DiagnosticsManager) -> (r: Vec<
    Publication,
>)
    requires
        workspace.wf(),
    ensures
        publishes(r@, workspace, manager),
{
    let documents = workspace.documents();
    let mut out: Vec<Publication> = Vec::new();
    let mut i: usize = 0;
    assert(documents@.len() == workspace@.len()) by {
        assert(crate::workspace::document_views(documents@).len() == documents@.len());
    }
    while i < documents.len()
        invariant
            i <= documents@.len(),
            documents@.len() == workspace@.len(),
            crate::workspace::document_views(documents@) == workspace@,
            out@.len() == i,
            forall|j: int|
                0 <= j < i ==> (#[trigger] out@[j]).uri@ == workspace@[j].uri && diagnostic_views(
                    out@[j].diagnostics@,
                ) == manager.merged(workspace@[j].uri),
        decreases documents@.len() - i,
    {
        let uri = documents[i].uri.duplicate();
        assert(crate::workspace::document_views(documents@)[i as int] == documents@[i as int]@);
        let diagnostics = manager.publish(&uri);
        out.push(Publication { uri, diagnostics });
        i += 1;
    }
    out
}

/// A message on a diagnostics channel.
#[derive(Debug, PartialEq, Eq)]
pub enum DiagnosticsMessage {
    /// Analyze this revision of a document.
    Analyze { document: Document },
    /// Stop the worker.
    Shutdown,
}

/// The two channels.
#[derive(Clone, Copy, Debug, PartialEq, Eq, Structural)]
pub enum ChannelKind {
    /// Analysis in the process.
    Static,
    /// The external linter.
    External,
}

/// Where the worker of a channel stands.
#[derive(Debug, PartialEq, Eq)]
pub enum ChannelState {
    /// It awaits a message.
    Idle,
    /// It collects the burst that `document` began.
    Debounce { document: Document },
    /// It analyzes and publishes.
    Running,
    /// It has stopped for good.
    Terminated,
}

/// What the worker observed.
#[derive(Debug, PartialEq, Eq)]
pub enum WorkerEvent {
    /// The blocking receive returned: a message, or nothing where the channel
    /// is closed.
    Received { message: Option<DiagnosticsMessage> },
    /// The messages that were at hand once the delay was over, in order.
    Drained { messages: Vec<DiagnosticsMessage> },
    /// The analysis ran and its results were published, or publishing failed.
    Published { delivered: bool },
}

/// What the worker does next.
#[derive(Debug, PartialEq, Eq)]
pub enum WorkerAction {
    /// Block until a message arrives.
    Receive,
    /// Sleep for so many milliseconds, which are more than none, then take
    /// what is at hand.
    SleepThenDrain { millis: u64 },
    /// Take what is at hand without sleeping.
    Drain,
    /// Analyze this revision, store the findings, publish.
    Run { document: Document },
    /// Go on with what the state asks for: the event did not fit it.
    Proceed,
    /// Leave the loop.
    Stop,
}

/// Whether one of `messages` is a shutdown.
pub open spec fn has_shutdown(messages: Seq<DiagnosticsMessage>) -> bool {
    exists|i: int| 0 <= i < messages.len() && messages[i] == DiagnosticsMessage::Shutdown
}

/// The transition of a worker: the state and the action that follow `state`
/// on `event`.
pub open spec fn transition(
    delay: u64,
    state: ChannelState,
    event: WorkerEvent,
) -> (ChannelState, WorkerAction) {
    match state {
        ChannelState::Terminated => (ChannelState::Terminated, WorkerAction::Stop),
        ChannelState::Idle => match event {
            WorkerEvent::Received { message: Some(DiagnosticsMessage::Analyze { document }) } => (
                ChannelState::Debounce { document },
                collect(delay),
            ),
            WorkerEvent::Received { message: _ } => (ChannelState::Terminated, WorkerAction::Stop),
            _ => (ChannelState::Idle, WorkerAction::Proceed),
        },
        ChannelState::Debounce { document } => match event {
            WorkerEvent::Drained { messages } => if has_shutdown(messages@) {
                (ChannelState::Terminated, WorkerAction::Stop)
            } else {
                (ChannelState::Running, WorkerAction::Run { document })
            },
            _ => (ChannelState::Debounce { document }, WorkerAction::Proceed),
        },
        ChannelState::Running => match event {
            WorkerEvent::Published { delivered: _ } => (ChannelState::Idle, WorkerAction::Receive),
            _ => (ChannelState::Running, WorkerAction::Proceed),
        },
    }
}

/// Whether one of `messages` is a shutdown.
pub fn contains_shutdown(messages: &Vec<DiagnosticsMessage>) -> (r: bool)
    ensures
        r == has_shutdown(messages@),
{
    let mut i: usize = 0;
    while i < messages.len()
        invariant
            i <= messages@.len(),
            forall|j: int| 0 <= j < i ==> messages@[j] != DiagnosticsMessage::Shutdown,
        decreases messages@.len() - i,
    {
        match &messages[i] {
            DiagnosticsMessage::Shutdown => {
                return true;
            },
            DiagnosticsMessage::Analyze { document: _ } => {},
        }
        i += 1;
    }
    false
}

/// The worker of one diagnostics channel.
pub struct DiagnosticsChannel {
    kind: ChannelKind,
    delay: u64,
    state: ChannelState,
}

impl DiagnosticsChannel {
    /// Which channel this is.
    pub closed spec fn kind(&self) -> ChannelKind {
        self.kind
    }

    /// The debounce delay in milliseconds.
    pub closed spec fn delay(&self) -> u64 {
        self.delay
    }

    /// Where the worker stands.
    pub closed spec fn state(&self) -> ChannelState {
        self.state
    }

    /// An idle worker with the delay of its channel.
    pub fn new(kind: ChannelKind) -> (c: DiagnosticsChannel)
        ensures
            c.kind() == kind,
            c.delay() == default_delay(kind),
            c.state() == ChannelState::Idle,
    {
        let delay = match kind {
            ChannelKind::Static => DEFAULT_DIAGNOSTICS_DELAY,
            ChannelKind::External => 0,
        };
        DiagnosticsChannel { kind, delay, state: ChannelState::Idle }
    }

    /// Sets the delay; a configuration without one gives the delay of the
    /// channel.
    pub fn configure_delay(&mut self, configured: Option<u64>)
        ensures
            final(self).kind() == old(self).kind(),
            final(self).state() == old(self).state(),
            final(self).delay() == (match configured {
                Some(millis) => millis,
                None => default_delay(old(self).kind()),
            }),
    {
        self.delay = match configured {
            Some(millis) => millis,
            None => match self.kind {
                ChannelKind::Static => DEFAULT_DIAGNOSTICS_DELAY,
                ChannelKind::External => 0,
            },
        };
    }

    /// Whether the worker has stopped.
    pub fn is_terminated(&self) -> (r: bool)
        ensures
            r == (self.state() == ChannelState::Terminated),
    {
        match &self.state {
            ChannelState::Terminated => true,
            _ => false,
        }
    }

    /// Whether the worker awaits a message.
    pub fn is_idle(&self) -> (r: bool)
        ensures
            r == (self.state() == ChannelState::Idle),
    {
        match &self.state {
            ChannelState::Idle => true,
            _ => false,
        }
    }

    /// Takes `event` and says what to do next.
    pub fn step(&mut self, event: WorkerEvent) -> (action: WorkerAction)
        ensures
            final(self).kind() == old(self).kind(),
            final(self).delay() == old(self).delay(),
            (final(self).state(), action) == transition(
                old(self).delay(),
                old(self).state(),
                event,
            ),
    {
        let mut state = ChannelState::Terminated;
        std::mem::swap(&mut self.state, &mut state);
        match state {
            ChannelState::Terminated => WorkerAction::Stop,
            ChannelState::Idle => match event {
                WorkerEvent::Received { message } => match message {
                    Some(DiagnosticsMessage::Analyze { document }) => {
                        self.state = ChannelState::Debounce { document };
                        if self.delay == 0 {
                            WorkerAction::Drain
                        } else {
                            WorkerAction::SleepThenDrain { millis: self.delay }
                        }
                    },
                    _ => WorkerAction::Stop,
                },
                _ => {
                    self.state = ChannelState::Idle;
                    WorkerAction::Proceed
                },
            },
            ChannelState::Debounce { document } => match event {
                WorkerEvent::Drained { messages } => {
                    if contains_shutdown(&messages) {
                        WorkerAction::Stop
                    } else {
                        self.state = ChannelState::Running;
                        WorkerAction::Run { document }
                    }
                },
                _ => {
                    self.state = ChannelState::Debounce { document };
                    WorkerAction::Proceed
                },
            },
            ChannelState::Running => match event {
                WorkerEvent::Published { delivered: _ } => {
                    self.state = ChannelState::Idle;
                    WorkerAction::Receive
                },
                _ => {
                    self.state = ChannelState::Running;
                    WorkerAction::Proceed
                },
            },
        }
    }
}

/// A burst collapses into one run: an idle worker that receives an analyze
/// message and then finds any number of further analyze messages at hand
/// runs the analyzer once, on the revision that began the burst, and the
/// first step runs nothing.
pub proof fn lemma_burst_runs_once(delay: u64, first: Document, rest: Vec<DiagnosticsMessage>)
    requires
        !has_shutdown(rest@),
    ensures
        ({
            let begun = transition(
                delay,
                ChannelState::Idle,
                WorkerEvent::Received {
                    message: Some(DiagnosticsMessage::Analyze { document: first }),
                },
            );
            let drained = transition(delay, begun.0, WorkerEvent::Drained { messages: rest });
            &&& begun.0 == (ChannelState::Debounce { document: first })
            &&& begun.1 == collect(delay)
            &&& !(begun.1 is Run)
            &&& drained == (ChannelState::Running, WorkerAction::Run { document: first })
        }),
{
}

/// A worker runs the analyzer only on leaving the debounce state: whatever
/// the state and the event, a run leaves the worker running, and came from a
/// drain without shutdown.
pub proof fn lemma_run_only_after_drain(
    delay: u64,
    state: ChannelState,
    event: WorkerEvent,
    document: Document,
)
    requires
        transition(delay, state, event).1 == (WorkerAction::Run { document }),
    ensures
        state == (ChannelState::Debounce { document }),
        event is Drained,
        !has_shutdown(event->messages@),
        transition(delay, state, event).0 == ChannelState::Running,
{
}

/// A shutdown stops the worker wherever it reads messages, a worker that
/// runs reads messages again once it has published, and a stopped worker
/// stays stopped.
pub proof fn lemma_shutdown_terminates(delay: u64, state: ChannelState, event: WorkerEvent)
    ensures
        state == ChannelState::Idle && event == (WorkerEvent::Received {
            message: Some(DiagnosticsMessage::Shutdown),
        }) ==> transition(delay, state, event) == (ChannelState::Terminated, WorkerAction::Stop),
        state is Debounce && event is Drained && has_shutdown(event->messages@) ==> transition(
            delay,
            state,
            event,
        ) == (ChannelState::Terminated, WorkerAction::Stop),
        state == ChannelState::Running && event is Published ==> transition(delay, state, event)
            == (ChannelState::Idle, WorkerAction::Receive),
        state == ChannelState::Terminated ==> transition(delay, state, event) == (
            ChannelState::Terminated,
            WorkerAction::Stop,
        ),
{
}

} // verus!
