use texlab::diagnostics::contains_shutdown;
use texlab::diagnostics::publish_diagnostics;
use texlab::diagnostics::ChannelKind;
use texlab::diagnostics::Diagnostic;
use texlab::diagnostics::DiagnosticsChannel;
use texlab::diagnostics::DiagnosticsManager;
use texlab::diagnostics::DiagnosticsMessage;
use texlab::diagnostics::Severity;
use texlab::diagnostics::WorkerAction;
use texlab::diagnostics::WorkerEvent;
use texlab::diagnostics::DEFAULT_DIAGNOSTICS_DELAY;
use texlab::ident::Uri;
use texlab::workspace::Document;
use texlab::workspace::DocumentLanguage;
use texlab::workspace::ParsedTree;
use texlab::workspace::Workspace;
use texlab::workspace::WorkspaceSource;

fn document(name: &str, text: &str) -> Document {
    Document {
        uri: Uri::parse(name),
        text: text.to_string(),
        language: DocumentLanguage::Latex,
        source: WorkspaceSource::Client,
        tree: ParsedTree::empty(),
    }
}

fn analyze(name: &str, text: &str) -> DiagnosticsMessage {
    DiagnosticsMessage::Analyze { document: document(name, text) }
}

fn received(message: DiagnosticsMessage) -> WorkerEvent {
    WorkerEvent::Received { message: Some(message) }
}

fn finding(line: u32, message: &str) -> Diagnostic {
    Diagnostic {
        line,
        character: 0,
        end_line: line,
        end_character: 4,
        severity: Severity::Warning,
        message: message.to_string(),
    }
}

#[test]
fn default_delay_is_three_hundred_milliseconds() {
    assert_eq!(DEFAULT_DIAGNOSTICS_DELAY, 300);
    let mut channel = DiagnosticsChannel::new(ChannelKind::Static);
    assert_eq!(
        channel.step(received(analyze("a", ""))),
        WorkerAction::SleepThenDrain { millis: 300 }
    );
    let mut configured = DiagnosticsChannel::new(ChannelKind::Static);
    configured.configure_delay(Some(50));
    assert_eq!(
        configured.step(received(analyze("a", ""))),
        WorkerAction::SleepThenDrain { millis: 50 }
    );
    let mut reset = DiagnosticsChannel::new(ChannelKind::Static);
    reset.configure_delay(Some(50));
    reset.configure_delay(None);
    assert_eq!(
        reset.step(received(analyze("a", ""))),
        WorkerAction::SleepThenDrain { millis: 300 }
    );
    let mut none = DiagnosticsChannel::new(ChannelKind::Static);
    none.configure_delay(Some(0));
    assert_eq!(none.step(received(analyze("a", ""))), WorkerAction::Drain);
}

#[test]
fn ten_changes_in_a_burst_give_one_run_on_the_first() {
    let mut channel = DiagnosticsChannel::new(ChannelKind::Static);
    let mut runs = Vec::new();
    let first = channel.step(received(analyze("a", "0")));
    assert_eq!(first, WorkerAction::SleepThenDrain { millis: 300 });
    let rest: Vec<DiagnosticsMessage> =
        (1..10).map(|i| analyze("a", &format!("{}", i))).collect();
    match channel.step(WorkerEvent::Drained { messages: rest }) {
        WorkerAction::Run { document } => runs.push(document),
        other => panic!("expected a run, got {:?}", other),
    }
    assert_eq!(channel.step(WorkerEvent::Published { delivered: true }), WorkerAction::Receive);
    assert!(channel.is_idle());
    assert_eq!(runs, vec![document("a", "0")]);
}

#[test]
fn external_channel_drains_without_sleeping() {
    let mut channel = DiagnosticsChannel::new(ChannelKind::External);
    assert_eq!(channel.step(received(analyze("a", ""))), WorkerAction::Drain);
    assert_eq!(
        channel.step(WorkerEvent::Drained { messages: Vec::new() }),
        WorkerAction::Run { document: document("a", "") }
    );
    let mut delayed = DiagnosticsChannel::new(ChannelKind::External);
    delayed.configure_delay(Some(40));
    assert_eq!(
        delayed.step(received(analyze("a", ""))),
        WorkerAction::SleepThenDrain { millis: 40 }
    );
    delayed.configure_delay(None);
    delayed.step(WorkerEvent::Drained { messages: Vec::new() });
    delayed.step(WorkerEvent::Published { delivered: true });
    assert_eq!(delayed.step(received(analyze("a", ""))), WorkerAction::Drain);
}

#[test]
fn shutdown_stops_an_idle_worker() {
    let mut channel = DiagnosticsChannel::new(ChannelKind::Static);
    assert_eq!(channel.step(received(DiagnosticsMessage::Shutdown)), WorkerAction::Stop);
    assert!(channel.is_terminated());
    assert_eq!(channel.step(received(analyze("a", ""))), WorkerAction::Stop);
    assert_eq!(channel.step(WorkerEvent::Published { delivered: true }), WorkerAction::Stop);
    assert!(channel.is_terminated());
}

#[test]
fn closed_channel_stops_an_idle_worker() {
    let mut channel = DiagnosticsChannel::new(ChannelKind::External);
    assert_eq!(channel.step(WorkerEvent::Received { message: None }), WorkerAction::Stop);
    assert!(channel.is_terminated());
}

#[test]
fn shutdown_in_the_burst_stops_the_worker_before_it_runs() {
    for kind in [ChannelKind::Static, ChannelKind::External] {
        let mut channel = DiagnosticsChannel::new(kind);
        channel.step(received(analyze("a", "")));
        let drained = vec![analyze("a", "1"), DiagnosticsMessage::Shutdown, analyze("a", "2")];
        assert_eq!(channel.step(WorkerEvent::Drained { messages: drained }), WorkerAction::Stop);
        assert!(channel.is_terminated());
    }
}

#[test]
fn failed_publication_keeps_the_worker_alive() {
    let mut channel = DiagnosticsChannel::new(ChannelKind::Static);
    channel.step(received(analyze("a", "")));
    channel.step(WorkerEvent::Drained { messages: Vec::new() });
    assert_eq!(channel.step(WorkerEvent::Published { delivered: false }), WorkerAction::Receive);
    assert!(channel.is_idle());
    assert_eq!(
        channel.step(received(analyze("b", ""))),
        WorkerAction::SleepThenDrain { millis: 300 }
    );
}

#[test]
fn event_that_does_not_fit_the_state_changes_nothing() {
    let mut channel = DiagnosticsChannel::new(ChannelKind::Static);
    assert_eq!(channel.step(WorkerEvent::Drained { messages: Vec::new() }), WorkerAction::Proceed);
    assert!(channel.is_idle());
    channel.step(received(analyze("a", "kept")));
    assert_eq!(channel.step(received(analyze("b", ""))), WorkerAction::Proceed);
    assert_eq!(channel.step(WorkerEvent::Published { delivered: true }), WorkerAction::Proceed);
    assert_eq!(
        channel.step(WorkerEvent::Drained { messages: Vec::new() }),
        WorkerAction::Run { document: document("a", "kept") }
    );
    assert_eq!(channel.step(WorkerEvent::Drained { messages: Vec::new() }), WorkerAction::Proceed);
    assert!(!channel.is_idle());
    assert!(!channel.is_terminated());
}

#[test]
fn contains_shutdown_finds_it_anywhere() {
    assert!(!contains_shutdown(&Vec::new()));
    assert!(!contains_shutdown(&vec![analyze("a", ""), analyze("b", "")]));
    assert!(contains_shutdown(&vec![DiagnosticsMessage::Shutdown]));
    assert!(contains_shutdown(&vec![analyze("a", ""), analyze("b", ""), DiagnosticsMessage::Shutdown]));
}

#[test]
fn manager_merges_the_two_channels_per_document() {
    let mut manager = DiagnosticsManager::new();
    let a = Uri::parse("a");
    let b = Uri::parse("b");
    assert!(manager.publish(&a).is_empty());
    manager.update_chktex(Uri::parse("a"), vec![finding(3, "external")]);
    manager.update_static(Uri::parse("a"), vec![finding(1, "static one"), finding(2, "static two")]);
    manager.update_static(Uri::parse("b"), vec![finding(9, "other")]);
    assert_eq!(
        manager.publish(&a),
        vec![finding(1, "static one"), finding(2, "static two"), finding(3, "external")]
    );
    assert_eq!(manager.publish(&b), vec![finding(9, "other")]);
    manager.update_static(Uri::parse("a"), Vec::new());
    assert_eq!(manager.publish(&a), vec![finding(3, "external")]);
    manager.update_chktex(Uri::parse("a"), vec![finding(4, "newer")]);
    assert_eq!(manager.publish(&a), vec![finding(4, "newer")]);
    assert_eq!(manager.publish(&b), vec![finding(9, "other")]);
}

#[test]
fn publication_covers_every_document_of_the_workspace() {
    let mut workspace = Workspace::new();
    for name in ["a", "b", "c"] {
        workspace.open(
            Uri::parse(name),
            String::new(),
            DocumentLanguage::Latex,
            WorkspaceSource::Client,
            ParsedTree::empty(),
        );
    }
    let mut manager = DiagnosticsManager::new();
    manager.update_static(Uri::parse("b"), vec![finding(1, "static")]);
    manager.update_chktex(Uri::parse("b"), vec![finding(2, "external")]);
    manager.update_static(Uri::parse("gone"), vec![finding(5, "closed")]);
    let published = publish_diagnostics(&workspace, &manager);
    let names: Vec<&str> = published.iter().map(|publication| publication.uri.as_str()).collect();
    assert_eq!(names, vec!["a", "b", "c"]);
    assert!(published[0].diagnostics.is_empty());
    assert_eq!(published[1].diagnostics, vec![finding(1, "static"), finding(2, "external")]);
    assert!(published[2].diagnostics.is_empty());
}

#[test]
fn publication_of_an_empty_workspace_is_empty() {
    assert!(publish_diagnostics(&Workspace::new(), &DiagnosticsManager::new()).is_empty());
}
