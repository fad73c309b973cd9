use project_pilot::config::SavedConfig;
use project_pilot::daemon::{Daemon, DaemonPhase, SupervisorAction, SupervisorEvent, SessionTurn,
    finish_request, session_turn, supervisor_step};
use project_pilot::event::Event;
use project_pilot::plugin::{EventPlan, Plugin, PluginFactory, PluginHandle, TmuxPlugin,
    HyprlandPlugin};

fn fresh_daemon() -> Daemon {
    let saved = SavedConfig::new("/tmp/e.doc".to_string(), None).unwrap();
    let mut daemon = Daemon::new(saved);
    daemon.plugin_manager.register_plugin(PluginHandle::Tmux(TmuxPlugin {}));
    daemon.plugin_manager.register_plugin(PluginHandle::Hyprland(HyprlandPlugin {}));
    daemon
}

fn params(pairs: &[(&str, &str)]) -> Vec<(String, String)> {
    pairs.iter().map(|(k, v)| (k.to_string(), v.to_string())).collect()
}

#[test]
fn event_names_and_listing() {
    assert_eq!(Event::PluginEnable.name(), "plugin-enable");
    assert_eq!(Event::from_name("project-peek"), Some(Event::ProjectPeek));
    assert_eq!(Event::from_name("project-add"), Some(Event::ProjectAdd));
    assert_eq!(Event::from_name("no-such-event"), None);
    assert_eq!(Event::all().len(), 7);

    let mut d = fresh_daemon();
    let r = d.handle_request("event", "list", &params(&[]));
    assert_eq!(
        r.response,
        "project-peek, project-switch, project-add, project-delete, project-update, \
         plugin-enable, plugin-disable"
    );
}

#[test]
fn event_trigger_fans_out_in_order() {
    let mut d = fresh_daemon();
    d.handle_request("project", "add", &params(&[("project-name", "one")]));
    d.handle_request("project", "add", &params(&[("project-name", "two")]));
    d.handle_request(
        "project",
        "enable-plugin",
        &params(&[("project-name", "one"), ("plugin", "tmux")]),
    );
    d.handle_request(
        "project",
        "enable-plugin",
        &params(&[("project-name", "one"), ("plugin", "ghost")]),
    );
    d.handle_request(
        "project",
        "enable-plugin",
        &params(&[("project-name", "two"), ("plugin", "hyprland")]),
    );

    let r = d.handle_request("event", "trigger", &params(&[("event-name", "plugin-enable")]));
    assert_eq!(r.response, "Event triggered");
    assert!(!r.persist);
    let ds = &r.dispatches;
    assert_eq!(ds.len(), 3);

    assert_eq!(ds[0].project, "one");
    assert_eq!(ds[0].plugin, "tmux");
    assert_eq!(ds[0].event, Event::PluginEnable);
    match &ds[0].plan {
        Some(EventPlan::CreateSessionIfMissing { session, path }) => {
            assert_eq!(session, "one");
            assert!(path.is_none());
        },
        other => panic!("unexpected plan: {:?}", other.is_some()),
    }

    // An unregistered plugin fails its own dispatch and nothing else:
    // the fan-out still reaches the next project's plugin.
    assert_eq!(ds[1].project, "one");
    assert_eq!(ds[1].plugin, "ghost");
    assert!(ds[1].plan.is_none());

    assert_eq!(ds[2].project, "two");
    assert_eq!(ds[2].plugin, "hyprland");
    assert!(matches!(ds[2].plan, Some(EventPlan::QueryMonitors)));
}

#[test]
fn event_trigger_errors() {
    let mut d = fresh_daemon();
    let r = d.handle_request("event", "trigger", &params(&[("event-name", "bogus")]));
    assert_eq!(r.response, "Invalid event");
    let r = d.handle_request("event", "trigger", &params(&[]));
    assert_eq!(r.response, "Missing event name");
}

#[test]
fn enable_dispatches_to_named_plugin_only() {
    let mut d = fresh_daemon();
    d.handle_request("project", "add", &params(&[("project-name", "demo")]));
    d.handle_request(
        "project",
        "set-property",
        &params(&[("project-name", "demo"), ("property", "path"), ("value", "/tmp/demo")]),
    );
    let r = d.handle_request(
        "project",
        "enable-plugin",
        &params(&[("project-name", "demo"), ("plugin", "tmux")]),
    );
    assert_eq!(r.dispatches.len(), 1);
    let dispatch = &r.dispatches[0];
    assert_eq!(dispatch.event, Event::PluginEnable);
    assert_eq!(dispatch.project, "demo");
    assert_eq!(dispatch.plugin, "tmux");
    match &dispatch.plan {
        Some(EventPlan::CreateSessionIfMissing { session, path }) => {
            assert_eq!(session, "demo");
            assert_eq!(path.as_deref(), Some("/tmp/demo"));
        },
        _ => panic!("expected a session plan"),
    }

    let r = d.handle_request(
        "project",
        "disable-plugin",
        &params(&[("project-name", "demo"), ("plugin", "tmux")]),
    );
    assert_eq!(r.dispatches.len(), 1);
    match &r.dispatches[0].plan {
        Some(EventPlan::KillSessionIfPresent { session }) => assert_eq!(session, "demo"),
        _ => panic!("expected a kill plan"),
    }
}

#[test]
fn plugin_actions() {
    let mut d = fresh_daemon();
    d.handle_request("project", "add", &params(&[("project-name", "demo")]));
    let r = d.handle_request(
        "plugin",
        "run",
        &params(&[("plugin", "tmux"), ("action", "gen_init_terminal"), ("project-name", "demo")]),
    );
    assert_eq!(r.response, "tmux plugin is not enabled");
    d.handle_request(
        "project",
        "enable-plugin",
        &params(&[("project-name", "demo"), ("plugin", "tmux")]),
    );
    let r = d.handle_request(
        "plugin",
        "run",
        &params(&[("plugin", "tmux"), ("action", "gen_init_terminal"), ("project-name", "demo")]),
    );
    assert_eq!(r.response, "tmux attach-session -t demo");
    let r = d.handle_request(
        "plugin",
        "run",
        &params(&[("plugin", "tmux"), ("action", "bogus"), ("project-name", "demo")]),
    );
    assert_eq!(r.response, "unknown action: bogus");
    let r = d.handle_request(
        "plugin",
        "run",
        &params(&[("plugin", "none"), ("action", "x"), ("project-name", "demo")]),
    );
    assert_eq!(r.response, "Plugin none not found");
    let r = d.handle_request("plugin", "list-actions", &params(&[("plugin", "tmux")]));
    assert_eq!(r.response, "gen_init_terminal");
    let r = d.handle_request("plugin", "list-actions", &params(&[("plugin", "hyprland")]));
    assert_eq!(r.response, "");
}

#[test]
fn registry_last_registration_wins() {
    let mut pm = PluginFactory::new();
    pm.register_plugin(PluginHandle::Tmux(TmuxPlugin {}));
    pm.register_plugin(PluginHandle::Hyprland(HyprlandPlugin {}));
    pm.register_plugin(PluginHandle::Tmux(TmuxPlugin {}));
    assert_eq!(pm.plugins.len(), 2);
    assert!(pm.get_plugin("tmux").is_some());
    assert!(pm.get_plugin("hyprland").is_some());
    assert!(pm.get_plugin("zsh").is_none());
    assert_eq!(pm.get_plugin("tmux").unwrap().name(), "tmux");
}

#[test]
fn daemon_stop_acknowledges_and_raises_flag() {
    let mut d = fresh_daemon();
    let r = d.handle_request("daemon", "status", &params(&[]));
    assert_eq!(r.response, "up and running");
    assert!(!d.should_stop);
    let r = d.handle_request("daemon", "stop", &params(&[]));
    assert_eq!(r.response, "stopping");
    assert!(d.should_stop);
}

#[test]
fn supervisor_accepts_nothing_after_running() {
    let (phase, action) = supervisor_step(DaemonPhase::Running, SupervisorEvent::Connection);
    assert_eq!(phase, DaemonPhase::Running);
    assert_eq!(action, SupervisorAction::HandleConnection);
    let (phase, action) = supervisor_step(DaemonPhase::Running, SupervisorEvent::AcceptError);
    assert_eq!(phase, DaemonPhase::Running);
    assert_eq!(action, SupervisorAction::Report);
    let (phase, action) = supervisor_step(DaemonPhase::Running, SupervisorEvent::Cancelled);
    assert_eq!(phase, DaemonPhase::Stopping);
    assert_eq!(action, SupervisorAction::Shutdown);
    let (phase, action) = supervisor_step(DaemonPhase::Stopping, SupervisorEvent::Connection);
    assert_eq!(phase, DaemonPhase::Stopped);
    assert_ne!(action, SupervisorAction::HandleConnection);
    let (phase, action) = supervisor_step(DaemonPhase::Stopped, SupervisorEvent::Connection);
    assert_eq!(phase, DaemonPhase::Stopped);
    assert_ne!(action, SupervisorAction::HandleConnection);
}

#[test]
fn session_turns() {
    assert!(matches!(session_turn(true, Some("{}")), SessionTurn::SignalStopAndClose));
    assert!(matches!(session_turn(false, None), SessionTurn::Close));
    assert!(matches!(session_turn(false, Some("not json")), SessionTurn::ProtocolError));
    match session_turn(
        false,
        Some("{\"subject\":\"daemon\",\"command\":\"status\",\"params\":{}}"),
    ) {
        SessionTurn::Dispatch(req) => {
            assert_eq!(req.subject, "daemon");
            assert_eq!(req.command, "status");
            assert!(req.params.is_empty());
        },
        _ => panic!("expected a dispatch"),
    }
}

#[test]
fn failed_save_is_not_reported_as_success() {
    let mut d = fresh_daemon();
    let outcome = d.handle_request("project", "add", &params(&[("project-name", "demo")]));
    assert!(outcome.persist);
    let (response, dispatches) = finish_request(outcome, false);
    assert_eq!(response, "Error: failed to save configuration");
    assert!(dispatches.is_empty());
    let outcome = d.handle_request("project", "list", &params(&[]));
    let (response, _) = finish_request(outcome, false);
    assert_eq!(response, "demo");
}
