use project_pilot::config::SavedConfig;
use project_pilot::daemon::Daemon;
use project_pilot::plugin::{PluginHandle, TmuxPlugin, HyprlandPlugin};

fn fresh_daemon() -> Daemon {
    let saved = SavedConfig::new("/tmp/store.doc".to_string(), None).unwrap();
    let mut daemon = Daemon::new(saved);
    daemon.plugin_manager.register_plugin(PluginHandle::Tmux(TmuxPlugin {}));
    daemon.plugin_manager.register_plugin(PluginHandle::Hyprland(HyprlandPlugin {}));
    daemon
}

fn params(pairs: &[(&str, &str)]) -> Vec<(String, String)> {
    pairs.iter().map(|(k, v)| (k.to_string(), v.to_string())).collect()
}

#[test]
fn scenario_project_lifecycle() {
    let mut d = fresh_daemon();
    let p = params(&[("project-name", "demo")]);

    let r = d.handle_request("project", "add", &p);
    assert_eq!(r.response, "Project demo added");
    assert!(r.persist);

    let r = d.handle_request("project", "add", &p);
    assert_eq!(r.response, "Project demo already exists");
    assert!(!r.persist);

    let r = d.handle_request(
        "project",
        "enable-plugin",
        &params(&[("project-name", "demo"), ("plugin", "tmux")]),
    );
    assert_eq!(r.response, "Plugin tmux enabled for project demo");
    assert!(r.persist);

    let r = d.handle_request(
        "project",
        "set-property",
        &params(&[("project-name", "demo"), ("property", "path"), ("value", "/tmp/demo")]),
    );
    assert_eq!(r.response, "Property path set to /tmp/demo for project demo");
    assert!(r.persist);

    let r = d.handle_request("project", "info", &p);
    assert!(r.response.contains("Plugins: tmux"));
    assert!(r.response.contains("path: /tmp/demo"));

    let r = d.handle_request("project", "del", &p);
    assert_eq!(r.response, "Project demo removed");
    assert!(r.persist);

    let r = d.handle_request("project", "info", &p);
    assert_eq!(r.response, "Project demo not found");
}

#[test]
fn add_existing_keeps_count() {
    let mut d = fresh_daemon();
    d.handle_request("project", "add", &params(&[("project-name", "one")]));
    d.handle_request("project", "add", &params(&[("project-name", "two")]));
    assert_eq!(d.config.data.projects.len(), 2);
    let r = d.handle_request("project", "add", &params(&[("project-name", "one")]));
    assert_eq!(r.response, "Project one already exists");
    assert_eq!(d.config.data.projects.len(), 2);
}

#[test]
fn enable_plugin_is_idempotent() {
    let mut d = fresh_daemon();
    d.handle_request("project", "add", &params(&[("project-name", "demo")]));
    let p = params(&[("project-name", "demo"), ("plugin", "tmux")]);
    let r = d.handle_request("project", "enable-plugin", &p);
    assert_eq!(r.response, "Plugin tmux enabled for project demo");
    let r = d.handle_request("project", "enable-plugin", &p);
    assert_eq!(r.response, "Plugin tmux already enabled for project demo");
    assert!(!r.persist);
    assert_eq!(d.config.data.projects[0].plugins.len(), 1);
}

#[test]
fn disable_plugin_removes_and_reports() {
    let mut d = fresh_daemon();
    d.handle_request("project", "add", &params(&[("project-name", "demo")]));
    let p = params(&[("project-name", "demo"), ("plugin", "tmux")]);
    let r = d.handle_request("project", "disable-plugin", &p);
    assert_eq!(r.response, "Plugin tmux not enabled for project demo");
    d.handle_request("project", "enable-plugin", &p);
    let r = d.handle_request("project", "disable-plugin", &p);
    assert_eq!(r.response, "Plugin tmux disabled for project demo");
    assert!(r.persist);
    assert_eq!(d.config.data.projects[0].plugins.len(), 0);
}

#[test]
fn set_property_last_writer_wins() {
    let mut d = fresh_daemon();
    d.handle_request("project", "add", &params(&[("project-name", "demo")]));
    d.handle_request(
        "project",
        "set-property",
        &params(&[("project-name", "demo"), ("property", "path"), ("value", "/a")]),
    );
    d.handle_request(
        "project",
        "set-property",
        &params(&[("project-name", "demo"), ("property", "path"), ("value", "/b")]),
    );
    let r = d.handle_request(
        "project",
        "get-property",
        &params(&[("project-name", "demo"), ("property", "path")]),
    );
    assert_eq!(r.response, "/b");
    assert_eq!(d.config.data.projects[0].properties.len(), 1);
}

#[test]
fn project_property_errors() {
    let mut d = fresh_daemon();
    let r = d.handle_request(
        "project",
        "get-property",
        &params(&[("project-name", "demo"), ("property", "path")]),
    );
    assert_eq!(r.response, "Project demo not found");
    d.handle_request("project", "add", &params(&[("project-name", "demo")]));
    let r = d.handle_request(
        "project",
        "get-property",
        &params(&[("project-name", "demo"), ("property", "path")]),
    );
    assert_eq!(r.response, "Property path not found for project demo");
    let r = d.handle_request(
        "project",
        "del-property",
        &params(&[("project-name", "demo"), ("property", "path")]),
    );
    assert_eq!(r.response, "Property path not found for project demo");
    d.handle_request(
        "project",
        "set-property",
        &params(&[("project-name", "demo"), ("property", "path"), ("value", "/a")]),
    );
    let r = d.handle_request(
        "project",
        "del-property",
        &params(&[("project-name", "demo"), ("property", "path")]),
    );
    assert_eq!(r.response, "Property path removed for project demo");
    assert!(r.persist);
}

#[test]
fn missing_parameters_are_reported() {
    let mut d = fresh_daemon();
    let r = d.handle_request("project", "add", &params(&[]));
    assert_eq!(r.response, "Invalid command");
    let r = d.handle_request("project", "set-property", &params(&[("project-name", "x")]));
    assert_eq!(r.response, "Missing parameter property");
    let r = d.handle_request("project", "enable-plugin", &params(&[]));
    assert_eq!(r.response, "Missing parameter project-name");
}

#[test]
fn project_list_in_insertion_order() {
    let mut d = fresh_daemon();
    d.handle_request("project", "add", &params(&[("project-name", "alpha")]));
    d.handle_request("project", "add", &params(&[("project-name", "beta")]));
    let r = d.handle_request("project", "list", &params(&[]));
    assert_eq!(r.response, "alpha, beta");
}

#[test]
fn unknown_subject_and_command() {
    let mut d = fresh_daemon();
    let r = d.handle_request("nonsense", "add", &params(&[]));
    assert_eq!(r.response, "Unknown command");
    let r = d.handle_request("project", "nonsense", &params(&[]));
    assert_eq!(r.response, "Unknown command");
}

#[test]
fn global_properties() {
    let mut d = fresh_daemon();
    let r = d.handle_request(
        "global",
        "set-property",
        &params(&[("property", "editor"), ("value", "vi")]),
    );
    assert_eq!(r.response, "Global property editor set to vi");
    assert!(r.persist);
    let r = d.handle_request("global", "get-property", &params(&[("property", "editor")]));
    assert_eq!(r.response, "vi");
    let r = d.handle_request("global", "get-property", &params(&[("property", "shell")]));
    assert_eq!(r.response, "Global property shell not found");
    let r = d.handle_request("global", "list-properties", &params(&[]));
    assert_eq!(r.response, "[{\"property\":\"editor\",\"value\":\"vi\"}]");
    let r = d.handle_request("global", "del-property", &params(&[("property", "editor")]));
    assert_eq!(r.response, "Global property editor removed");
    let r = d.handle_request("global", "del-property", &params(&[("property", "editor")]));
    assert_eq!(r.response, "Global property editor not found");
}
