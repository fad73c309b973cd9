use project_pilot::config::SavedConfig;
use project_pilot::daemon::Daemon;

fn params(pairs: &[(&str, &str)]) -> Vec<(String, String)> {
    pairs.iter().map(|(k, v)| (k.to_string(), v.to_string())).collect()
}

#[test]
fn restart_reproduces_the_store() {
    let saved = SavedConfig::new("/tmp/p.doc".to_string(), None).unwrap();
    let mut d = Daemon::new(saved);
    d.handle_request("project", "add", &params(&[("project-name", "demo")]));
    d.handle_request(
        "project",
        "enable-plugin",
        &params(&[("project-name", "demo"), ("plugin", "tmux")]),
    );
    d.handle_request(
        "project",
        "set-property",
        &params(&[("project-name", "demo"), ("property", "path"), ("value", "/tmp/demo")]),
    );
    d.handle_request("project", "add", &params(&[("project-name", "other")]));
    d.handle_request(
        "global",
        "set-property",
        &params(&[("property", "editor"), ("value", "vi")]),
    );

    let document = d.config.save();
    let reloaded = SavedConfig::new("/tmp/p.doc".to_string(), Some(document.as_str())).unwrap();

    assert_eq!(reloaded.data.projects.len(), d.config.data.projects.len());
    for (a, b) in reloaded.data.projects.iter().zip(d.config.data.projects.iter()) {
        assert_eq!(a.name, b.name);
        assert_eq!(a.plugins, b.plugins);
        assert_eq!(a.properties, b.properties);
    }
    assert_eq!(reloaded.data.properties, d.config.data.properties);
}

#[test]
fn empty_store_round_trip() {
    let saved = SavedConfig::new("/tmp/p.doc".to_string(), None).unwrap();
    let document = saved.save();
    assert_eq!(document, "0:0:");
    let reloaded = SavedConfig::new("/tmp/p.doc".to_string(), Some(document.as_str())).unwrap();
    assert!(reloaded.data.projects.is_empty());
    assert!(reloaded.data.properties.is_empty());
}

#[test]
fn awkward_characters_round_trip() {
    let saved = SavedConfig::new("/tmp/p.doc".to_string(), None).unwrap();
    let mut d = Daemon::new(saved);
    d.handle_request("project", "add", &params(&[("project-name", "42:x\ny")]));
    d.handle_request(
        "project",
        "set-property",
        &params(&[("project-name", "42:x\ny"), ("property", "k:"), ("value", "7:seven")]),
    );
    let document = d.config.save();
    let reloaded = SavedConfig::new("/tmp/p.doc".to_string(), Some(document.as_str())).unwrap();
    assert_eq!(reloaded.data.projects[0].name, "42:x\ny");
    assert_eq!(
        reloaded.data.projects[0].properties,
        vec![("k:".to_string(), "7:seven".to_string())]
    );
}

#[test]
fn multibyte_characters_round_trip() {
    let saved = SavedConfig::new("/tmp/p.doc".to_string(), None).unwrap();
    let mut d = Daemon::new(saved);
    let name = "caf\u{e9}-\u{4e2d}\u{6587}";
    d.handle_request("project", "add", &params(&[("project-name", name)]));
    d.handle_request(
        "project",
        "set-property",
        &params(&[("project-name", name), ("property", "gr\u{fc}n"), ("value", "\u{2713}")]),
    );
    let document = d.config.save();
    let reloaded = SavedConfig::new("/tmp/p.doc".to_string(), Some(document.as_str())).unwrap();
    assert_eq!(reloaded.data.projects[0].name, name);
    assert_eq!(
        reloaded.data.projects[0].properties,
        vec![("gr\u{fc}n".to_string(), "\u{2713}".to_string())]
    );
}

#[test]
fn malformed_documents_are_rejected() {
    assert!(SavedConfig::new("/p".to_string(), Some("")).is_none());
    assert!(SavedConfig::new("/p".to_string(), Some("garbage")).is_none());
    assert!(SavedConfig::new("/p".to_string(), Some("1:")).is_none());
    assert!(SavedConfig::new("/p".to_string(), Some("0:0:trailing")).is_none());
    assert!(SavedConfig::new("/p".to_string(), Some("99999999999999999999999:0:")).is_none());
}

#[test]
fn document_text_is_deterministic() {
    let saved = SavedConfig::new("/p".to_string(), None).unwrap();
    let mut d = Daemon::new(saved);
    d.handle_request("project", "add", &params(&[("project-name", "ab")]));
    d.handle_request(
        "project",
        "enable-plugin",
        &params(&[("project-name", "ab"), ("plugin", "tmux")]),
    );
    assert_eq!(d.config.save(), "0:1:2:ab1:4:tmux0:");
}
