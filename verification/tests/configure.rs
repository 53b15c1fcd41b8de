use configure_containerd::configure::{
    add_import, containerd_config_path, create_nydus_config, enable_nydus_snapshotter,
    imports_dir_path, nydus_config_path, nydus_socket_path, parse_main_config, render_config,
    set_disable_snapshot_annotations, EnableError,
};
use toml_edit::DocumentMut;

fn parse(text: &str) -> DocumentMut {
    match parse_main_config(text) {
        Ok(d) => d,
        Err(e) => panic!("expected well-formed TOML, got {:?}", e),
    }
}

fn imports_as_strings(text: &str) -> Vec<String> {
    let doc: DocumentMut = text.parse().unwrap();
    doc.get("imports")
        .unwrap()
        .as_array()
        .unwrap()
        .iter()
        .map(|v| v.as_str().unwrap().to_owned())
        .collect()
}

fn annotation_flag(text: &str) -> Option<bool> {
    let doc: DocumentMut = text.parse().unwrap();
    doc.get("plugins")?
        .get("io.containerd.grpc.v1.cri")?
        .get("containerd")?
        .get("disable_snapshot_annotations")?
        .as_bool()
}

#[test]
fn paths_are_fixed() {
    assert_eq!(containerd_config_path(), "/etc/containerd/config.toml");
    assert_eq!(imports_dir_path(), "/etc/containerd/config.toml.d");
    assert_eq!(
        nydus_config_path(),
        "/etc/containerd/config.toml.d/nydus-snapshotter.toml"
    );
    assert_eq!(
        nydus_socket_path(),
        "/run/containerd-nydus/containerd-nydus-grpc.sock"
    );
}

#[test]
fn import_created_when_absent() {
    let mut doc = parse("");
    assert!(add_import(&mut doc, nydus_config_path()).is_ok());
    let out = render_config(&doc);
    assert_eq!(imports_as_strings(&out), vec![nydus_config_path().to_owned()]);
}

#[test]
fn import_appended_in_order() {
    let mut doc = parse("imports = [\"a.toml\"]\n");
    assert!(add_import(&mut doc, nydus_config_path()).is_ok());
    let out = render_config(&doc);
    assert_eq!(
        imports_as_strings(&out),
        vec!["a.toml".to_owned(), nydus_config_path().to_owned()]
    );
}

#[test]
fn import_conflict_leaves_document_unchanged() {
    let text = format!("imports = [\"a.toml\", \"{}\"]\n", nydus_config_path());
    let mut doc = parse(&text);
    let before = render_config(&doc);
    assert_eq!(
        add_import(&mut doc, nydus_config_path()),
        Err(EnableError::ImportConflict)
    );
    assert_eq!(render_config(&doc), before);
    assert_eq!(
        imports_as_strings(&before),
        vec!["a.toml".to_owned(), nydus_config_path().to_owned()]
    );
}

#[test]
fn import_rejects_non_list() {
    let mut doc = parse("imports = \"a.toml\"\n");
    let before = render_config(&doc);
    assert_eq!(
        add_import(&mut doc, nydus_config_path()),
        Err(EnableError::ImportsNotAList)
    );
    assert_eq!(render_config(&doc), before);
}

#[test]
fn import_skips_non_string_entries() {
    let mut doc = parse("imports = [1, \"a.toml\"]\n");
    assert!(add_import(&mut doc, nydus_config_path()).is_ok());
    let out = render_config(&doc);
    let parsed: DocumentMut = out.parse().unwrap();
    let arr = parsed.get("imports").unwrap().as_array().unwrap();
    assert_eq!(arr.len(), 3);
    assert_eq!(arr.get(0).unwrap().as_integer(), Some(1));
    assert_eq!(arr.get(1).unwrap().as_str(), Some("a.toml"));
    assert_eq!(arr.get(2).unwrap().as_str(), Some(nydus_config_path()));
}

#[test]
fn annotation_set_when_absent() {
    let mut doc = parse("");
    assert!(set_disable_snapshot_annotations(&mut doc).is_ok());
    assert_eq!(annotation_flag(&render_config(&doc)), Some(false));
}

#[test]
fn annotation_overwrites_true() {
    let mut doc = parse(
        "[plugins.\"io.containerd.grpc.v1.cri\".containerd]\ndisable_snapshot_annotations = true\nsnapshotter = \"overlayfs\"\n",
    );
    assert!(set_disable_snapshot_annotations(&mut doc).is_ok());
    let out = render_config(&doc);
    assert_eq!(annotation_flag(&out), Some(false));
    let parsed: DocumentMut = out.parse().unwrap();
    let containerd = parsed["plugins"]["io.containerd.grpc.v1.cri"]["containerd"]
        .as_table()
        .unwrap();
    assert_eq!(containerd.get("snapshotter").unwrap().as_str(), Some("overlayfs"));
}

#[test]
fn annotation_kept_false() {
    let mut doc = parse(
        "[plugins.\"io.containerd.grpc.v1.cri\".containerd]\ndisable_snapshot_annotations = false\n",
    );
    assert!(set_disable_snapshot_annotations(&mut doc).is_ok());
    assert_eq!(annotation_flag(&render_config(&doc)), Some(false));
}

#[test]
fn annotation_set_through_inline_tables() {
    let mut doc = parse(
        "plugins = { \"io.containerd.grpc.v1.cri\" = { containerd = { disable_snapshot_annotations = true } } }\n",
    );
    assert!(set_disable_snapshot_annotations(&mut doc).is_ok());
    assert_eq!(annotation_flag(&render_config(&doc)), Some(false));
}

#[test]
fn annotation_rejects_table_leaf() {
    let mut doc = parse(
        "[plugins.\"io.containerd.grpc.v1.cri\".containerd.disable_snapshot_annotations]\n",
    );
    let before = render_config(&doc);
    assert_eq!(
        set_disable_snapshot_annotations(&mut doc),
        Err(EnableError::AnnotationNotAValue)
    );
    assert_eq!(render_config(&doc), before);
}

#[test]
fn annotation_rejects_non_table_parent() {
    let mut doc = parse("plugins = 3\n");
    let before = render_config(&doc);
    assert_eq!(
        set_disable_snapshot_annotations(&mut doc),
        Err(EnableError::AnnotationPathNotATable)
    );
    assert_eq!(render_config(&doc), before);
}

#[test]
fn nydus_config_has_proxy_plugin_table() {
    let doc = create_nydus_config();
    let out = render_config(&doc);
    let parsed: DocumentMut = out.parse().unwrap();
    let nydus = parsed["proxy_plugins"]["nydus"].as_table().unwrap();
    assert_eq!(nydus.get("type").unwrap().as_str(), Some("snapshot"));
    assert_eq!(nydus.get("address").unwrap().as_str(), Some(nydus_socket_path()));
    assert_eq!(nydus.len(), 2);
}

#[test]
fn enable_end_to_end() {
    let mut doc = parse(
        "[plugins.\"io.containerd.grpc.v1.cri\".containerd]\ndisable_snapshot_annotations = true\n",
    );
    assert!(enable_nydus_snapshotter(&mut doc, false).is_ok());
    let out = render_config(&doc);
    assert_eq!(annotation_flag(&out), Some(false));
    assert_eq!(imports_as_strings(&out), vec![nydus_config_path().to_owned()]);
}

#[test]
fn enable_refuses_second_run() {
    let mut doc = parse(
        "[plugins.\"io.containerd.grpc.v1.cri\".containerd]\ndisable_snapshot_annotations = true\n",
    );
    assert!(enable_nydus_snapshotter(&mut doc, false).is_ok());
    let after_first = render_config(&doc);
    assert_eq!(
        enable_nydus_snapshotter(&mut doc, true),
        Err(EnableError::AlreadyConfigured)
    );
    assert_eq!(render_config(&doc), after_first);
}

#[test]
fn enable_reports_conflict() {
    let text = format!("imports = [\"{}\"]\n", nydus_config_path());
    let mut doc = parse(&text);
    let before = render_config(&doc);
    assert_eq!(
        enable_nydus_snapshotter(&mut doc, false),
        Err(EnableError::ImportConflict)
    );
    assert_eq!(render_config(&doc), before);
}

#[test]
fn parse_rejects_malformed_toml() {
    match parse_main_config("imports = [\n") {
        Err(EnableError::MalformedConfig) => {}
        other => panic!("expected MalformedConfig, got {:?}", other),
    }
}

#[test]
fn parse_keeps_formatting() {
    let text = "# a comment\nimports = [\"a.toml\"]   # keep me\n";
    let doc = parse(text);
    assert_eq!(render_config(&doc), text);
}
