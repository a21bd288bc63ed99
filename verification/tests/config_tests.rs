use hielements::stdlib::external::{plugin_kind, ExternalLibraryConfigEntry, HielementsConfig, PluginKind};

#[test]
fn plugin_kinds() {
    assert_eq!(plugin_kind(None, true, None), Some(PluginKind::Process));
    assert_eq!(plugin_kind(Some("wasm"), false, Some("lib/ts.wasm")), Some(PluginKind::Wasm));
    assert_eq!(plugin_kind(None, false, Some("lib/ts.wasm")), Some(PluginKind::Wasm));
    assert_eq!(plugin_kind(None, false, Some("lib/ts.so")), None);
    assert_eq!(plugin_kind(Some("wasm"), true, None), Some(PluginKind::Process));
    assert_eq!(plugin_kind(None, false, None), None);
}

#[test]
fn library_configs_keep_entries() {
    let mut config = HielementsConfig::new();
    config.libraries.push((
        "python".to_string(),
        ExternalLibraryConfigEntry { executable: "hielements-python".to_string(), args: vec![] },
    ));
    config.libraries.push((
        "docker".to_string(),
        ExternalLibraryConfigEntry { executable: "hielements-docker".to_string(), args: vec!["-q".to_string()] },
    ));
    let configs = config.library_configs();
    assert_eq!(configs.len(), 2);
    assert_eq!(configs[0].name, "python");
    assert_eq!(configs[1].executable, "hielements-docker");
    assert_eq!(configs[1].args, vec!["-q".to_string()]);
}
