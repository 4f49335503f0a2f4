use asset_sync::install::{
    plan_install, CanisterInstallOpts, InstallModeHint, InstallPlanError, InstallTarget,
};
use asset_sync::settings_digest::{
    escape_json_bytes, get_replica_backend_settings, get_settings_digest, settings_json_bytes,
    BitcoinConfig, CanisterHttpConfig, HttpHandlerPortSetting, LocalServerDescriptor,
    ReplicaConfig, ReplicaLogLevel, ReplicaSubnetType,
};

fn descriptor(port: Option<u16>) -> LocalServerDescriptor {
    LocalServerDescriptor {
        replica: ReplicaConfig { port, subnet_type: None, log_level: None },
        bitcoin: BitcoinConfig { enabled: true },
        canister_http: CanisterHttpConfig { enabled: false },
    }
}

#[test]
fn backend_settings_fill_in_defaults() {
    let b = get_replica_backend_settings(&descriptor(Some(8000)), 5);
    assert_eq!(b.settings.http_handler.port, HttpHandlerPortSetting::Port { port: 8000 });
    assert_eq!(b.settings.subnet_type, ReplicaSubnetType::Application);
    assert_eq!(b.settings.log_level, ReplicaLogLevel::Error);
    assert!(b.settings.btc_adapter.enabled);
    assert!(!b.settings.canister_http_adapter.enabled);
    assert_eq!(b.settings.artificial_delay, 5);

    let b2 = get_replica_backend_settings(&descriptor(None), 0);
    assert_eq!(b2.settings.http_handler.port, HttpHandlerPortSetting::WritePortToPath);
}

#[test]
fn canonical_json_is_exact() {
    let backend = get_replica_backend_settings(&descriptor(Some(8000)), 0);
    let bytes = settings_json_bytes("abc", &backend);
    let expected = "{\"ic_repo_commit\":\"abc\",\"settings\":{\"http_handler\":{\"port\":{\"type\":\"port\",\"port\":8000}},\"subnet_type\":\"application\",\"btc_adapter\":{\"enabled\":true},\"canister_http_adapter\":{\"enabled\":false},\"log_level\":\"error\",\"artificial_delay\":0}}";
    assert_eq!(String::from_utf8(bytes).unwrap(), expected);
}

#[test]
fn json_escaping_matches_the_reference_encoder() {
    let tricky = "a\"b\\c\nd\te\u{1}f";
    let escaped = escape_json_bytes(&tricky.as_bytes().to_vec());
    let reference =
        serde_json::to_string(&serde_json::Value::String(tricky.to_string())).unwrap();
    // The reference encoder wraps the escaped content in quotes.
    let inner = &reference[1..reference.len() - 1];
    assert_eq!(String::from_utf8(escaped).unwrap(), inner);
}

#[test]
fn digest_is_hex_and_deterministic() {
    let d = descriptor(Some(8080));
    let one = get_settings_digest("0123abc", &d, 3);
    let two = get_settings_digest("0123abc", &d, 3);
    assert_eq!(one, two);
    assert_eq!(one.len(), 64);
    assert!(one.chars().all(|c| c.is_ascii_hexdigit() && !c.is_ascii_uppercase()));
    // A different commit or delay gives a different normalized form.
    let other = get_settings_digest("0123abd", &d, 3);
    assert_ne!(one, other);
    let slower = get_settings_digest("0123abc", &d, 4);
    assert_ne!(one, slower);
}

fn opts(canister: Option<&str>, all: bool, mode: InstallModeHint, wasm: Option<&str>)
    -> CanisterInstallOpts {
    CanisterInstallOpts {
        canister: canister.map(|s| s.to_string()),
        all,
        async_call: false,
        install_mode: mode,
        upgrade_unchanged: false,
        argument: None,
        argument_type: None,
        wasm: wasm.map(|s| s.to_string()),
        output_env_file: None,
        yes: false,
        no_asset_upgrade: false,
        always_assist: false,
    }
}

#[test]
fn reinstall_needs_a_single_canister() {
    let o = opts(Some("web"), true, InstallModeHint::Reinstall, None);
    let r = plan_install(&o, false, false, false, &"local".to_string());
    assert!(matches!(r, Err(InstallPlanError::ReinstallRequiresSingleCanister)));
}

#[test]
fn install_by_id_needs_a_wasm() {
    let o = opts(Some("aaaaa-aa"), false, InstallModeHint::Install, None);
    let r = plan_install(&o, true, false, false, &"local".to_string());
    assert!(matches!(r, Err(InstallPlanError::WasmRequiredForCanisterId)));
}

#[test]
fn install_by_id_with_wasm_is_accepted() {
    let o = opts(Some("aaaaa-aa"), false, InstallModeHint::Install, Some("a.wasm"));
    let r = plan_install(&o, true, false, false, &"local".to_string());
    match r {
        Ok(InstallTarget::ByCanisterId { canister_id, wasm }) => {
            assert_eq!(canister_id, "aaaaa-aa");
            assert_eq!(wasm, "a.wasm");
        }
        _ => panic!("expected ByCanisterId"),
    }
}

#[test]
fn pull_dependency_is_rejected() {
    let o = opts(Some("dep"), false, InstallModeHint::Auto, None);
    let r = plan_install(&o, false, true, false, &"local".to_string());
    match r {
        Err(InstallPlanError::PullDependency { canister }) => assert_eq!(canister, "dep"),
        _ => panic!("expected PullDependency"),
    }
}

#[test]
fn remote_canister_is_rejected() {
    let o = opts(Some("web"), false, InstallModeHint::Auto, None);
    let r = plan_install(&o, false, false, true, &"ic".to_string());
    match r {
        Err(InstallPlanError::RemoteCanister { canister, network }) => {
            assert_eq!(canister, "web");
            assert_eq!(network, "ic");
        }
        _ => panic!("expected RemoteCanister"),
    }
}

#[test]
fn install_by_name_and_all_are_accepted() {
    let o = opts(Some("web"), false, InstallModeHint::Auto, None);
    let r = plan_install(&o, false, false, false, &"local".to_string());
    match r {
        Ok(InstallTarget::ByName { name, wasm }) => {
            assert_eq!(name, "web");
            assert!(wasm.is_none());
        }
        _ => panic!("expected ByName"),
    }
    let o2 = opts(None, true, InstallModeHint::Auto, None);
    let r2 = plan_install(&o2, false, false, false, &"local".to_string());
    assert!(matches!(r2, Ok(InstallTarget::AllCanisters)));
}
