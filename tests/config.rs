use dfx::config::{
    default_as_false, CanisterDeclarationsConfig, CanisterTypeProperties, ConfigCanistersCanister,
    ConfigCanistersCanisterRemote, ConfigDefaults, ConfigDefaultsBuild, ConfigInterface,
    ConfigLocalProvider, ConfigNetwork, ConfigNetworkProvider, InitializationValues, NetworkType,
    PropertiesError, ReplicaSubnetType,
};
use dfx::error::DfxConfigError;
use dfx::principal::CanisterId;

fn canister(values: InitializationValues) -> ConfigCanistersCanister {
    ConfigCanistersCanister {
        declarations: CanisterDeclarationsConfig::default(),
        remote: None,
        args: None,
        initialization_values: values,
        dependencies: vec![],
        frontend: None,
        type_specific: CanisterTypeProperties::Motoko,
        post_install: vec![],
        main: None,
    }
}

fn interface(
    canisters: Option<Vec<(String, ConfigCanistersCanister)>>,
    networks: Option<Vec<(String, ConfigNetwork)>>,
) -> ConfigInterface {
    ConfigInterface { profile: None, version: None, dfx: None, canisters, defaults: None, networks }
}

fn s(v: &str) -> Option<String> {
    Some(v.to_string())
}

#[test]
fn type_names() {
    assert_eq!(CanisterTypeProperties::Motoko.name(), "motoko");
    assert_eq!(
        CanisterTypeProperties::Rust { package: "p".into(), candid: "c".into() }.name(),
        "rust"
    );
    assert_eq!(CanisterTypeProperties::Assets { source: vec![] }.name(), "assets");
    assert_eq!(
        CanisterTypeProperties::Custom { wasm: "w".into(), candid: "c".into(), build: vec![] }.name(),
        "custom"
    );
}

#[test]
fn subnet_type_strings() {
    assert_eq!(ReplicaSubnetType::System.as_ic_starter_string(), "system");
    assert_eq!(ReplicaSubnetType::Application.as_ic_starter_string(), "application");
    assert_eq!(
        ReplicaSubnetType::VerifiedApplication.as_ic_starter_string(),
        "verified_application"
    );
    assert_eq!(ReplicaSubnetType::default(), ReplicaSubnetType::Application);
}

#[test]
fn network_type_defaults() {
    assert_eq!(NetworkType::ephemeral(), NetworkType::Ephemeral);
    assert_eq!(NetworkType::persistent(), NetworkType::Persistent);
    assert_eq!(NetworkType::default(), NetworkType::Ephemeral);
    assert!(!default_as_false());
}

#[test]
fn properties_default_to_motoko() {
    let p = CanisterTypeProperties::from_fields(None, None, None, None, None, None).unwrap();
    assert!(matches!(p, CanisterTypeProperties::Motoko));
    let p = CanisterTypeProperties::from_fields(s("motoko"), s("ignored"), None, None, None, None)
        .unwrap();
    assert!(matches!(p, CanisterTypeProperties::Motoko));
}

#[test]
fn properties_of_each_type() {
    match CanisterTypeProperties::from_fields(s("rust"), s("pkg"), None, s("a.did"), None, None) {
        Ok(CanisterTypeProperties::Rust { package, candid }) => {
            assert_eq!(package, "pkg");
            assert_eq!(candid, "a.did");
        }
        other => panic!("unexpected: {:?}", other),
    }
    match CanisterTypeProperties::from_fields(s("assets"), None, Some(vec!["dist".into()]), None, None, None) {
        Ok(CanisterTypeProperties::Assets { source }) => assert_eq!(source, vec!["dist".to_string()]),
        other => panic!("unexpected: {:?}", other),
    }
    match CanisterTypeProperties::from_fields(
        s("custom"),
        None,
        None,
        s("c.did"),
        Some(vec!["make".into()]),
        s("c.wasm"),
    ) {
        Ok(CanisterTypeProperties::Custom { wasm, candid, build }) => {
            assert_eq!(wasm, "c.wasm");
            assert_eq!(candid, "c.did");
            assert_eq!(build, vec!["make".to_string()]);
        }
        other => panic!("unexpected: {:?}", other),
    }
}

#[test]
fn properties_missing_fields() {
    let missing = |r: Result<CanisterTypeProperties, PropertiesError>| match r {
        Err(PropertiesError::MissingField(f)) => f,
        other => panic!("unexpected: {:?}", other),
    };
    assert_eq!(missing(CanisterTypeProperties::from_fields(s("rust"), s("p"), None, None, None, None)), "candid");
    assert_eq!(missing(CanisterTypeProperties::from_fields(s("rust"), None, None, s("c"), None, None)), "package");
    assert_eq!(missing(CanisterTypeProperties::from_fields(s("assets"), None, None, None, None, None)), "source");
    assert_eq!(missing(CanisterTypeProperties::from_fields(s("custom"), None, None, s("c"), None, s("w"))), "build");
    assert_eq!(
        missing(CanisterTypeProperties::from_fields(s("custom"), None, None, None, Some(vec![]), s("w"))),
        "candid"
    );
    assert_eq!(
        missing(CanisterTypeProperties::from_fields(s("custom"), None, None, s("c"), Some(vec![]), None)),
        "wasm"
    );
}

#[test]
fn properties_unknown_type() {
    match CanisterTypeProperties::from_fields(s("python"), None, None, None, None, None) {
        Err(PropertiesError::UnknownVariant(x)) => assert_eq!(x, "python"),
        other => panic!("unexpected: {:?}", other),
    }
}

#[test]
fn allocations_of_a_canister() {
    let cfg = interface(
        Some(vec![
            (
                "test_project".to_string(),
                canister(InitializationValues {
                    compute_allocation: Some(100),
                    memory_allocation: Some(8_000_000_000),
                    freezing_threshold: Some(2_592_000),
                }),
            ),
            ("test_project_two".to_string(), canister(InitializationValues::default())),
        ]),
        None,
    );
    assert_eq!(cfg.get_compute_allocation("test_project").unwrap(), Some(100));
    assert_eq!(cfg.get_memory_allocation("test_project").unwrap(), Some(8_000_000_000));
    assert_eq!(cfg.get_freezing_threshold("test_project").unwrap(), Some(2_592_000));
    assert_eq!(cfg.get_compute_allocation("test_project_two").unwrap(), None);
    assert_eq!(cfg.get_memory_allocation("test_project_two").unwrap(), None);
    match cfg.get_compute_allocation("nope") {
        Err(DfxConfigError::CanisterNotFound(n)) => assert_eq!(n, "nope"),
        other => panic!("unexpected: {:?}", other),
    }
    assert!(matches!(
        interface(None, None).get_compute_allocation("x"),
        Err(DfxConfigError::CanistersFieldDoesNotExist())
    ));
}

#[test]
fn remote_canister_ids() {
    let mut c = canister(InitializationValues::default());
    c.remote = Some(ConfigCanistersCanisterRemote {
        candid: None,
        id: vec![(
            "ic".to_string(),
            CanisterId::from_text("rwlgt-iiaaa-aaaaa-aaaaa-cai").unwrap(),
        )],
    });
    let cfg = interface(
        Some(vec![("ledger".to_string(), c), ("local_only".to_string(), canister(InitializationValues::default()))]),
        None,
    );
    let id = cfg.get_remote_canister_id("ledger", "ic").unwrap().unwrap();
    assert_eq!(id.to_text(), "rwlgt-iiaaa-aaaaa-aaaaa-cai");
    assert!(cfg.get_remote_canister_id("ledger", "local").unwrap().is_none());
    assert!(cfg.is_remote_canister("ledger", "ic").unwrap());
    assert!(!cfg.is_remote_canister("ledger", "local").unwrap());
    assert!(!cfg.is_remote_canister("local_only", "ic").unwrap());
    assert!(matches!(cfg.is_remote_canister("nope", "ic"), Err(DfxConfigError::CanisterNotFound(_))));
}

#[test]
fn version_and_tool_defaults() {
    let mut cfg = interface(None, None);
    assert_eq!(cfg.get_version(), 1);
    assert_eq!(cfg.get_dfx(), None);
    cfg.version = Some(3);
    cfg.dfx = s("0.14.0");
    assert_eq!(cfg.get_version(), 3);
    assert_eq!(cfg.get_dfx(), s("0.14.0"));
}

#[test]
fn build_defaults() {
    let cfg = interface(None, None);
    let d = cfg.get_defaults();
    assert!(d.build.is_none());
    let b = d.get_build();
    assert_eq!(b.get_packtool(), None);
    assert_eq!(b.get_args(), None);
    let defaults = ConfigDefaults {
        build: Some(ConfigDefaultsBuild { packtool: s("vessel sources"), args: s("") }),
        ..ConfigDefaults::default()
    };
    let b = defaults.get_build();
    assert_eq!(b.get_packtool(), s("vessel sources"));
    assert_eq!(b.get_args(), None);
}

#[test]
fn local_network_defaults_to_ephemeral() {
    let cfg = interface(None, None);
    match cfg.get_network("local") {
        Some(ConfigNetwork::ConfigLocalProvider(l)) => {
            assert_eq!(l.bind, "127.0.0.1:8000");
            assert_eq!(l.network_type, NetworkType::Ephemeral);
        }
        other => panic!("unexpected: {:?}", other),
    }
    assert!(cfg.get_network("somewhere").is_none());
}

#[test]
fn declared_networks_are_returned() {
    let cfg = interface(
        None,
        Some(vec![
            (
                "local".to_string(),
                ConfigNetwork::ConfigLocalProvider(ConfigLocalProvider {
                    bind: "localhost:8000".to_string(),
                    network_type: NetworkType::Persistent,
                    bitcoin: None,
                    bootstrap: None,
                    canister_http: None,
                    replica: None,
                }),
            ),
            (
                "staging".to_string(),
                ConfigNetwork::ConfigNetworkProvider(ConfigNetworkProvider {
                    providers: vec!["https://1.2.3.4:5000".to_string()],
                    network_type: NetworkType::Ephemeral,
                }),
            ),
        ]),
    );
    match cfg.get_network("local") {
        Some(ConfigNetwork::ConfigLocalProvider(l)) => {
            assert_eq!(l.bind, "localhost:8000");
            assert_eq!(l.network_type, NetworkType::Persistent);
        }
        other => panic!("unexpected: {:?}", other),
    }
    match cfg.get_network("staging") {
        Some(ConfigNetwork::ConfigNetworkProvider(p)) => {
            assert_eq!(p.providers, vec!["https://1.2.3.4:5000".to_string()]);
            assert_eq!(p.network_type, NetworkType::Ephemeral);
        }
        other => panic!("unexpected: {:?}", other),
    }
    match cfg.get_network("ic") {
        Some(ConfigNetwork::ConfigNetworkProvider(p)) => {
            assert_eq!(p.providers, vec!["https://ic0.app".to_string()]);
            assert_eq!(p.network_type, NetworkType::Persistent);
        }
        other => panic!("unexpected: {:?}", other),
    }
}
