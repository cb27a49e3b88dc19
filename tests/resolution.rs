use dfx::config::{
    CanisterDeclarationsConfig, CanisterTypeProperties, ConfigCanistersCanister, ConfigInterface,
    InitializationValues,
};
use dfx::error::DfxConfigError;
use dfx::graph::resolve_dependencies;

fn canister(deps: &[&str]) -> ConfigCanistersCanister {
    ConfigCanistersCanister {
        declarations: CanisterDeclarationsConfig::default(),
        remote: None,
        args: None,
        initialization_values: InitializationValues::default(),
        dependencies: deps.iter().map(|d| d.to_string()).collect(),
        frontend: None,
        type_specific: CanisterTypeProperties::Motoko,
        post_install: vec![],
        main: None,
    }
}

fn project(decls: &[(&str, &[&str])]) -> Vec<(String, ConfigCanistersCanister)> {
    decls.iter().map(|(n, d)| (n.to_string(), canister(d))).collect()
}

fn interface(canisters: Option<Vec<(String, ConfigCanistersCanister)>>) -> ConfigInterface {
    ConfigInterface {
        profile: None,
        version: None,
        dfx: None,
        canisters,
        defaults: None,
        networks: None,
    }
}

fn names(v: &[&str]) -> Vec<String> {
    v.iter().map(|s| s.to_string()).collect()
}

#[test]
fn dependency_comes_before_dependent() {
    let p = project(&[("app", &["lib"]), ("lib", &[])]);
    let focus = "app".to_string();
    let order = resolve_dependencies(&p, Some(&focus)).unwrap();
    assert_eq!(order, names(&["lib", "app"]));
}

#[test]
fn transitive_dependencies_come_first() {
    let p = project(&[("a", &["b"]), ("b", &["c"]), ("c", &[]), ("unrelated", &[])]);
    let focus = "a".to_string();
    let order = resolve_dependencies(&p, Some(&focus)).unwrap();
    assert_eq!(order, names(&["c", "b", "a"]));
}

#[test]
fn shared_dependency_listed_once() {
    let p = project(&[("top", &["left", "right"]), ("left", &["base"]), ("right", &["base"]), ("base", &[])]);
    let focus = "top".to_string();
    let order = resolve_dependencies(&p, Some(&focus)).unwrap();
    assert_eq!(order, names(&["base", "left", "right", "top"]));
}

#[test]
fn no_focus_covers_every_canister_in_declaration_order() {
    let p = project(&[("x", &[]), ("y", &["z"]), ("z", &[])]);
    let order = resolve_dependencies(&p, None).unwrap();
    assert_eq!(order, names(&["x", "z", "y"]));
}

#[test]
fn two_canister_cycle_is_reported_with_path() {
    let p = project(&[("A", &["B"]), ("B", &["A"])]);
    let focus = "A".to_string();
    match resolve_dependencies(&p, Some(&focus)) {
        Err(DfxConfigError::CanisterCircularDependency(path)) => {
            assert_eq!(path, names(&["A", "B", "A"]));
        }
        other => panic!("unexpected: {:?}", other),
    }
}

#[test]
fn cycle_found_without_focus() {
    let p = project(&[("ok", &[]), ("A", &["B"]), ("B", &["C"]), ("C", &["B"])]);
    match resolve_dependencies(&p, None) {
        Err(DfxConfigError::CanisterCircularDependency(path)) => {
            assert_eq!(path, names(&["B", "C", "B"]));
        }
        other => panic!("unexpected: {:?}", other),
    }
}

#[test]
fn self_dependency_is_a_cycle() {
    let p = project(&[("solo", &["solo"])]);
    let focus = "solo".to_string();
    match resolve_dependencies(&p, Some(&focus)) {
        Err(DfxConfigError::CanisterCircularDependency(path)) => {
            assert_eq!(path, names(&["solo", "solo"]));
        }
        other => panic!("unexpected: {:?}", other),
    }
}

#[test]
fn missing_dependency_names_both_canisters() {
    let p = project(&[("A", &["ghost"])]);
    let focus = "A".to_string();
    match resolve_dependencies(&p, Some(&focus)) {
        Err(DfxConfigError::CanisterDependencyNotFound(a, b)) => {
            assert_eq!(a, "A");
            assert_eq!(b, "ghost");
        }
        other => panic!("unexpected: {:?}", other),
    }
}

#[test]
fn unknown_focus_is_not_found() {
    let p = project(&[("A", &[])]);
    let focus = "nope".to_string();
    match resolve_dependencies(&p, Some(&focus)) {
        Err(DfxConfigError::CanisterNotFound(n)) => assert_eq!(n, "nope"),
        other => panic!("unexpected: {:?}", other),
    }
}

#[test]
fn duplicate_names_are_refused() {
    let p = project(&[("A", &[]), ("B", &[]), ("A", &[])]);
    match resolve_dependencies(&p, None) {
        Err(DfxConfigError::DuplicateCanisterName(n)) => assert_eq!(n, "A"),
        other => panic!("unexpected: {:?}", other),
    }
}

#[test]
fn empty_project_resolves_to_nothing() {
    let p = project(&[]);
    assert_eq!(resolve_dependencies(&p, None).unwrap(), Vec::<String>::new());
}

#[test]
fn names_with_dependencies_of_one_canister() {
    let cfg = interface(Some(project(&[("app", &["lib"]), ("lib", &[]), ("other", &[])])));
    assert_eq!(
        cfg.get_canister_names_with_dependencies(Some("app")).unwrap(),
        names(&["lib", "app"])
    );
    assert_eq!(
        cfg.get_canister_names_with_dependencies(None).unwrap(),
        names(&["lib", "app", "other"])
    );
}

#[test]
fn names_with_dependencies_without_canisters() {
    let cfg = interface(None);
    match cfg.get_canister_names_with_dependencies(Some("app")) {
        Err(DfxConfigError::GetCanistersWithDependenciesFailed(focus, inner)) => {
            assert_eq!(focus, Some("app".to_string()));
            assert!(matches!(*inner, DfxConfigError::CanistersFieldDoesNotExist()));
        }
        other => panic!("unexpected: {:?}", other),
    }
}

#[test]
fn names_with_dependencies_wraps_cycle() {
    let cfg = interface(Some(project(&[("A", &["B"]), ("B", &["A"])])));
    match cfg.get_canister_names_with_dependencies(None) {
        Err(DfxConfigError::GetCanistersWithDependenciesFailed(None, inner)) => match *inner {
            DfxConfigError::CanisterCircularDependency(path) => {
                assert_eq!(path, names(&["A", "B", "A"]))
            }
            other => panic!("unexpected: {:?}", other),
        },
        other => panic!("unexpected: {:?}", other),
    }
}
