use dfx::builders::{BuildError, IdlBuildOutput, WasmBuildOutput};
use dfx::config::{
    CanisterDeclarationsConfig, CanisterTypeProperties, ConfigCanistersCanister,
    InitializationValues,
};
use dfx::error::DfxConfigError;
use dfx::pool::{BuildStep, CanisterPool, ToolOutcome};
use dfx::principal::CanisterId;
use dfx::wasm::postprocess_module;

const EMPTY_MODULE: [u8; 8] = [0x00, 0x61, 0x73, 0x6d, 0x01, 0x00, 0x00, 0x00];
const IDL: &[u8] = b"service : { greet : (text) -> (text) }";

fn canister(deps: &[&str], props: CanisterTypeProperties) -> ConfigCanistersCanister {
    ConfigCanistersCanister {
        declarations: CanisterDeclarationsConfig::default(),
        remote: None,
        args: None,
        initialization_values: InitializationValues::default(),
        dependencies: deps.iter().map(|d| d.to_string()).collect(),
        frontend: None,
        type_specific: props,
        post_install: vec![],
        main: None,
    }
}

fn rust(package: &str) -> CanisterTypeProperties {
    CanisterTypeProperties::Rust {
        package: package.to_string(),
        candid: format!("src/{}/{}.did", package, package),
    }
}

fn id(last: u8) -> CanisterId {
    CanisterId::try_from_slice(&[0, 0, 0, 0, 0, 0, 0, last, 1, 1]).unwrap()
}

fn success() -> ToolOutcome {
    ToolOutcome { success: true, wasm: Some(EMPTY_MODULE.to_vec()), idl: Some(IDL.to_vec()) }
}

fn strings(v: &[&str]) -> Vec<String> {
    v.iter().map(|s| s.to_string()).collect()
}

#[test]
fn end_to_end_library_then_application() {
    let canisters = vec![
        ("lib".to_string(), canister(&[], rust("lib"))),
        ("app".to_string(), canister(&["lib"], rust("my-app"))),
    ];
    let lib_id_text = id(1).to_text();
    let mut pool = CanisterPool::new(canisters, vec![id(1), id(2)]).unwrap();
    let target = "app".to_string();
    let mut run = pool.start_build(Some(&target)).unwrap();
    assert_eq!(run.order, strings(&["lib", "app"]));

    match pool.next_step(&mut run) {
        BuildStep::Build { canister, commands, env, wasm_path, idl_path } => {
            assert_eq!(canister, "lib");
            assert_eq!(commands.len(), 1);
            assert_eq!(commands[0].program, "cargo");
            assert_eq!(
                commands[0].args,
                strings(&["build", "--target", "wasm32-unknown-unknown", "--release", "-p", "lib"])
            );
            assert!(env.is_empty());
            assert_eq!(wasm_path, "target/wasm32-unknown-unknown/release/lib.wasm");
            assert_eq!(idl_path, "src/lib/lib.did");
        }
        BuildStep::Finished => panic!("lib should be built first"),
    }
    let written = pool.complete_step(&mut run, success()).unwrap();
    assert_eq!(written, postprocess_module(&EMPTY_MODULE, IDL).unwrap());
    assert!(pool.outputs[0].is_some());

    match pool.next_step(&mut run) {
        BuildStep::Build { canister, env, wasm_path, .. } => {
            assert_eq!(canister, "app");
            assert_eq!(env, vec![("CANISTER_ID_LIB".to_string(), lib_id_text.clone())]);
            assert_eq!(wasm_path, "target/wasm32-unknown-unknown/release/my_app.wasm");
        }
        BuildStep::Finished => panic!("app should be built next"),
    }
    assert!(pool.complete_step(&mut run, success()).is_some());
    assert!(matches!(pool.next_step(&mut run), BuildStep::Finished));

    assert_eq!(run.results.len(), 2);
    assert_eq!(run.results[0].0, "lib");
    assert_eq!(run.results[1].0, "app");
    let app = run.results[1].1.as_ref().unwrap();
    assert_eq!(app.canister_id.as_slice(), id(2).as_slice());
    match &app.wasm {
        WasmBuildOutput::File(p) => assert_eq!(p, "target/wasm32-unknown-unknown/release/my_app.wasm"),
        other => panic!("unexpected: {:?}", other),
    }
    match &app.idl {
        IdlBuildOutput::File(p) => assert_eq!(p, "src/my-app/my-app.did"),
        other => panic!("unexpected: {:?}", other),
    }
    assert!(!run.stopped);
}

#[test]
fn dependency_identifier_is_injected() {
    let foo = CanisterTypeProperties::Custom {
        wasm: "foo.wasm".to_string(),
        candid: "foo.did".to_string(),
        build: vec!["make foo".to_string()],
    };
    let canisters = vec![
        ("foo".to_string(), canister(&["bar-svc"], foo)),
        ("bar-svc".to_string(), canister(&[], rust("bar"))),
    ];
    let bar_id = CanisterId::from_text("rwlgt-iiaaa-aaaaa-aaaaa-cai").unwrap();
    let mut pool = CanisterPool::new(canisters, vec![id(3), bar_id]).unwrap();
    let target = "foo".to_string();
    let mut run = pool.start_build(Some(&target)).unwrap();
    assert!(matches!(pool.next_step(&mut run), BuildStep::Build { .. }));
    pool.complete_step(&mut run, success()).unwrap();
    match pool.next_step(&mut run) {
        BuildStep::Build { canister, commands, env, wasm_path, idl_path } => {
            assert_eq!(canister, "foo");
            assert_eq!(
                env,
                vec![("CANISTER_ID_BAR_SVC".to_string(), "rwlgt-iiaaa-aaaaa-aaaaa-cai".to_string())]
            );
            assert_eq!(commands.len(), 1);
            assert_eq!(commands[0].program, "sh");
            assert_eq!(commands[0].args, strings(&["-c", "make foo"]));
            assert_eq!(wasm_path, "foo.wasm");
            assert_eq!(idl_path, "foo.did");
        }
        BuildStep::Finished => panic!("foo should be built"),
    }
}

#[test]
fn failure_stops_the_build() {
    let canisters = vec![
        ("A".to_string(), canister(&[], rust("a"))),
        ("B".to_string(), canister(&[], rust("b"))),
        ("C".to_string(), canister(&[], rust("c"))),
    ];
    let mut pool = CanisterPool::new(canisters, vec![id(1), id(2), id(3)]).unwrap();
    let mut run = pool.start_build(None).unwrap();
    assert_eq!(run.order, strings(&["A", "B", "C"]));
    assert!(matches!(pool.next_step(&mut run), BuildStep::Build { .. }));
    assert!(pool.complete_step(&mut run, success()).is_some());
    assert!(matches!(pool.next_step(&mut run), BuildStep::Build { .. }));
    let failed = ToolOutcome { success: false, wasm: None, idl: None };
    assert!(pool.complete_step(&mut run, failed).is_none());
    assert!(matches!(pool.next_step(&mut run), BuildStep::Finished));
    assert!(pool.complete_step(&mut run, success()).is_none());

    assert_eq!(run.results.len(), 2);
    assert!(run.results[0].1.is_ok());
    match &run.results[1].1 {
        Err(BuildError::ToolFailed(n)) => assert_eq!(n, "B"),
        other => panic!("unexpected: {:?}", other),
    }
    assert!(run.stopped);
    assert!(pool.outputs[0].is_some());
    assert!(pool.outputs[1].is_none());
    assert!(pool.outputs[2].is_none());
}

#[test]
fn cycle_stops_before_any_build() {
    let canisters = vec![
        ("A".to_string(), canister(&["B"], rust("a"))),
        ("B".to_string(), canister(&["A"], rust("b"))),
    ];
    let pool = CanisterPool::new(canisters, vec![id(1), id(2)]).unwrap();
    match pool.start_build(None) {
        Err(DfxConfigError::CanisterCircularDependency(path)) => {
            assert_eq!(path, strings(&["A", "B", "A"]))
        }
        other => panic!("unexpected: {:?}", other.map(|r| r.order)),
    }
    assert!(pool.outputs.iter().all(|o| o.is_none()));
}

#[test]
fn unsupported_type_fails_without_running_a_tool() {
    let canisters = vec![("m".to_string(), canister(&[], CanisterTypeProperties::Motoko))];
    let pool = CanisterPool::new(canisters, vec![id(1)]).unwrap();
    let mut run = pool.start_build(None).unwrap();
    assert!(matches!(pool.next_step(&mut run), BuildStep::Finished));
    match &run.results[0].1 {
        Err(BuildError::NoBuilder(n)) => assert_eq!(n, "m"),
        other => panic!("unexpected: {:?}", other),
    }
    assert!(run.stopped);
}

#[test]
fn missing_artifacts_are_errors() {
    let make = || {
        let canisters = vec![("a".to_string(), canister(&[], rust("a")))];
        let pool = CanisterPool::new(canisters, vec![id(1)]).unwrap();
        let run = pool.start_build(None).unwrap();
        (pool, run)
    };
    let (mut pool, mut run) = make();
    pool.complete_step(&mut run, ToolOutcome { success: true, wasm: None, idl: Some(IDL.to_vec()) });
    assert!(matches!(&run.results[0].1, Err(BuildError::ModuleMissing(n)) if n == "a"));

    let (mut pool, mut run) = make();
    pool.complete_step(&mut run, ToolOutcome { success: true, wasm: Some(EMPTY_MODULE.to_vec()), idl: None });
    assert!(matches!(&run.results[0].1, Err(BuildError::IdlNotFound(p)) if p == "src/a/a.did"));

    let (mut pool, mut run) = make();
    pool.complete_step(&mut run, ToolOutcome { success: true, wasm: Some(b"not wasm".to_vec()), idl: Some(IDL.to_vec()) });
    assert!(matches!(&run.results[0].1, Err(BuildError::InvalidModule(n, _)) if n == "a"));
    assert!(run.stopped);
}

#[test]
fn duplicate_canister_names_refused_by_pool() {
    let canisters = vec![
        ("a".to_string(), canister(&[], rust("a"))),
        ("a".to_string(), canister(&[], rust("b"))),
    ];
    assert!(matches!(
        CanisterPool::new(canisters, vec![id(1), id(2)]),
        Err(DfxConfigError::DuplicateCanisterName(_))
    ));
}

#[test]
fn rebuilding_gives_identical_outputs() {
    let build_once = || {
        let canisters = vec![("a".to_string(), canister(&[], rust("a")))];
        let mut pool = CanisterPool::new(canisters, vec![id(1)]).unwrap();
        let mut run = pool.start_build(None).unwrap();
        pool.next_step(&mut run);
        let bytes = pool.complete_step(&mut run, success()).unwrap();
        let idl = match &run.results[0].1.as_ref().unwrap().idl {
            IdlBuildOutput::File(p) => p.clone(),
            IdlBuildOutput::Idl(_) => panic!("expected a file"),
        };
        (bytes, idl)
    };
    assert_eq!(build_once(), build_once());
}

#[test]
fn interface_description_lookup() {
    let p = "src/a/a.did".to_string();
    assert_eq!(dfx::builders::generate_idl(&p, true).unwrap(), p);
    assert!(matches!(dfx::builders::generate_idl(&p, false), Err(BuildError::IdlNotFound(q)) if q == p));
}

#[test]
fn dependency_lookup_in_the_pool() {
    let canisters = vec![
        ("a".to_string(), canister(&["b", "c"], rust("a"))),
        ("b".to_string(), canister(&[], rust("b"))),
        ("c".to_string(), canister(&["gone"], rust("c"))),
    ];
    let pool = CanisterPool::new(canisters, vec![id(1), id(2), id(3)]).unwrap();
    assert_eq!(pool.get_first_canister_with_name(&"c".to_string()), Some(2));
    assert_eq!(pool.get_first_canister_with_name(&"zzz".to_string()), None);
    let ids = pool.get_dependencies(0).unwrap();
    assert_eq!(ids.len(), 2);
    assert_eq!(ids[0].as_slice(), id(2).as_slice());
    assert_eq!(ids[1].as_slice(), id(3).as_slice());
    let env = pool.environment_variables(0).unwrap();
    assert_eq!(
        env,
        vec![
            ("CANISTER_ID_B".to_string(), id(2).to_text()),
            ("CANISTER_ID_C".to_string(), id(3).to_text()),
        ]
    );
    match pool.get_dependencies(2) {
        Err(BuildError::DependencyNotFound(a, b)) => {
            assert_eq!(a, "c");
            assert_eq!(b, "gone");
        }
        other => panic!("unexpected: {:?}", other),
    }
    assert!(pool.environment_variables(2).is_err());
}
