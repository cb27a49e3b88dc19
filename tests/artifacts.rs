use dfx::env::{candid_path_var_name, canister_id_var_name};
use dfx::principal::CanisterId;
use dfx::wasm::postprocess_module;

const EMPTY_MODULE: [u8; 8] = [0x00, 0x61, 0x73, 0x6d, 0x01, 0x00, 0x00, 0x00];

#[test]
fn variable_names_fold_case_and_punctuation() {
    assert_eq!(canister_id_var_name("my-canister_2"), "CANISTER_ID_MY_CANISTER_2");
    assert_eq!(canister_id_var_name("Ünï.x"), "CANISTER_ID__N__X");
    assert_eq!(candid_path_var_name("lib"), "CANISTER_CANDID_PATH_LIB");
    assert_eq!(canister_id_var_name(""), "CANISTER_ID_");
}

#[test]
fn identifier_text() {
    let id = CanisterId::try_from_slice(&[0, 0, 0, 0, 0, 0, 0, 0, 1, 1]).unwrap();
    assert_eq!(id.to_text(), "rwlgt-iiaaa-aaaaa-aaaaa-cai");
    assert_eq!(CanisterId::try_from_slice(&[]).unwrap().to_text(), "aaaaa-aa");
}

#[test]
fn identifier_length_limit() {
    assert!(CanisterId::try_from_slice(&[7u8; 29]).is_some());
    assert!(CanisterId::try_from_slice(&[7u8; 30]).is_none());
}

#[test]
fn identifier_from_text() {
    let id = CanisterId::from_text("rwlgt-iiaaa-aaaaa-aaaaa-cai").unwrap();
    assert_eq!(id.as_slice(), &[0, 0, 0, 0, 0, 0, 0, 0, 1, 1]);
    assert!(CanisterId::from_text("not a principal").is_none());
    assert_eq!(id.duplicate().as_slice(), id.as_slice());
}

#[test]
fn test_registry_canister_id() {
    assert_eq!(
        dfx::subnet::mainnet_registry_canister_id().as_slice(),
        CanisterId::from_text("rwlgt-iiaaa-aaaaa-aaaaa-cai").unwrap().as_slice()
    );
}

#[test]
fn postprocessing_embeds_interface() {
    let idl = b"service : {}";
    let out = postprocess_module(&EMPTY_MODULE, idl).unwrap();
    assert_ne!(out, EMPTY_MODULE.to_vec());
    assert!(out.starts_with(&EMPTY_MODULE[..4]));
    let name = b"icp:public candid:service";
    assert!(out.windows(name.len()).any(|w| w == name));
    assert!(out.windows(idl.len()).any(|w| w == idl));
}

#[test]
fn postprocessing_is_deterministic() {
    let idl = b"service : { f : () -> () }";
    assert_eq!(
        postprocess_module(&EMPTY_MODULE, idl).unwrap(),
        postprocess_module(&EMPTY_MODULE, idl).unwrap()
    );
}

#[test]
fn postprocessing_rejects_non_modules() {
    assert!(postprocess_module(b"hello", b"service : {}").is_err());
    assert!(postprocess_module(&[], b"service : {}").is_err());
}

#[test]
fn postprocessing_drops_foreign_custom_sections() {
    // the empty module followed by a custom section "foo" holding one byte
    let mut module = EMPTY_MODULE.to_vec();
    module.extend_from_slice(&[0x00, 0x05, 0x03, b'f', b'o', b'o', 0x2a]);
    let out = postprocess_module(&module, b"service : {}").unwrap();
    assert!(!out.windows(3).any(|w| w == b"foo"));
    assert_eq!(out, postprocess_module(&EMPTY_MODULE, b"service : {}").unwrap());
}
