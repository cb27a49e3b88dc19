use vstd::prelude::*;

verus! {

/// The module that results from shrinking the module encoded in `wasm`, if
/// it can be read.
pub uninterp spec fn shrunk_module(wasm: Seq<u8>) -> Option<Seq<u8>>;

/// The module encoded in `wasm` with the public metadata section `name`
/// holding `data`, if it can be read.
pub uninterp spec fn with_public_metadata(wasm: Seq<u8>, name: Seq<char>, data: Seq<u8>) -> Option<
    Seq<u8>,
>;

pub open spec fn has_wasm_magic(b: Seq<u8>) -> bool {
    b.len() >= 4 && b[0] == 0u8 && b[1] == 97u8 && b[2] == 115u8 && b[3] == 109u8
}

pub open spec fn has_gzip_magic(b: Seq<u8>) -> bool {
    b.len() >= 3 && b[0] == 31u8 && b[1] == 139u8 && b[2] == 8u8
}

/// Relies on `ic_wasm::shrink::shrink`, run on the module that
/// `ic_wasm::utils::parse_wasm` reads and emitted again: the result depends
/// on the bytes alone, and reading fails on bytes that start with neither
/// the module nor the gzip magic.
#[verifier::external_body]
fn shrink_wasm(wasm: &[u8]) -> (r: Result<Vec<u8>, String>)
    ensures
        r is Ok <==> shrunk_module(wasm@) is Some,
        r matches Ok(b) ==> shrunk_module(wasm@) == Some(b@),
        !has_wasm_magic(wasm@) && !has_gzip_magic(wasm@) ==> r is Err,
{
    let mut m = ic_wasm::utils::parse_wasm(wasm, false).map_err(|e| e.to_string())?;
    ic_wasm::shrink::shrink(&mut m);
    Ok(m.emit_wasm())
}

/// Relies on `ic_wasm::metadata::add_metadata` with public visibility, run
/// on the module that `ic_wasm::utils::parse_wasm` reads and emitted again:
/// the result depends on the arguments alone.
#[verifier::external_body]
fn add_public_metadata(wasm: &[u8], name: &str, data: &[u8]) -> (r: Result<Vec<u8>, String>)
    ensures
        r is Ok <==> with_public_metadata(wasm@, name@, data@) is Some,
        r matches Ok(b) ==> with_public_metadata(wasm@, name@, data@) == Some(b@),
{
    let mut m = ic_wasm::utils::parse_wasm(wasm, true).map_err(|e| e.to_string())?;
    ic_wasm::metadata::add_metadata(&mut m, ic_wasm::metadata::Kind::Public, name, data.to_vec());
    Ok(m.emit_wasm())
}

/// The section under which a module carries its interface description.
pub open spec fn candid_service_section() -> Seq<char> {
    "candid:service"@
}

/// A compiled module after post-processing: shrunk, then carrying the
/// interface description `idl` as public metadata.
pub open spec fn postprocessed(wasm: Seq<u8>, idl: Seq<u8>) -> Option<Seq<u8>> {
    match shrunk_module(wasm) {
        Some(s) => with_public_metadata(s, candid_service_section(), idl),
        None => None,
    }
}

/// Shrinks the module `wasm` and embeds `idl` in it as its interface
/// description; fails with the reader's message when the module is invalid.
pub fn postprocess_module(wasm: &[u8], idl: &[u8]) -> (r: Result<Vec<u8>, String>)
    ensures
        r is Ok <==> postprocessed(wasm@, idl@) is Some,
        r matches Ok(b) ==> postprocessed(wasm@, idl@) == Some(b@),
{
    let shrunk = shrink_wasm(wasm)?;
    let section = "candid:service";
    proof {
        reveal_strlit("candid:service");
    }
    add_public_metadata(shrunk.as_slice(), section, idl)
}

/// Post-processing depends on the module and the interface description
/// alone: the same inputs always give the same bytes, or always fail.
pub proof fn lemma_postprocessing_is_deterministic(
    wasm1: Seq<u8>,
    idl1: Seq<u8>,
    wasm2: Seq<u8>,
    idl2: Seq<u8>,
)
    requires
        wasm1 == wasm2,
        idl1 == idl2,
    ensures
        postprocessed(wasm1, idl1) == postprocessed(wasm2, idl2),
{
}

} // verus!
