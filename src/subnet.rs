use vstd::prelude::*;

use crate::principal::CanisterId;

verus! {

/// Marks identifiers that name a subnet.
#[derive(Debug)]
pub struct SubnetTag {}

/// The raw bytes of the registry canister of the main network.
pub open spec fn mainnet_registry_bytes() -> Seq<u8> {
    seq![0u8, 0u8, 0u8, 0u8, 0u8, 0u8, 0u8, 0u8, 1u8, 1u8]
}

/// The identifier of the registry canister of the main network, which
/// answers which subnet hosts a canister.
pub fn mainnet_registry_canister_id() -> (r: CanisterId)
    ensures
        r@ == mainnet_registry_bytes(),
{
    let mut b: Vec<u8> = Vec::new();
    let mut i: usize = 0;
    while i < 8
        invariant
            i <= 8,
            b@ == Seq::new(i as nat, |k: int| 0u8),
        decreases 8 - i,
    {
        b.push(0u8);
        i = i + 1;
        assert(b@ =~= Seq::new(i as nat, |k: int| 0u8));
    }
    b.push(1u8);
    b.push(1u8);
    assert(b@ =~= mainnet_registry_bytes());
    CanisterId::from_bytes(b)
}

} // verus!
