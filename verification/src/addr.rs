//! Account addresses and the fixed identities this deployment speaks of.

use vstd::prelude::*;

verus! {

/// A 32-byte account address, the form in which the ledger names every
/// program, record and signer.
#[derive(Clone, Copy, PartialEq, Eq, Debug)]
pub struct Addr(pub [u8; 32]);

impl View for Addr {
    type V = Seq<u8>;

    open spec fn view(&self) -> Seq<u8> {
        self.0@
    }
}

/// This program's own identity on the ledger.
pub const PROGRAM_ID: [u8; 32] = [
    210, 95, 130, 163, 230, 72, 77, 253, 30, 225, 180, 60, 48, 196, 252, 102, 68, 183, 110, 213,
    217, 118, 201, 182, 83, 140, 102, 89, 90, 27, 87, 81,
];

/// The oracle service's fixed identity on the ledger.
pub const ORACLE_PROGRAM_ID: [u8; 32] = [
    4, 243, 236, 227, 186, 229, 243, 111, 177, 44, 201, 138, 255, 99, 28, 21, 0, 195, 193, 234, 92,
    53, 20, 85, 6, 11, 199, 130, 41, 130, 92, 60,
];

/// The seed naming the deployment's fixed agent slot ("agent").
pub const AGENT_SEED: [u8; 5] = [97, 103, 101, 110, 116];

/// The domain tag the queue-authority capability is derived from
/// ("queue_authority").
pub const QUEUE_AUTHORITY_SEED: [u8; 15] = [
    113, 117, 101, 117, 101, 95, 97, 117, 116, 104, 111, 114, 105, 116, 121,
];

/// The system allocator's identity (the all-zero address).
pub const SYSTEM_PROGRAM_ID: [u8; 32] = [
    0, 0, 0, 0, 0, 0, 0, 0, 0, 0, 0, 0, 0, 0, 0, 0, 0, 0, 0, 0, 0, 0, 0, 0, 0, 0, 0, 0, 0, 0, 0,
    0,
];

pub fn program_id() -> (r: Addr)
    ensures
        r@ == PROGRAM_ID@,
{
    Addr(PROGRAM_ID)
}

pub fn system_program_id() -> (r: Addr)
    ensures
        r@ == SYSTEM_PROGRAM_ID@,
{
    Addr(SYSTEM_PROGRAM_ID)
}

pub fn oracle_program_id() -> (r: Addr)
    ensures
        r@ == ORACLE_PROGRAM_ID@,
{
    Addr(ORACLE_PROGRAM_ID)
}

/// Whether two addresses are the same, byte for byte.
pub fn addr_eq(a: &Addr, b: &Addr) -> (r: bool)
    ensures
        r == (a@ == b@),
{
    let mut i: usize = 0;
    while i < 32
        invariant
            i <= 32,
            forall|j: int| 0 <= j < i ==> a.0[j] == b.0[j],
        decreases 32 - i,
    {
        if a.0[i] != b.0[i] {
            assert(a@ != b@);
            return false;
        }
        i += 1;
    }
    assert(a@ =~= b@);
    true
}

} // verus!
