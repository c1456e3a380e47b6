//! Identifier types for spendable ledger entries.
//!
//! A plain coin is addressed by the transaction that created it together with
//! an output index; a bridged message coin is addressed by its nonce.  The
//! two are unified by [`CoinId`], the exclusion domain of a spend query.

use vstd::prelude::*;

verus! {

/// A 32-byte identifier (a transaction id, for instance).
#[derive(Clone, Copy, Debug)]
pub struct Bytes32(pub [u8; 32]);

/// A 32-byte account address.
#[derive(Clone, Copy, Debug)]
pub struct Address(pub [u8; 32]);

/// A 32-byte asset identifier.
#[derive(Clone, Copy, Debug)]
pub struct AssetId(pub [u8; 32]);

/// The 32-byte nonce of a bridged message.
#[derive(Clone, Copy, Debug)]
pub struct Nonce(pub [u8; 32]);

/// Compares two 32-byte values.
fn bytes32_eq(a: &[u8; 32], b: &[u8; 32]) -> (r: bool)
    ensures
        r == (*a == *b),
{
    let mut i: usize = 0;
    while i < 32
        invariant
            0 <= i <= 32,
            forall|j: int| 0 <= j < i ==> a@[j] == b@[j],
        decreases 32 - i,
    {
        if a[i] != b[i] {
            return false;
        }
        i = i + 1;
    }
    proof {
        broadcast use vstd::array::group_array_axioms;

        assert(a@ =~= b@);
        assert(*a =~= *b);
    }
    true
}

impl Bytes32 {
    pub fn new(bytes: [u8; 32]) -> (r: Self)
        ensures
            r.0 == bytes,
    {
        Bytes32(bytes)
    }
}

impl PartialEq for Bytes32 {
    fn eq(&self, other: &Bytes32) -> bool {
        bytes32_eq(&self.0, &other.0)
    }
}

impl vstd::std_specs::cmp::PartialEqSpecImpl for Bytes32 {
    open spec fn obeys_eq_spec() -> bool {
        true
    }

    open spec fn eq_spec(&self, other: &Bytes32) -> bool {
        self.0 == other.0
    }
}

impl Address {
    pub fn new(bytes: [u8; 32]) -> (r: Self)
        ensures
            r.0 == bytes,
    {
        Address(bytes)
    }
}

impl PartialEq for Address {
    fn eq(&self, other: &Address) -> bool {
        bytes32_eq(&self.0, &other.0)
    }
}

impl vstd::std_specs::cmp::PartialEqSpecImpl for Address {
    open spec fn obeys_eq_spec() -> bool {
        true
    }

    open spec fn eq_spec(&self, other: &Address) -> bool {
        self.0 == other.0
    }
}

impl AssetId {
    pub fn new(bytes: [u8; 32]) -> (r: Self)
        ensures
            r.0 == bytes,
    {
        AssetId(bytes)
    }
}

impl PartialEq for AssetId {
    fn eq(&self, other: &AssetId) -> bool {
        bytes32_eq(&self.0, &other.0)
    }
}

impl vstd::std_specs::cmp::PartialEqSpecImpl for AssetId {
    open spec fn obeys_eq_spec() -> bool {
        true
    }

    open spec fn eq_spec(&self, other: &AssetId) -> bool {
        self.0 == other.0
    }
}

impl Nonce {
    pub fn new(bytes: [u8; 32]) -> (r: Self)
        ensures
            r.0 == bytes,
    {
        Nonce(bytes)
    }
}

impl PartialEq for Nonce {
    fn eq(&self, other: &Nonce) -> bool {
        bytes32_eq(&self.0, &other.0)
    }
}

impl vstd::std_specs::cmp::PartialEqSpecImpl for Nonce {
    open spec fn obeys_eq_spec() -> bool {
        true
    }

    open spec fn eq_spec(&self, other: &Nonce) -> bool {
        self.0 == other.0
    }
}

/// Identifies a plain coin: the id of the transaction that created it and the
/// index of the output within that transaction.
#[derive(Clone, Copy, Debug)]
pub struct UtxoId {
    pub tx_id: Bytes32,
    pub output_index: u16,
}

impl UtxoId {
    pub fn new(tx_id: Bytes32, output_index: u16) -> (r: Self)
        ensures
            r.tx_id == tx_id,
            r.output_index == output_index,
    {
        UtxoId { tx_id, output_index }
    }
}

impl PartialEq for UtxoId {
    fn eq(&self, other: &UtxoId) -> bool {
        self.tx_id == other.tx_id && self.output_index == other.output_index
    }
}

impl vstd::std_specs::cmp::PartialEqSpecImpl for UtxoId {
    open spec fn obeys_eq_spec() -> bool {
        true
    }

    open spec fn eq_spec(&self, other: &UtxoId) -> bool {
        self.tx_id == other.tx_id && self.output_index == other.output_index
    }
}

/// A selection-time handle for either kind of spendable entry.  It carries no
/// amount; it only names the entry within its variant's namespace.
#[derive(Clone, Copy, Debug)]
pub enum CoinId {
    Utxo(UtxoId),
    Message(Nonce),
}

impl PartialEq for CoinId {
    fn eq(&self, other: &CoinId) -> bool {
        match (self, other) {
            (CoinId::Utxo(a), CoinId::Utxo(b)) => a == b,
            (CoinId::Message(a), CoinId::Message(b)) => a == b,
            _ => false,
        }
    }
}

impl vstd::std_specs::cmp::PartialEqSpecImpl for CoinId {
    open spec fn obeys_eq_spec() -> bool {
        true
    }

    open spec fn eq_spec(&self, other: &CoinId) -> bool {
        *self == *other
    }
}

/// Builds the transaction id whose every byte is `i`.
pub fn txn_id(i: u8) -> (r: Bytes32)
    ensures
        r.0@ == Seq::new(32, |_j: int| i),
{
    Bytes32::new([i; 32])
}

} // verus!
