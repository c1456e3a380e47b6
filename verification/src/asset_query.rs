//! The normalized shape of a spend query.
//!
//! [`Exclude`] is the exclusion filter shared by every per-asset selection of
//! one query; [`AssetSpendTarget`] is one normalized asset leg; [`SpendQuery`]
//! bundles the owner, the ordered legs, the filter and the base asset id.

use vstd::prelude::*;

use crate::coins::ExcludeInput;
use crate::coins_query::CoinsQueryError;
use crate::ids::{Address, AssetId, CoinId};

verus! {

/// The set of identifiers the caller disallows.  Built once per query and
/// consulted by both selectors; it is never mutated after construction.
#[derive(Debug)]
pub struct Exclude {
    pub coin_ids: Vec<CoinId>,
}

/// The identifiers named by the caller-supplied exclusion lists: first the
/// excluded utxos, then the excluded message nonces.
pub open spec fn exclude_ids_of(value: Option<ExcludeInput>) -> Seq<CoinId> {
    match value {
        Some(e) => Seq::new(e.utxos@.len(), |i: int| CoinId::Utxo(e.utxos@[i])) + Seq::new(
            e.messages@.len(),
            |i: int| CoinId::Message(e.messages@[i]),
        ),
        None => Seq::empty(),
    }
}

impl View for Exclude {
    type V = Seq<CoinId>;

    open spec fn view(&self) -> Seq<CoinId> {
        self.coin_ids@
    }
}

impl Exclude {
    /// Whether `id` is disallowed.
    pub open spec fn spec_contains(&self, id: CoinId) -> bool {
        self@.contains(id)
    }

    pub fn new(coin_ids: Vec<CoinId>) -> (r: Self)
        ensures
            r.coin_ids == coin_ids,
    {
        Exclude { coin_ids }
    }

    /// Builds the filter from the raw exclusion lists of a request.
    pub fn from_input(value: Option<ExcludeInput>) -> (r: Self)
        ensures
            r.coin_ids@ == exclude_ids_of(value),
    {
        let ghost gvalue = value;
        let mut coin_ids: Vec<CoinId> = Vec::new();
        match value {
            Some(e) => {
                let mut i: usize = 0;
                while i < e.utxos.len()
                    invariant
                        0 <= i <= e.utxos@.len(),
                        coin_ids@.len() == i,
                        forall|k: int|
                            0 <= k < i ==> coin_ids@[k] == CoinId::Utxo(e.utxos@[k]),
                    decreases e.utxos@.len() - i,
                {
                    coin_ids.push(CoinId::Utxo(e.utxos[i]));
                    i = i + 1;
                }
                let mut j: usize = 0;
                while j < e.messages.len()
                    invariant
                        0 <= j <= e.messages@.len(),
                        coin_ids@.len() == e.utxos@.len() + j,
                        forall|k: int|
                            0 <= k < e.utxos@.len() ==> coin_ids@[k] == CoinId::Utxo(
                                e.utxos@[k],
                            ),
                        forall|k: int|
                            0 <= k < j ==> coin_ids@[e.utxos@.len() + k] == CoinId::Message(
                                e.messages@[k],
                            ),
                    decreases e.messages@.len() - j,
                {
                    coin_ids.push(CoinId::Message(e.messages[j]));
                    j = j + 1;
                }
                proof {
                    assert(coin_ids@ =~= exclude_ids_of(gvalue));
                }
            },
            None => {
                proof {
                    assert(coin_ids@ =~= exclude_ids_of(gvalue));
                }
            },
        }
        Exclude { coin_ids }
    }

    /// Membership test; the selectors use it as a negative predicate at
    /// candidate-consumption time.
    pub fn contains(&self, id: &CoinId) -> (r: bool)
        ensures
            r == self.spec_contains(*id),
    {
        let mut i: usize = 0;
        while i < self.coin_ids.len()
            invariant
                0 <= i <= self.coin_ids@.len(),
                forall|j: int| 0 <= j < i ==> self.coin_ids@[j] != *id,
            decreases self.coin_ids@.len() - i,
        {
            if self.coin_ids[i] == *id {
                return true;
            }
            i = i + 1;
        }
        false
    }
}

/// One normalized asset leg: the asset, the target amount to reach, and the
/// cap on how many entries this leg may use (already clamped to the
/// query-wide ceiling).
#[derive(Clone, Copy, Debug)]
pub struct AssetSpendTarget {
    pub id: AssetId,
    pub target: u128,
    pub max: u16,
}

impl AssetSpendTarget {
    pub fn new(id: AssetId, target: u128, max: u16) -> (r: Self)
        ensures
            r == (AssetSpendTarget { id, target, max }),
    {
        AssetSpendTarget { id, target, max }
    }
}

/// No asset id appears twice among the targets.
pub open spec fn duplicate_free(targets: Seq<AssetSpendTarget>) -> bool {
    forall|i: int, j: int| 0 <= i < j < targets.len() ==> targets[i].id != targets[j].id
}

/// A normalized multi-asset spend request.  Immutable once constructed; the
/// order of `query_per_asset` is preserved end-to-end and mirrored in the
/// result.
#[derive(Debug)]
pub struct SpendQuery {
    pub owner: Address,
    pub query_per_asset: Vec<AssetSpendTarget>,
    pub exclude: Exclude,
    pub base_asset_id: AssetId,
}

impl SpendQuery {
    /// Bundles a request, rejecting duplicate asset ids among the targets.
    pub fn new(
        owner: Address,
        query_per_asset: Vec<AssetSpendTarget>,
        exclude: Exclude,
        base_asset_id: AssetId,
    ) -> (r: Result<Self, CoinsQueryError>)
        ensures
            match r {
                Ok(q) => duplicate_free(query_per_asset@) && q.owner == owner
                    && q.query_per_asset == query_per_asset && q.exclude == exclude
                    && q.base_asset_id == base_asset_id,
                Err(e) => !duplicate_free(query_per_asset@) && (exists|i: int, j: int|
                    0 <= i < j < query_per_asset@.len() && query_per_asset@[i].id
                        == query_per_asset@[j].id && e == CoinsQueryError::DuplicateAssets(
                        query_per_asset@[j].id,
                    )),
            },
    {
        let mut j: usize = 1;
        while j < query_per_asset.len()
            invariant
                1 <= j,
                j <= query_per_asset@.len() || query_per_asset@.len() == 0,
                forall|a: int, b: int|
                    0 <= a < b < j && b < query_per_asset@.len() ==> query_per_asset@[a].id
                        != query_per_asset@[b].id,
            decreases query_per_asset@.len() - j,
        {
            let mut i: usize = 0;
            while i < j
                invariant
                    0 <= i <= j < query_per_asset@.len(),
                    forall|a: int| 0 <= a < i ==> query_per_asset@[a].id != query_per_asset@[j as int].id,
                decreases j - i,
            {
                if query_per_asset[i].id == query_per_asset[j].id {
                    return Err(CoinsQueryError::DuplicateAssets(query_per_asset[j].id));
                }
                i = i + 1;
            }
            j = j + 1;
        }
        Ok(SpendQuery { owner, query_per_asset, exclude, base_asset_id })
    }

    pub fn owner(&self) -> (r: Address)
        ensures
            r == self.owner,
    {
        self.owner
    }

    pub fn assets(&self) -> (r: &Vec<AssetSpendTarget>)
        ensures
            r == &self.query_per_asset,
    {
        &self.query_per_asset
    }

    pub fn exclude(&self) -> (r: &Exclude)
        ensures
            r == &self.exclude,
    {
        &self.exclude
    }

    pub fn base_asset_id(&self) -> (r: AssetId)
        ensures
            r == self.base_asset_id,
    {
        self.base_asset_id
    }
}

} // verus!
