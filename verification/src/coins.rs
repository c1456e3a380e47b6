//! Spendable entry records and the query-facing input shapes.
//!
//! A [`Coin`] is a plain value record created as a transaction output.  A
//! [`MessageCoin`] is a value record that originated from a cross-chain
//! message and is spendable under chain rules; its amount is denominated in
//! the chain's base asset.

use vstd::prelude::*;

use crate::asset_query::Exclude;
use crate::asset_query::exclude_ids_of;
use crate::coins_query::{
    coins_to_spend_with_cache, coins_to_spend_without_cache, elements_duplicate_free,
    fallback_err_outcome, fallback_ok_outcome, indexed_err_outcome, indexed_ok_outcome,
    normalized_targets, CoinsQueryError,
};
use crate::ids::{Address, AssetId, Bytes32, CoinId, Nonce, UtxoId};
use crate::read_view::{owner_coins, ReadView};
use crate::rng::XorShift64;

verus! {

/// A plain spendable value record.
#[derive(Clone, Copy, Debug)]
pub struct Coin {
    pub utxo_id: UtxoId,
    pub owner: Address,
    pub amount: u64,
    pub asset_id: AssetId,
    /// Height of the block this coin was created in.
    pub tx_pointer_block_height: u32,
    /// Index of the transaction that created this coin.
    pub tx_pointer_tx_index: u16,
}

impl Coin {
    pub fn utxo_id(&self) -> (r: UtxoId)
        ensures
            r == self.utxo_id,
    {
        self.utxo_id
    }

    pub fn owner(&self) -> (r: Address)
        ensures
            r == self.owner,
    {
        self.owner
    }

    pub fn amount(&self) -> (r: u64)
        ensures
            r == self.amount,
    {
        self.amount
    }

    pub fn asset_id(&self) -> (r: AssetId)
        ensures
            r == self.asset_id,
    {
        self.asset_id
    }

    pub fn block_created(&self) -> (r: u32)
        ensures
            r == self.tx_pointer_block_height,
    {
        self.tx_pointer_block_height
    }

    pub fn tx_created_idx(&self) -> (r: u16)
        ensures
            r == self.tx_pointer_tx_index,
    {
        self.tx_pointer_tx_index
    }
}

/// A bridged value record, spendable as a coin of the base asset.
#[derive(Clone, Copy, Debug)]
pub struct MessageCoin {
    pub sender: Address,
    pub recipient: Address,
    pub nonce: Nonce,
    pub amount: u64,
    pub da_height: u64,
}

impl MessageCoin {
    pub fn sender(&self) -> (r: Address)
        ensures
            r == self.sender,
    {
        self.sender
    }

    pub fn recipient(&self) -> (r: Address)
        ensures
            r == self.recipient,
    {
        self.recipient
    }

    pub fn nonce(&self) -> (r: Nonce)
        ensures
            r == self.nonce,
    {
        self.nonce
    }

    pub fn amount(&self) -> (r: u64)
        ensures
            r == self.amount,
    {
        self.amount
    }

    /// A bridged coin's amount is denominated in the chain's base asset; the
    /// base asset id is part of the consensus configuration and is handed in
    /// by the caller.
    pub fn asset_id(&self, base_asset_id: &AssetId) -> (r: AssetId)
        ensures
            r == *base_asset_id,
    {
        *base_asset_id
    }

    pub fn da_height(&self) -> (r: u64)
        ensures
            r == self.da_height,
    {
        self.da_height
    }
}

/// A bridged message entry as it sits in the store.  It can be represented as
/// a spendable [`MessageCoin`] only while it carries no data payload.
#[derive(Clone, Debug)]
pub struct Message {
    pub sender: Address,
    pub recipient: Address,
    pub nonce: Nonce,
    pub amount: u64,
    pub da_height: u64,
    pub data: Vec<u8>,
}

impl Message {
    /// Whether this entry can currently be represented as a spendable coin.
    pub open spec fn spec_spendable(&self) -> bool {
        self.data@.len() == 0
    }

    /// The spendable record this entry converts to.
    pub open spec fn spec_coin(&self) -> MessageCoin {
        MessageCoin {
            sender: self.sender,
            recipient: self.recipient,
            nonce: self.nonce,
            amount: self.amount,
            da_height: self.da_height,
        }
    }

    /// Converts the entry into a spendable coin, failing when the entry
    /// carries data and is therefore not a coin message.
    pub fn as_message_coin(&self) -> (r: Option<MessageCoin>)
        ensures
            self.spec_spendable() ==> r == Some(self.spec_coin()),
            !self.spec_spendable() ==> r is None,
    {
        if self.data.len() == 0 {
            Some(MessageCoin {
                sender: self.sender,
                recipient: self.recipient,
                nonce: self.nonce,
                amount: self.amount,
                da_height: self.da_height,
            })
        } else {
            None
        }
    }
}

/// Either kind of resolved spendable record.
#[derive(Clone, Copy, Debug)]
pub enum CoinType {
    /// The regular coin generated by a transaction output.
    Coin(Coin),
    /// The bridged coin from the data-availability layer.
    MessageCoin(MessageCoin),
}

impl CoinType {
    pub open spec fn spec_amount(&self) -> u64 {
        match self {
            CoinType::Coin(coin) => coin.amount,
            CoinType::MessageCoin(coin) => coin.amount,
        }
    }

    pub fn amount(&self) -> (r: u64)
        ensures
            r == self.spec_amount(),
    {
        match self {
            CoinType::Coin(coin) => coin.amount,
            CoinType::MessageCoin(coin) => coin.amount,
        }
    }

    /// The identifier under which this record falls in the exclusion domain.
    pub open spec fn spec_coin_id(&self) -> CoinId {
        match self {
            CoinType::Coin(coin) => CoinId::Utxo(coin.utxo_id),
            CoinType::MessageCoin(coin) => CoinId::Message(coin.nonce),
        }
    }

    pub fn coin_id(&self) -> (r: CoinId)
        ensures
            r == self.spec_coin_id(),
    {
        match self {
            CoinType::Coin(coin) => CoinId::Utxo(coin.utxo_id),
            CoinType::MessageCoin(coin) => CoinId::Message(coin.nonce),
        }
    }

    /// The account that may spend this record.
    pub open spec fn spec_owner(&self) -> Address {
        match self {
            CoinType::Coin(coin) => coin.owner,
            CoinType::MessageCoin(coin) => coin.recipient,
        }
    }
}

/// One requested asset leg of a spend query, as the caller phrases it.
#[derive(Clone, Copy, Debug)]
pub struct SpendQueryElementInput {
    /// Identifier of the asset to spend.
    pub asset_id: AssetId,
    /// Target amount for the query.
    pub amount: u128,
    /// The maximum number of coins for this asset's selection.
    pub max: Option<u16>,
}

/// The caller-supplied exclusion lists.
#[derive(Clone, Debug)]
pub struct ExcludeInput {
    /// Utxos to exclude from the selection.
    pub utxos: Vec<UtxoId>,
    /// Messages to exclude from the selection.
    pub messages: Vec<Nonce>,
}

/// Entry point for coin queries against a read view.
#[derive(Clone, Copy, Debug)]
pub struct CoinQuery {}

impl Default for CoinQuery {
    fn default() -> (r: Self)
        ensures
            r == (CoinQuery {}),
    {
        CoinQuery {}
    }
}

/// How many identifiers the raw exclusion lists name.
pub open spec fn excluded_count(excluded_ids: Option<ExcludeInput>) -> int {
    match excluded_ids {
        Some(e) => e.utxos@.len() as int + e.messages@.len() as int,
        None => 0,
    }
}

/// The count as the error reports it (saturated into a machine word).
pub open spec fn clamped_excluded_count(excluded_ids: Option<ExcludeInput>) -> usize {
    if excluded_count(excluded_ids) > usize::MAX as int {
        usize::MAX
    } else {
        excluded_count(excluded_ids) as usize
    }
}

impl ReadView {
    /// Answers a normalized spend request with whichever strategy the store
    /// supports: the deterministic indexed walk when the secondary spend
    /// index is maintained, the randomized fallback walk otherwise.
    pub fn coins_to_spend(
        &self,
        owner: Address,
        query_per_asset: &Vec<SpendQueryElementInput>,
        excluded: Exclude,
        max_input: u16,
        base_asset_id: &AssetId,
        rng: &mut XorShift64,
    ) -> (r: Result<Vec<Vec<CoinType>>, CoinsQueryError>)
        requires
            self.wf(),
        ensures
            self.indexation_available ==> (match r {
                Ok(all) => indexed_ok_outcome(
                    *self,
                    owner,
                    query_per_asset@,
                    excluded@,
                    max_input,
                    all@,
                ),
                Err(e) => indexed_err_outcome(
                    *self,
                    owner,
                    query_per_asset@,
                    excluded@,
                    max_input,
                    e,
                ),
            }),
            !self.indexation_available ==> (match r {
                Ok(all) => elements_duplicate_free(query_per_asset@) && fallback_ok_outcome(
                    *self,
                    owner,
                    *base_asset_id,
                    excluded@,
                    normalized_targets(query_per_asset@, max_input),
                    all@,
                ),
                Err(e) => {
                    ||| (exists|i: int, j: int|
                        0 <= i < j < query_per_asset@.len() && query_per_asset@[i].asset_id
                            == query_per_asset@[j].asset_id && e
                            == CoinsQueryError::DuplicateAssets(query_per_asset@[j].asset_id))
                    ||| fallback_err_outcome(
                        *self,
                        owner,
                        *base_asset_id,
                        excluded@,
                        normalized_targets(query_per_asset@, max_input),
                        e,
                    )
                },
            }),
    {
        if self.indexation_available {
            coins_to_spend_with_cache(owner, query_per_asset, &excluded, max_input, self)
        } else {
            coins_to_spend_without_cache(
                owner,
                query_per_asset,
                excluded,
                max_input,
                base_asset_id,
                self,
                rng,
            )
        }
    }
}

impl CoinQuery {
    /// Gets the coin by `utxo_id`.
    pub fn coin(&self, db: &ReadView, utxo_id: UtxoId) -> (r: Option<Coin>)
        ensures
            match r {
                Some(c) => db.coins@.contains(c) && c.utxo_id == utxo_id,
                None => forall|k: int|
                    0 <= k < db.coins@.len() ==> db.coins@[k].utxo_id != utxo_id,
            },
    {
        db.coin(&utxo_id)
    }

    /// Gets all unspent coins of some `owner`, maybe narrowed to one asset.
    pub fn coins(&self, db: &ReadView, owner: Address, asset_id: Option<AssetId>) -> (r: Vec<
        Coin,
    >)
        ensures
            r@ == owner_coins(db.coins@, owner, asset_id),
    {
        db.owned_coins(&owner, asset_id.as_ref())
    }

    /// For each requested asset leg, selects spendable records of `owner`
    /// that add up to at least the leg's amount, capped by the query-wide
    /// ceiling, never drawing an excluded identifier.
    ///
    /// Validation happens before any store access: a request excluding more
    /// identifiers than the ceiling fails with `TooManyExcludedId`, and a
    /// request naming one asset twice fails with `DuplicateAssets`.  The
    /// list of legs is then clamped to the ceiling, and the outer result
    /// order mirrors the request order leg by leg.
    #[verifier::loop_isolation(false)]
    pub fn coins_to_spend(
        &self,
        db: &ReadView,
        owner: Address,
        query_per_asset: Vec<SpendQueryElementInput>,
        excluded_ids: Option<ExcludeInput>,
        max_input: u16,
        base_asset_id: AssetId,
        rng: &mut XorShift64,
    ) -> (r: Result<Vec<Vec<CoinType>>, CoinsQueryError>)
        requires
            db.wf(),
        ensures
            ({
                let count = excluded_count(excluded_ids);
                let ids = exclude_ids_of(excluded_ids);
                let q = query_per_asset@;
                let tq = if q.len() > max_input as int {
                    q.take(max_input as int)
                } else {
                    q
                };
                &&& count > max_input as int ==> r == Err::<
                    Vec<Vec<CoinType>>,
                    CoinsQueryError,
                >(
                    CoinsQueryError::TooManyExcludedId {
                        provided: clamped_excluded_count(excluded_ids),
                        allowed: max_input,
                    },
                )
                &&& (count <= max_input as int && !elements_duplicate_free(q)) ==> (match r {
                    Ok(_) => false,
                    Err(e) => exists|i: int, j: int|
                        0 <= i < j < q.len() && q[i].asset_id == q[j].asset_id && e
                            == CoinsQueryError::DuplicateAssets(q[j].asset_id),
                })
                &&& (count <= max_input as int && elements_duplicate_free(q)
                    && db.indexation_available) ==> (match r {
                    Ok(all) => indexed_ok_outcome(*db, owner, tq, ids, max_input, all@),
                    Err(e) => indexed_err_outcome(*db, owner, tq, ids, max_input, e),
                })
                &&& (count <= max_input as int && elements_duplicate_free(q)
                    && !db.indexation_available) ==> (match r {
                    Ok(all) => fallback_ok_outcome(
                        *db,
                        owner,
                        base_asset_id,
                        ids,
                        normalized_targets(tq, max_input),
                        all@,
                    ),
                    Err(e) => fallback_err_outcome(
                        *db,
                        owner,
                        base_asset_id,
                        ids,
                        normalized_targets(tq, max_input),
                        e,
                    ),
                })
            }),
    {
        let ghost q0 = query_per_asset@;
        let mut query_per_asset = query_per_asset;

        // Validate the exclusion count against the ceiling before anything
        // else; no storage is touched on this failure path.
        let utxos_len: usize = match &excluded_ids {
            Some(e) => e.utxos.len(),
            None => 0,
        };
        let messages_len: usize = match &excluded_ids {
            Some(e) => e.messages.len(),
            None => 0,
        };
        let provided = if utxos_len > usize::MAX - messages_len {
            usize::MAX
        } else {
            utxos_len + messages_len
        };
        if provided > max_input as usize {
            return Err(
                CoinsQueryError::TooManyExcludedId { provided, allowed: max_input },
            );
        }

        // Reject duplicate asset ids among the requested legs.
        let mut j: usize = 1;
        while j < query_per_asset.len()
            invariant
                1 <= j,
                query_per_asset@ == q0,
                j <= q0.len() || q0.len() == 0,
                forall|a: int, b: int|
                    0 <= a < b < j && b < q0.len() ==> q0[a].asset_id != q0[b].asset_id,
            decreases q0.len() - j,
        {
            let mut i: usize = 0;
            while i < j
                invariant
                    0 <= i <= j < q0.len(),
                    query_per_asset@ == q0,
                    forall|a: int| 0 <= a < i ==> q0[a].asset_id != q0[j as int].asset_id,
                decreases j - i,
            {
                if query_per_asset[i].asset_id == query_per_asset[j].asset_id {
                    proof {
                        assert(i < j && (j as int) < q0.len());
                        assert(q0[i as int].asset_id == q0[j as int].asset_id);
                        assert(!elements_duplicate_free(q0));
                    }
                    return Err(
                        CoinsQueryError::DuplicateAssets(query_per_asset[j].asset_id),
                    );
                }
                i = i + 1;
            }
            j = j + 1;
        }

        let exclude = Exclude::from_input(excluded_ids);

        // A transaction cannot reference more inputs than the ceiling, so a
        // request with more asset legs than that is clamped to it.
        if query_per_asset.len() > max_input as usize {
            query_per_asset.truncate(max_input as usize);
            proof {
                assert(query_per_asset@ =~= q0.take(max_input as int));
            }
        }
        let ghost tq = query_per_asset@;

        let result = db.coins_to_spend(
            owner,
            &query_per_asset,
            exclude,
            max_input,
            &base_asset_id,
            rng,
        );
        proof {
            assert forall|a: int, b: int|
                0 <= a < b < tq.len() implies tq[a].asset_id != tq[b].asset_id by {
                assert(tq[a] == q0[a] && tq[b] == q0[b]);
            }
            if !db.indexation_available {
                match result {
                    Err(e) => {
                        if exists|i0: int, j0: int|
                            0 <= i0 < j0 < tq.len() && tq[i0].asset_id == tq[j0].asset_id && e
                                == CoinsQueryError::DuplicateAssets(tq[j0].asset_id) {
                            let (i0, j0) = choose|i0: int, j0: int|
                                0 <= i0 < j0 < tq.len() && tq[i0].asset_id == tq[j0].asset_id
                                    && e == CoinsQueryError::DuplicateAssets(tq[j0].asset_id);
                            assert(false);
                        }
                    },
                    Ok(_) => {},
                }
            }
        }
        result
    }
}

} // verus!
