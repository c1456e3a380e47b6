//! A point-in-time, read-only view of the ledger state that one spend query
//! runs against.
//!
//! The view holds the owned plain coins, the bridged message entries, the
//! optional secondary spend index, and the flag saying whether that index is
//! maintained.  Building and maintaining the index belongs to block
//! execution, outside this library; [`ReadView::wf`] states the design
//! contract this subsystem relies on: within one `(owner, asset)` group the
//! index is sorted by descending amount, entries are distinct, and the
//! amounts and owners recorded in the index mirror the store.

use vstd::prelude::*;

use crate::coins::{Coin, Message};
use crate::ids::{Address, AssetId, CoinId, Nonce, UtxoId};

verus! {

/// One key of the secondary spend index: a sortable record of
/// `(owner, asset, amount, identifier)` maintained externally.
#[derive(Clone, Copy, Debug)]
pub enum CoinsToSpendIndexKey {
    Coin { owner: Address, asset_id: AssetId, amount: u64, utxo_id: UtxoId },
    Message { owner: Address, asset_id: AssetId, amount: u64, nonce: Nonce },
}

impl CoinsToSpendIndexKey {
    pub open spec fn spec_owner(self) -> Address {
        match self {
            CoinsToSpendIndexKey::Coin { owner, .. } => owner,
            CoinsToSpendIndexKey::Message { owner, .. } => owner,
        }
    }

    pub open spec fn spec_asset_id(self) -> AssetId {
        match self {
            CoinsToSpendIndexKey::Coin { asset_id, .. } => asset_id,
            CoinsToSpendIndexKey::Message { asset_id, .. } => asset_id,
        }
    }

    pub open spec fn spec_amount(self) -> u64 {
        match self {
            CoinsToSpendIndexKey::Coin { amount, .. } => amount,
            CoinsToSpendIndexKey::Message { amount, .. } => amount,
        }
    }

    /// The identifier this key points at.
    pub open spec fn spec_coin_id(self) -> CoinId {
        match self {
            CoinsToSpendIndexKey::Coin { utxo_id, .. } => CoinId::Utxo(utxo_id),
            CoinsToSpendIndexKey::Message { nonce, .. } => CoinId::Message(nonce),
        }
    }

    pub fn amount(&self) -> (r: u64)
        ensures
            r == self.spec_amount(),
    {
        match self {
            CoinsToSpendIndexKey::Coin { amount, .. } => *amount,
            CoinsToSpendIndexKey::Message { amount, .. } => *amount,
        }
    }

    pub fn coin_id(&self) -> (r: CoinId)
        ensures
            r == self.spec_coin_id(),
    {
        match self {
            CoinsToSpendIndexKey::Coin { utxo_id, .. } => CoinId::Utxo(*utxo_id),
            CoinsToSpendIndexKey::Message { nonce, .. } => CoinId::Message(*nonce),
        }
    }

    pub fn owner(&self) -> (r: Address)
        ensures
            r == self.spec_owner(),
    {
        match self {
            CoinsToSpendIndexKey::Coin { owner, .. } => *owner,
            CoinsToSpendIndexKey::Message { owner, .. } => *owner,
        }
    }

    pub fn asset_id(&self) -> (r: AssetId)
        ensures
            r == self.spec_asset_id(),
    {
        match self {
            CoinsToSpendIndexKey::Coin { asset_id, .. } => *asset_id,
            CoinsToSpendIndexKey::Message { asset_id, .. } => *asset_id,
        }
    }
}

/// The subsequence of `keys` that belongs to one `(owner, asset)` group.
pub open spec fn index_group(
    keys: Seq<CoinsToSpendIndexKey>,
    owner: Address,
    asset_id: AssetId,
) -> Seq<CoinsToSpendIndexKey>
    decreases keys.len(),
{
    if keys.len() == 0 {
        Seq::empty()
    } else {
        let prefix = index_group(keys.drop_last(), owner, asset_id);
        let k = keys.last();
        if k.spec_owner() == owner && k.spec_asset_id() == asset_id {
            prefix.push(k)
        } else {
            prefix
        }
    }
}

/// Every key of a group comes from the underlying index and carries the
/// group's owner and asset.
pub proof fn lemma_index_group_props(
    keys: Seq<CoinsToSpendIndexKey>,
    owner: Address,
    asset_id: AssetId,
)
    ensures
        forall|a: int|
            #![trigger index_group(keys, owner, asset_id)[a]]
            0 <= a < index_group(keys, owner, asset_id).len() ==> keys.contains(
                index_group(keys, owner, asset_id)[a],
            ) && index_group(keys, owner, asset_id)[a].spec_owner() == owner && index_group(
                keys,
                owner,
                asset_id,
            )[a].spec_asset_id() == asset_id,
    decreases keys.len(),
{
    let g = index_group(keys, owner, asset_id);
    if keys.len() > 0 {
        lemma_index_group_props(keys.drop_last(), owner, asset_id);
        let prefix = index_group(keys.drop_last(), owner, asset_id);
        assert forall|a: int| 0 <= a < g.len() implies keys.contains(#[trigger] g[a])
            && g[a].spec_owner() == owner && g[a].spec_asset_id() == asset_id by {
            if a < prefix.len() {
                assert(g[a] == prefix[a]);
                let j = choose|j: int|
                    0 <= j < keys.drop_last().len() && keys.drop_last()[j] == prefix[a];
                assert(keys[j] == g[a]);
            } else {
                assert(g[a] == keys.last());
                assert(keys[keys.len() - 1] == g[a]);
            }
        }
    }
}

/// The subsequence of `coins` owned by `owner`, optionally narrowed to one
/// asset.
pub open spec fn owner_coins(coins: Seq<Coin>, owner: Address, asset_id: Option<AssetId>) -> Seq<
    Coin,
>
    decreases coins.len(),
{
    if coins.len() == 0 {
        Seq::empty()
    } else {
        let prefix = owner_coins(coins.drop_last(), owner, asset_id);
        let c = coins.last();
        if c.owner == owner && (match asset_id {
            Some(a) => c.asset_id == a,
            None => true,
        }) {
            prefix.push(c)
        } else {
            prefix
        }
    }
}

/// Maps selected index keys back to plain identifiers, in selection order.
pub fn into_coin_id(selected: &Vec<CoinsToSpendIndexKey>) -> (r: Vec<CoinId>)
    ensures
        r@ == selected@.map_values(|k: CoinsToSpendIndexKey| k.spec_coin_id()),
{
    let mut coins: Vec<CoinId> = Vec::new();
    let mut i: usize = 0;
    while i < selected.len()
        invariant
            0 <= i <= selected@.len(),
            coins@.len() == i,
            forall|k: int| 0 <= k < i ==> coins@[k] == selected@[k].spec_coin_id(),
        decreases selected@.len() - i,
    {
        let id = match &selected[i] {
            CoinsToSpendIndexKey::Coin { utxo_id, .. } => CoinId::Utxo(*utxo_id),
            CoinsToSpendIndexKey::Message { nonce, .. } => CoinId::Message(*nonce),
        };
        coins.push(id);
        i = i + 1;
    }
    proof {
        assert(coins@ =~= selected@.map_values(|k: CoinsToSpendIndexKey| k.spec_coin_id()));
    }
    coins
}

/// A consistent snapshot of the parts of ledger state a spend query reads.
#[derive(Debug)]
pub struct ReadView {
    /// All unspent plain coins in the view.
    pub coins: Vec<Coin>,
    /// All bridged message entries in the view.
    pub messages: Vec<Message>,
    /// The secondary spend index, meaningful only while
    /// `indexation_available` holds.
    pub coins_to_spend_index: Vec<CoinsToSpendIndexKey>,
    /// Whether the secondary spend index is maintained for this store.
    pub indexation_available: bool,
}

impl ReadView {
    /// The design contract on externally maintained state: entries are
    /// unique, the index walks each `(owner, asset)` group in descending
    /// amount order, and index keys mirror the store's records.  An index
    /// key whose record is gone is allowed; resolving it surfaces an error.
    pub open spec fn wf(&self) -> bool {
        &&& forall|i: int, j: int|
            0 <= i < j < self.coins@.len() ==> self.coins@[i].utxo_id != self.coins@[j].utxo_id
        &&& forall|i: int, j: int|
            0 <= i < j < self.messages@.len() ==> self.messages@[i].nonce
                != self.messages@[j].nonce
        &&& forall|i: int, j: int|
            0 <= i < j < self.coins_to_spend_index@.len()
                && self.coins_to_spend_index@[i].spec_owner()
                == self.coins_to_spend_index@[j].spec_owner()
                && self.coins_to_spend_index@[i].spec_asset_id()
                == self.coins_to_spend_index@[j].spec_asset_id()
                ==> self.coins_to_spend_index@[i].spec_amount()
                >= self.coins_to_spend_index@[j].spec_amount()
        &&& forall|i: int, j: int|
            0 <= i < j < self.coins_to_spend_index@.len()
                ==> self.coins_to_spend_index@[i].spec_coin_id()
                != self.coins_to_spend_index@[j].spec_coin_id()
        &&& forall|i: int, k: int|
            #![trigger self.coins_to_spend_index@[i], self.coins@[k]]
            0 <= i < self.coins_to_spend_index@.len() && 0 <= k < self.coins@.len()
                && self.coins_to_spend_index@[i].spec_coin_id() == CoinId::Utxo(
                self.coins@[k].utxo_id,
            ) ==> self.coins_to_spend_index@[i].spec_amount() == self.coins@[k].amount
                && self.coins_to_spend_index@[i].spec_owner() == self.coins@[k].owner
                && self.coins_to_spend_index@[i].spec_asset_id() == self.coins@[k].asset_id
        &&& forall|i: int, k: int|
            #![trigger self.coins_to_spend_index@[i], self.messages@[k]]
            0 <= i < self.coins_to_spend_index@.len() && 0 <= k < self.messages@.len()
                && self.coins_to_spend_index@[i].spec_coin_id() == CoinId::Message(
                self.messages@[k].nonce,
            ) ==> self.coins_to_spend_index@[i].spec_amount() == self.messages@[k].amount
                && self.coins_to_spend_index@[i].spec_owner() == self.messages@[k].recipient
    }


    /// Decides [`ReadView::wf`] at run time, so that a caller handed a view
    /// of unknown provenance can test the design contract before querying.
    #[verifier::loop_isolation(false)]
    pub fn check_wf(&self) -> (r: bool)
        ensures
            r == self.wf(),
    {
        // Plain coins are unique by identifier.
        let mut i: usize = 0;
        while i < self.coins.len()
            invariant
                forall|a: int, b: int|
                    0 <= a < b < self.coins@.len() && a < i ==> self.coins@[a].utxo_id
                        != self.coins@[b].utxo_id,
            decreases self.coins@.len() - i,
        {
            let mut j: usize = i + 1;
            while j < self.coins.len()
                invariant
                    i < j,
                    forall|b: int|
                        i < b < j ==> self.coins@[i as int].utxo_id != self.coins@[b].utxo_id,
                decreases self.coins@.len() - j,
            {
                if self.coins[i].utxo_id == self.coins[j].utxo_id {
                    proof {
                        if self.wf() {
                            assert(self.coins@[i as int].utxo_id != self.coins@[j as int].utxo_id);
                        }
                    }
                    return false;
                }
                j = j + 1;
            }
            i = i + 1;
        }

        // Bridged entries are unique by nonce.
        let mut i: usize = 0;
        while i < self.messages.len()
            invariant
                forall|a: int, b: int|
                    0 <= a < b < self.messages@.len() && a < i ==> self.messages@[a].nonce
                        != self.messages@[b].nonce,
            decreases self.messages@.len() - i,
        {
            let mut j: usize = i + 1;
            while j < self.messages.len()
                invariant
                    i < j,
                    forall|b: int|
                        i < b < j ==> self.messages@[i as int].nonce != self.messages@[b].nonce,
                decreases self.messages@.len() - j,
            {
                if self.messages[i].nonce == self.messages[j].nonce {
                    proof {
                        if self.wf() {
                            assert(self.messages@[i as int].nonce != self.messages@[j as int].nonce);
                        }
                    }
                    return false;
                }
                j = j + 1;
            }
            i = i + 1;
        }

        // The index is sorted descending within each group and names each
        // entry once.
        let mut i: usize = 0;
        while i < self.coins_to_spend_index.len()
            invariant
                forall|a: int, b: int|
                    0 <= a < b < self.coins_to_spend_index@.len() && a < i
                        && self.coins_to_spend_index@[a].spec_owner()
                        == self.coins_to_spend_index@[b].spec_owner()
                        && self.coins_to_spend_index@[a].spec_asset_id()
                        == self.coins_to_spend_index@[b].spec_asset_id()
                        ==> self.coins_to_spend_index@[a].spec_amount()
                        >= self.coins_to_spend_index@[b].spec_amount(),
                forall|a: int, b: int|
                    0 <= a < b < self.coins_to_spend_index@.len() && a < i
                        ==> self.coins_to_spend_index@[a].spec_coin_id()
                        != self.coins_to_spend_index@[b].spec_coin_id(),
            decreases self.coins_to_spend_index@.len() - i,
        {
            let key = self.coins_to_spend_index[i];
            let mut j: usize = i + 1;
            while j < self.coins_to_spend_index.len()
                invariant
                    i < j,
                    key == self.coins_to_spend_index@[i as int],
                    forall|b: int|
                        i < b < j && key.spec_owner()
                            == self.coins_to_spend_index@[b].spec_owner() && key.spec_asset_id()
                            == self.coins_to_spend_index@[b].spec_asset_id()
                            ==> key.spec_amount()
                            >= self.coins_to_spend_index@[b].spec_amount(),
                    forall|b: int|
                        i < b < j ==> key.spec_coin_id()
                            != self.coins_to_spend_index@[b].spec_coin_id(),
                decreases self.coins_to_spend_index@.len() - j,
            {
                let other = self.coins_to_spend_index[j];
                if key.coin_id() == other.coin_id() {
                    proof {
                        if self.wf() {
                            assert(self.coins_to_spend_index@[i as int].spec_coin_id()
                                != self.coins_to_spend_index@[j as int].spec_coin_id());
                        }
                    }
                    return false;
                }
                if key.owner() == other.owner() && key.asset_id() == other.asset_id()
                    && key.amount() < other.amount() {
                    proof {
                        if self.wf() {
                            assert(self.coins_to_spend_index@[i as int].spec_amount()
                                >= self.coins_to_spend_index@[j as int].spec_amount());
                        }
                    }
                    return false;
                }
                j = j + 1;
            }
            i = i + 1;
        }

        // Index keys mirror the records they point at, where those records
        // are still in the view.
        let mut i: usize = 0;
        while i < self.coins_to_spend_index.len()
            invariant
                forall|a: int, k: int|
                    #![trigger self.coins_to_spend_index@[a], self.coins@[k]]
                    0 <= a < i && 0 <= k < self.coins@.len()
                        && self.coins_to_spend_index@[a].spec_coin_id() == CoinId::Utxo(
                        self.coins@[k].utxo_id,
                    ) ==> self.coins_to_spend_index@[a].spec_amount() == self.coins@[k].amount
                        && self.coins_to_spend_index@[a].spec_owner() == self.coins@[k].owner
                        && self.coins_to_spend_index@[a].spec_asset_id()
                        == self.coins@[k].asset_id,
                forall|a: int, k: int|
                    #![trigger self.coins_to_spend_index@[a], self.messages@[k]]
                    0 <= a < i && 0 <= k < self.messages@.len()
                        && self.coins_to_spend_index@[a].spec_coin_id() == CoinId::Message(
                        self.messages@[k].nonce,
                    ) ==> self.coins_to_spend_index@[a].spec_amount()
                        == self.messages@[k].amount
                        && self.coins_to_spend_index@[a].spec_owner()
                        == self.messages@[k].recipient,
            decreases self.coins_to_spend_index@.len() - i,
        {
            let key = self.coins_to_spend_index[i];
            match key {
                CoinsToSpendIndexKey::Coin { owner, asset_id, amount, utxo_id } => {
                    let mut k: usize = 0;
                    while k < self.coins.len()
                        invariant
                            key == self.coins_to_spend_index@[i as int],
                            key == (CoinsToSpendIndexKey::Coin {
                                owner,
                                asset_id,
                                amount,
                                utxo_id,
                            }),
                            forall|kk: int|
                                0 <= kk < k && self.coins@[kk].utxo_id == utxo_id
                                    ==> amount == self.coins@[kk].amount && owner
                                    == self.coins@[kk].owner && asset_id
                                    == (#[trigger] self.coins@[kk]).asset_id,
                        decreases self.coins@.len() - k,
                    {
                        if self.coins[k].utxo_id == utxo_id {
                            if !(amount == self.coins[k].amount && owner == self.coins[k].owner
                                && asset_id == self.coins[k].asset_id) {
                                proof {
                                    if self.wf() {
                                        assert(self.coins_to_spend_index@[i as int].spec_coin_id()
                                            == CoinId::Utxo(self.coins@[k as int].utxo_id));
                                        assert(self.coins_to_spend_index@[i as int].spec_amount()
                                            == self.coins@[k as int].amount
                                            && self.coins_to_spend_index@[i as int].spec_owner()
                                            == self.coins@[k as int].owner
                                            && self.coins_to_spend_index@[
                                        i as int].spec_asset_id() == self.coins@[k as int].asset_id);
                                    }
                                }
                                return false;
                            }
                        }
                        k = k + 1;
                    }
                },
                CoinsToSpendIndexKey::Message { owner, amount, nonce, .. } => {
                    let mut k: usize = 0;
                    while k < self.messages.len()
                        invariant
                            key == self.coins_to_spend_index@[i as int],
                            key matches (CoinsToSpendIndexKey::Message {
                                owner: o,
                                amount: m,
                                nonce: n,
                                ..
                            }) && o == owner && m == amount && n == nonce,
                            forall|kk: int|
                                0 <= kk < k && self.messages@[kk].nonce == nonce ==> amount
                                    == self.messages@[kk].amount && owner
                                    == (#[trigger] self.messages@[kk]).recipient,
                        decreases self.messages@.len() - k,
                    {
                        if self.messages[k].nonce == nonce {
                            if !(amount == self.messages[k].amount
                                && owner == self.messages[k].recipient) {
                                proof {
                                    if self.wf() {
                                        assert(self.coins_to_spend_index@[i as int].spec_coin_id()
                                            == CoinId::Message(self.messages@[k as int].nonce));
                                        assert(self.coins_to_spend_index@[i as int].spec_amount()
                                            == self.messages@[k as int].amount
                                            && self.coins_to_spend_index@[i as int].spec_owner()
                                            == self.messages@[k as int].recipient);
                                    }
                                }
                                return false;
                            }
                        }
                        k = k + 1;
                    }
                },
            }
            i = i + 1;
        }
        true
    }

    /// Resolves a plain coin by its identifier.
    pub fn coin(&self, utxo_id: &UtxoId) -> (r: Option<Coin>)
        ensures
            match r {
                Some(c) => self.coins@.contains(c) && c.utxo_id == *utxo_id,
                None => forall|k: int|
                    0 <= k < self.coins@.len() ==> self.coins@[k].utxo_id != *utxo_id,
            },
    {
        let mut i: usize = 0;
        while i < self.coins.len()
            invariant
                0 <= i <= self.coins@.len(),
                forall|k: int| 0 <= k < i ==> self.coins@[k].utxo_id != *utxo_id,
            decreases self.coins@.len() - i,
        {
            if self.coins[i].utxo_id == *utxo_id {
                return Some(self.coins[i]);
            }
            i = i + 1;
        }
        None
    }

    /// Resolves a bridged message entry by its nonce.
    pub fn message(&self, nonce: &Nonce) -> (r: Option<&Message>)
        ensures
            match r {
                Some(m) => self.messages@.contains(*m) && m.nonce == *nonce,
                None => forall|k: int|
                    0 <= k < self.messages@.len() ==> self.messages@[k].nonce != *nonce,
            },
    {
        let mut i: usize = 0;
        while i < self.messages.len()
            invariant
                0 <= i <= self.messages@.len(),
                forall|k: int| 0 <= k < i ==> self.messages@[k].nonce != *nonce,
            decreases self.messages@.len() - i,
        {
            if self.messages[i].nonce == *nonce {
                return Some(&self.messages[i]);
            }
            i = i + 1;
        }
        None
    }

    /// The index keys of one `(owner, asset)` group, in index order.  Under
    /// [`ReadView::wf`] the returned amounts are descending.
    pub fn coins_to_spend_index(&self, owner: &Address, asset_id: &AssetId) -> (r: Vec<
        CoinsToSpendIndexKey,
    >)
        ensures
            r@ == index_group(self.coins_to_spend_index@, *owner, *asset_id),
            self.wf() ==> forall|a: int, b: int|
                0 <= a < b < r@.len() ==> r@[a].spec_amount() >= r@[b].spec_amount(),
    {
        let keys = &self.coins_to_spend_index;
        let mut r: Vec<CoinsToSpendIndexKey> = Vec::new();
        let mut i: usize = 0;
        while i < keys.len()
            invariant
                0 <= i <= keys@.len(),
                keys@ == self.coins_to_spend_index@,
                r@ == index_group(keys@.take(i as int), *owner, *asset_id),
                self.wf() ==> forall|a: int, b: int|
                    0 <= a < b < r@.len() ==> r@[a].spec_amount() >= r@[b].spec_amount(),
                forall|a: int|
                    #![trigger r@[a]]
                    0 <= a < r@.len() ==> r@[a].spec_owner() == *owner && r@[a].spec_asset_id()
                        == *asset_id,
                forall|a: int|
                    #![trigger r@[a]]
                    0 <= a < r@.len() ==> exists|p: int|
                        0 <= p < i && #[trigger] keys@[p] == r@[a],
            decreases keys@.len() - i,
        {
            let key = keys[i];
            let matches_group = match &key {
                CoinsToSpendIndexKey::Coin { owner: o, asset_id: a, .. } => *o == *owner && *a
                    == *asset_id,
                CoinsToSpendIndexKey::Message { owner: o, asset_id: a, .. } => *o == *owner
                    && *a == *asset_id,
            };
            proof {
                assert(matches_group == (key.spec_owner() == *owner && key.spec_asset_id()
                    == *asset_id));
                assert(keys@.take(i + 1).drop_last() =~= keys@.take(i as int));
                assert(keys@.take(i + 1).last() == key);
                if self.wf() && matches_group {
                    assert forall|a: int| 0 <= a < r@.len() implies r@[a].spec_amount()
                        >= key.spec_amount() by {
                        let p = choose|p: int| 0 <= p < i && keys@[p] == r@[a];
                        assert(self.coins_to_spend_index@[p].spec_amount()
                            >= self.coins_to_spend_index@[i as int].spec_amount());
                    }
                }
            }
            let ghost r_old = r@;
            if matches_group {
                r.push(key);
            }
            proof {
                assert forall|a: int| #![trigger r@[a]] 0 <= a < r@.len() implies exists|
                    p: int,
                |
                    0 <= p < i + 1 && #[trigger] keys@[p] == r@[a] by {
                    if a < r_old.len() {
                        assert(r@[a] == r_old[a]);
                        let p = choose|p: int| 0 <= p < i && keys@[p] == r_old[a];
                        assert(0 <= p < i + 1 && keys@[p] == r@[a]);
                    } else {
                        assert(keys@[i as int] == r@[a]);
                    }
                }
            }
            i = i + 1;
        }
        proof {
            assert(keys@.take(keys@.len() as int) =~= keys@);
        }
        r
    }

    /// All plain coins of `owner`, optionally narrowed to one asset, in
    /// store order.
    pub fn owned_coins(&self, owner: &Address, asset_id: Option<&AssetId>) -> (r: Vec<Coin>)
        ensures
            r@ == owner_coins(
                self.coins@,
                *owner,
                match asset_id {
                    Some(a) => Some(*a),
                    None => None,
                },
            ),
    {
        let ghost filter_asset: Option<AssetId> = match asset_id {
            Some(a) => Some(*a),
            None => None,
        };
        let mut r: Vec<Coin> = Vec::new();
        let mut i: usize = 0;
        while i < self.coins.len()
            invariant
                0 <= i <= self.coins@.len(),
                r@ == owner_coins(self.coins@.take(i as int), *owner, filter_asset),
                filter_asset == (match asset_id {
                    Some(a) => Some(*a),
                    None => None::<AssetId>,
                }),
            decreases self.coins@.len() - i,
        {
            let c = self.coins[i];
            let keep = c.owner == *owner && (match asset_id {
                Some(a) => c.asset_id == *a,
                None => true,
            });
            proof {
                assert(self.coins@.take(i + 1).drop_last() =~= self.coins@.take(i as int));
                assert(self.coins@.take(i + 1).last() == c);
            }
            if keep {
                r.push(c);
            }
            i = i + 1;
        }
        proof {
            assert(self.coins@.take(self.coins@.len() as int) =~= self.coins@);
        }
        r
    }
}

} // verus!
