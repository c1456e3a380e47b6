//! Selection of spendable entries to cover per-asset funding targets.
//!
//! Two strategies implement the same outward contract.  When the secondary
//! spend index is available, [`select_coins_to_spend`] walks it in descending
//! amount order, which is deterministic and minimizes the number of entries.
//! Without the index, [`random_improve`] samples the full owned-entry domain
//! in random order and then trades selected entries for unselected ones to
//! reduce the overshoot above the target.

use vstd::prelude::*;

use crate::asset_query::{AssetSpendTarget, Exclude, SpendQuery};
use crate::coins::{Coin, CoinType, Message, SpendQueryElementInput};
use crate::ids::{Address, AssetId, CoinId, Nonce, UtxoId};
use crate::read_view::{
    index_group, lemma_index_group_props, CoinsToSpendIndexKey, ReadView,
};
use crate::rng::XorShift64;

verus! {

/// Everything that can go wrong while answering a spend query.
#[derive(Clone, Copy, Debug)]
pub enum CoinsQueryError {
    /// The caller excluded more identifiers than one transaction could ever
    /// reference.
    TooManyExcludedId { provided: usize, allowed: u16 },
    /// The same asset id appeared more than once among the requested targets.
    DuplicateAssets(AssetId),
    /// The owned entries of this asset cannot cover the target amount within
    /// the entry cap; `shortfall` is what remains uncovered.
    InsufficientCoins { asset_id: AssetId, shortfall: u128 },
    /// A selected plain coin could not be resolved in the store.
    CoinNotFound(UtxoId),
    /// A selected bridged entry could not be resolved in the store.
    MessageNotFound(Nonce),
    /// A selected bridged entry is not currently representable as a
    /// spendable coin.
    MessageNotSpendable(Nonce),
}

/// The total amount named by a sequence of index keys.
pub open spec fn sum_key_amounts(s: Seq<CoinsToSpendIndexKey>) -> int
    decreases s.len(),
{
    if s.len() == 0 {
        0
    } else {
        sum_key_amounts(s.drop_last()) + s.last().spec_amount()
    }
}

pub proof fn lemma_sum_key_amounts_push(s: Seq<CoinsToSpendIndexKey>, k: CoinsToSpendIndexKey)
    ensures
        sum_key_amounts(s.push(k)) == sum_key_amounts(s) + k.spec_amount(),
{
    assert(s.push(k).drop_last() =~= s);
    assert(s.push(k).last() == k);
}

/// The greedy walk of the indexed selector: consume `keys` in order, skip
/// excluded entries, and keep taking until the target is covered or the cap
/// is used up.
pub open spec fn indexed_selection(
    keys: Seq<CoinsToSpendIndexKey>,
    excluded: Seq<CoinId>,
    target: int,
    cap: int,
) -> Seq<CoinsToSpendIndexKey>
    decreases keys.len(),
{
    if target <= 0 || cap <= 0 || keys.len() == 0 {
        Seq::empty()
    } else if excluded.contains(keys[0].spec_coin_id()) {
        indexed_selection(keys.drop_first(), excluded, target, cap)
    } else {
        seq![keys[0]] + indexed_selection(
            keys.drop_first(),
            excluded,
            target - keys[0].spec_amount(),
            cap - 1,
        )
    }
}

/// One step of the greedy walk, phrased over suffixes of the key list.
proof fn lemma_indexed_selection_step(
    keys: Seq<CoinsToSpendIndexKey>,
    excluded: Seq<CoinId>,
    target: int,
    cap: int,
    i: int,
)
    requires
        0 <= i < keys.len(),
        target > 0,
        cap > 0,
    ensures
        excluded.contains(keys[i].spec_coin_id()) ==> indexed_selection(
            keys.skip(i),
            excluded,
            target,
            cap,
        ) == indexed_selection(keys.skip(i + 1), excluded, target, cap),
        !excluded.contains(keys[i].spec_coin_id()) ==> indexed_selection(
            keys.skip(i),
            excluded,
            target,
            cap,
        ) == seq![keys[i]] + indexed_selection(
            keys.skip(i + 1),
            excluded,
            target - keys[i].spec_amount(),
            cap - 1,
        ),
{
    assert(keys.skip(i).len() == keys.len() - i);
    assert(keys.skip(i)[0] == keys[i]);
    assert(keys.skip(i).drop_first() =~= keys.skip(i + 1));
}

/// Structural facts about the greedy walk: it never returns more than `cap`
/// entries, and every returned entry comes from `keys` and is not excluded.
pub proof fn lemma_indexed_selection_props(
    keys: Seq<CoinsToSpendIndexKey>,
    excluded: Seq<CoinId>,
    target: int,
    cap: int,
)
    ensures
        indexed_selection(keys, excluded, target, cap).len() <= (if cap >= 0 {
            cap
        } else {
            0
        }),
        forall|a: int|
            #![trigger indexed_selection(keys, excluded, target, cap)[a]]
            0 <= a < indexed_selection(keys, excluded, target, cap).len() ==> keys.contains(
                indexed_selection(keys, excluded, target, cap)[a],
            ) && !excluded.contains(
                indexed_selection(keys, excluded, target, cap)[a].spec_coin_id(),
            ),
    decreases keys.len(),
{
    let sel = indexed_selection(keys, excluded, target, cap);
    if target <= 0 || cap <= 0 || keys.len() == 0 {
    } else if excluded.contains(keys[0].spec_coin_id()) {
        lemma_indexed_selection_props(keys.drop_first(), excluded, target, cap);
        let rest = indexed_selection(keys.drop_first(), excluded, target, cap);
        assert forall|a: int| 0 <= a < sel.len() implies keys.contains(#[trigger] sel[a])
            && !excluded.contains(sel[a].spec_coin_id()) by {
            assert(sel[a] == rest[a]);
            let j = choose|j: int| 0 <= j < keys.drop_first().len() && keys.drop_first()[j]
                == rest[a];
            assert(keys[j + 1] == rest[a]);
        }
    } else {
        lemma_indexed_selection_props(
            keys.drop_first(),
            excluded,
            target - keys[0].spec_amount(),
            cap - 1,
        );
        let rest = indexed_selection(
            keys.drop_first(),
            excluded,
            target - keys[0].spec_amount(),
            cap - 1,
        );
        assert forall|a: int| 0 <= a < sel.len() implies keys.contains(#[trigger] sel[a])
            && !excluded.contains(sel[a].spec_coin_id()) by {
            if a == 0 {
                assert(keys[0] == sel[0]);
            } else {
                assert(sel[a] == rest[a - 1]);
                let j = choose|j: int| 0 <= j < keys.drop_first().len() && keys.drop_first()[j]
                    == rest[a - 1];
                assert(keys[j + 1] == rest[a - 1]);
            }
        }
    }
}

/// When the exclusion filter covers every key of the group, the greedy walk
/// selects nothing, so a positive target always fails with
/// `InsufficientCoins` rather than succeeding with an empty basket.
pub proof fn lemma_indexed_selection_all_excluded(
    keys: Seq<CoinsToSpendIndexKey>,
    excluded: Seq<CoinId>,
    target: int,
    cap: int,
)
    requires
        forall|i: int| 0 <= i < keys.len() ==> excluded.contains(
            #[trigger] keys[i].spec_coin_id(),
        ),
    ensures
        indexed_selection(keys, excluded, target, cap) == Seq::<CoinsToSpendIndexKey>::empty(),
    decreases keys.len(),
{
    if target <= 0 || cap <= 0 || keys.len() == 0 {
    } else {
        assert(excluded.contains(keys[0].spec_coin_id()));
        assert forall|i: int| 0 <= i < keys.drop_first().len() implies excluded.contains(
            #[trigger] keys.drop_first()[i].spec_coin_id(),
        ) by {
            assert(keys.drop_first()[i] == keys[i + 1]);
        }
        lemma_indexed_selection_all_excluded(keys.drop_first(), excluded, target, cap);
    }
}

/// Greedy selection over one `(owner, asset)` group of the secondary index,
/// handed in largest amount first.  Deterministic: the result is a function
/// of the key list, the filter, the target and the cap alone, so two calls
/// against identical state and an identical query return identical results.
pub fn select_coins_to_spend(
    big_first: &Vec<CoinsToSpendIndexKey>,
    total: u128,
    max: u16,
    asset_id: &AssetId,
    excluded_ids: &Exclude,
) -> (r: Result<Vec<CoinsToSpendIndexKey>, CoinsQueryError>)
    ensures
        ({
            let sel = indexed_selection(big_first@, excluded_ids@, total as int, max as int);
            match r {
                Ok(v) => v@ == sel && sum_key_amounts(sel) >= total as int,
                Err(e) => sum_key_amounts(sel) < total as int && e == (
                CoinsQueryError::InsufficientCoins {
                    asset_id: *asset_id,
                    shortfall: (total as int - sum_key_amounts(sel)) as u128,
                }),
            }
        }),
{
    let ghost full = indexed_selection(big_first@, excluded_ids@, total as int, max as int);
    let mut selected: Vec<CoinsToSpendIndexKey> = Vec::new();
    let mut sum: u128 = 0;
    let mut i: usize = 0;
    proof {
        assert(big_first@.skip(0) =~= big_first@);
        assert(Seq::<CoinsToSpendIndexKey>::empty() + full =~= full);
    }
    while i < big_first.len() && sum < total && selected.len() < max as usize
        invariant
            0 <= i <= big_first@.len(),
            selected@.len() <= max as int,
            sum == sum_key_amounts(selected@),
            sum <= selected@.len() * (u64::MAX as int),
            full == indexed_selection(
                big_first@,
                excluded_ids@,
                total as int,
                max as int,
            ),
            full == selected@ + indexed_selection(
                big_first@.skip(i as int),
                excluded_ids@,
                total as int - sum as int,
                max as int - selected@.len(),
            ),
        decreases big_first@.len() - i,
    {
        let key = big_first[i];
        let excluded = excluded_ids.contains(&key.coin_id());
        proof {
            lemma_indexed_selection_step(
                big_first@,
                excluded_ids@,
                total as int - sum as int,
                max as int - selected@.len(),
                i as int,
            );
        }
        if !excluded {
            proof {
                lemma_sum_key_amounts_push(selected@, key);
                assert(selected@.len() * (u64::MAX as int) + (u64::MAX as int) == (selected@.len()
                    + 1) * (u64::MAX as int)) by (nonlinear_arith);
                assert(sum as int + key.spec_amount() <= (selected@.len() + 1) * (
                u64::MAX as int));
                assert((selected@.len() + 1) * (u64::MAX as int) <= 65536 * (u64::MAX as int))
                    by (nonlinear_arith)
                    requires
                        selected@.len() + 1 <= 65536,
                ;
                assert(selected@ + (seq![key] + indexed_selection(
                    big_first@.skip(i as int + 1),
                    excluded_ids@,
                    total as int - sum as int - key.spec_amount(),
                    max as int - selected@.len() - 1,
                )) =~= selected@.push(key) + indexed_selection(
                    big_first@.skip(i as int + 1),
                    excluded_ids@,
                    total as int - sum as int - key.spec_amount(),
                    max as int - selected@.len() - 1,
                ));
            }
            sum = sum + key.amount() as u128;
            selected.push(key);
        }
        i = i + 1;
    }
    proof {
        if i == big_first@.len() {
            assert(big_first@.skip(i as int) =~= Seq::<CoinsToSpendIndexKey>::empty());
        }
        assert(selected@ + Seq::<CoinsToSpendIndexKey>::empty() =~= selected@);
        assert(full == selected@);
    }
    if sum >= total {
        Ok(selected)
    } else {
        Err(
            CoinsQueryError::InsufficientCoins {
                asset_id: *asset_id,
                shortfall: total - sum,
            },
        )
    }
}

/// The total amount carried by a sequence of resolved records.
pub open spec fn sum_coin_amounts(s: Seq<CoinType>) -> int
    decreases s.len(),
{
    if s.len() == 0 {
        0
    } else {
        sum_coin_amounts(s.drop_last()) + s.last().spec_amount()
    }
}

pub proof fn lemma_sum_coin_amounts_push(s: Seq<CoinType>, c: CoinType)
    ensures
        sum_coin_amounts(s.push(c)) == sum_coin_amounts(s) + c.spec_amount(),
{
    assert(s.push(c).drop_last() =~= s);
    assert(s.push(c).last() == c);
}

pub proof fn lemma_sum_coin_amounts_bounds(s: Seq<CoinType>)
    ensures
        0 <= sum_coin_amounts(s) <= s.len() * (u64::MAX as int),
    decreases s.len(),
{
    if s.len() > 0 {
        lemma_sum_coin_amounts_bounds(s.drop_last());
        assert(s.drop_last().len() * (u64::MAX as int) + (u64::MAX as int) == s.len() * (
        u64::MAX as int)) by (nonlinear_arith)
            requires
                s.drop_last().len() == s.len() - 1,
        ;
    }
}

/// Records whose amounts mirror their keys sum to the same total.
pub proof fn lemma_sum_records_match_keys(recs: Seq<CoinType>, keys: Seq<CoinsToSpendIndexKey>)
    requires
        recs.len() == keys.len(),
        forall|a: int|
            0 <= a < recs.len() ==> (#[trigger] recs[a]).spec_amount() == keys[a].spec_amount(),
    ensures
        sum_coin_amounts(recs) == sum_key_amounts(keys),
    decreases recs.len(),
{
    if recs.len() > 0 {
        assert forall|a: int| 0 <= a < recs.drop_last().len() implies (#[trigger] recs.drop_last(
        )[a]).spec_amount() == keys.drop_last()[a].spec_amount() by {
            assert(recs.drop_last()[a] == recs[a]);
            assert(keys.drop_last()[a] == keys[a]);
        }
        lemma_sum_records_match_keys(recs.drop_last(), keys.drop_last());
    }
}

/// The cap one asset leg is allowed to use: the requested cap, clamped by
/// the query-wide ceiling.
pub open spec fn effective_cap(e: SpendQueryElementInput, max_input: u16) -> u16 {
    match e.max {
        Some(m) => if m < max_input {
            m
        } else {
            max_input
        },
        None => max_input,
    }
}

/// The index keys the indexed path selects for one asset leg.
pub open spec fn asset_selection(
    db: ReadView,
    owner: Address,
    e: SpendQueryElementInput,
    excluded: Seq<CoinId>,
    max_input: u16,
) -> Seq<CoinsToSpendIndexKey> {
    indexed_selection(
        index_group(db.coins_to_spend_index@, owner, e.asset_id),
        excluded,
        e.amount as int,
        effective_cap(e, max_input) as int,
    )
}

/// The record `rec` is what resolving `key` against the store yields.
pub open spec fn record_matches_key(
    db: ReadView,
    rec: CoinType,
    key: CoinsToSpendIndexKey,
) -> bool {
    match key {
        CoinsToSpendIndexKey::Coin { utxo_id, .. } => (match rec {
            CoinType::Coin(c) => db.coins@.contains(c) && c.utxo_id == utxo_id,
            CoinType::MessageCoin(_) => false,
        }),
        CoinsToSpendIndexKey::Message { nonce, .. } => (match rec {
            CoinType::Coin(_) => false,
            CoinType::MessageCoin(mc) => exists|k: int|
                0 <= k < db.messages@.len() && (#[trigger] db.messages@[k]).nonce == nonce
                    && db.messages@[k].spec_spendable() && db.messages@[k].spec_coin() == mc,
        }),
    }
}

/// Why resolving `key` fails, if it does: the record is gone from the view,
/// or a bridged entry is not currently spendable.
pub open spec fn key_resolution_error(db: ReadView, key: CoinsToSpendIndexKey) -> Option<
    CoinsQueryError,
> {
    match key {
        CoinsToSpendIndexKey::Coin { utxo_id, .. } => if exists|k: int|
            0 <= k < db.coins@.len() && (#[trigger] db.coins@[k]).utxo_id == utxo_id {
            None
        } else {
            Some(CoinsQueryError::CoinNotFound(utxo_id))
        },
        CoinsToSpendIndexKey::Message { nonce, .. } => if !(exists|k: int|
            0 <= k < db.messages@.len() && (#[trigger] db.messages@[k]).nonce == nonce) {
            Some(CoinsQueryError::MessageNotFound(nonce))
        } else if exists|k: int|
            0 <= k < db.messages@.len() && (#[trigger] db.messages@[k]).nonce == nonce && !db
                .messages@[k].spec_spendable() {
            Some(CoinsQueryError::MessageNotSpendable(nonce))
        } else {
            None
        },
    }
}

/// Under a well-formed view, resolution is a function: a key resolves to at
/// most one record, so the indexed path's results are fully determined by
/// the view and the query.
pub proof fn lemma_resolution_functional(
    db: ReadView,
    key: CoinsToSpendIndexKey,
    r1: CoinType,
    r2: CoinType,
)
    requires
        db.wf(),
        record_matches_key(db, r1, key),
        record_matches_key(db, r2, key),
    ensures
        r1 == r2,
{
    match key {
        CoinsToSpendIndexKey::Coin { utxo_id, .. } => {
            let c1 = (match r1 {
                CoinType::Coin(c) => c,
                CoinType::MessageCoin(_) => arbitrary(),
            });
            let c2 = (match r2 {
                CoinType::Coin(c) => c,
                CoinType::MessageCoin(_) => arbitrary(),
            });
            let k1 = choose|k: int| 0 <= k < db.coins@.len() && db.coins@[k] == c1;
            let k2 = choose|k: int| 0 <= k < db.coins@.len() && db.coins@[k] == c2;
            if k1 != k2 {
                assert(db.coins@[k1].utxo_id != db.coins@[k2].utxo_id);
            }
        },
        CoinsToSpendIndexKey::Message { nonce, .. } => {
            let m1 = choose|k: int|
                0 <= k < db.messages@.len() && (#[trigger] db.messages@[k]).nonce == nonce
                    && db.messages@[k].spec_spendable() && db.messages@[k].spec_coin() == (match r1 {
                    CoinType::MessageCoin(mc) => mc,
                    CoinType::Coin(_) => arbitrary(),
                });
            let m2 = choose|k: int|
                0 <= k < db.messages@.len() && (#[trigger] db.messages@[k]).nonce == nonce
                    && db.messages@[k].spec_spendable() && db.messages@[k].spec_coin() == (match r2 {
                    CoinType::MessageCoin(mc) => mc,
                    CoinType::Coin(_) => arbitrary(),
                });
            if m1 != m2 {
                assert(db.messages@[m1].nonce != db.messages@[m2].nonce);
            }
        },
    }
}

/// A resolved record carries exactly the amount and the identifier its index
/// key advertises, provided the key is really part of the view's index.
proof fn lemma_resolved_record(db: ReadView, rec: CoinType, key: CoinsToSpendIndexKey)
    requires
        db.wf(),
        record_matches_key(db, rec, key),
        db.coins_to_spend_index@.contains(key),
    ensures
        rec.spec_amount() == key.spec_amount(),
        rec.spec_coin_id() == key.spec_coin_id(),
{
    let i = choose|i: int|
        0 <= i < db.coins_to_spend_index@.len() && db.coins_to_spend_index@[i] == key;
    match key {
        CoinsToSpendIndexKey::Coin { utxo_id, .. } => {
            let c = (match rec {
                CoinType::Coin(c) => c,
                CoinType::MessageCoin(_) => arbitrary(),
            });
            let k = choose|k: int| 0 <= k < db.coins@.len() && db.coins@[k] == c;
            assert(db.coins_to_spend_index@[i].spec_coin_id() == CoinId::Utxo(
                db.coins@[k].utxo_id,
            ));
            assert(db.coins_to_spend_index@[i].spec_amount() == db.coins@[k].amount);
        },
        CoinsToSpendIndexKey::Message { nonce, .. } => {
            let mc = (match rec {
                CoinType::MessageCoin(mc) => mc,
                CoinType::Coin(_) => arbitrary(),
            });
            let k = choose|k: int|
                0 <= k < db.messages@.len() && (#[trigger] db.messages@[k]).nonce == nonce
                    && db.messages@[k].spec_spendable() && db.messages@[k].spec_coin() == mc;
            assert(db.coins_to_spend_index@[i].spec_coin_id() == CoinId::Message(
                db.messages@[k].nonce,
            ));
            assert(db.coins_to_spend_index@[i].spec_amount() == db.messages@[k].amount);
        },
    }
}

/// Everything the indexed path promises of one asset leg's records.
pub open spec fn per_asset_result_ok(
    db: ReadView,
    owner: Address,
    e: SpendQueryElementInput,
    excluded: Seq<CoinId>,
    max_input: u16,
    recs: Seq<CoinType>,
) -> bool {
    let sel = asset_selection(db, owner, e, excluded, max_input);
    &&& recs.len() == sel.len()
    &&& forall|a: int|
        0 <= a < sel.len() ==> record_matches_key(db, #[trigger] recs[a], sel[a])
    &&& sum_key_amounts(sel) >= e.amount as int
    &&& sum_coin_amounts(recs) >= e.amount as int
    &&& recs.len() <= effective_cap(e, max_input) as int
    &&& forall|a: int|
        0 <= a < recs.len() ==> !excluded.contains((#[trigger] recs[a]).spec_coin_id())
    &&& distinct_record_ids(recs)
}

/// The indexed strategy: for each asset leg, in order, walk the leg's index
/// group largest-first, then resolve the selected keys into records.  The
/// whole answer is a function of the view and the query (no randomness), and
/// one failing leg aborts the query.
pub fn coins_to_spend_with_cache(
    owner: Address,
    query_per_asset: &Vec<SpendQueryElementInput>,
    excluded: &Exclude,
    max_input: u16,
    db: &ReadView,
) -> (r: Result<Vec<Vec<CoinType>>, CoinsQueryError>)
    requires
        db.wf(),
    ensures
        match r {
            Ok(all) => all@.len() == query_per_asset@.len() && forall|k: int|
                0 <= k < all@.len() ==> per_asset_result_ok(
                    *db,
                    owner,
                    query_per_asset@[k],
                    excluded@,
                    max_input,
                    (#[trigger] all@[k])@,
                ),
            Err(e) => exists|k: int|
                0 <= k < query_per_asset@.len() && ({
                    let sel = asset_selection(
                        *db,
                        owner,
                        #[trigger] query_per_asset@[k],
                        excluded@,
                        max_input,
                    );
                    ||| (sum_key_amounts(sel) < query_per_asset@[k].amount as int && e == (
                    CoinsQueryError::InsufficientCoins {
                        asset_id: query_per_asset@[k].asset_id,
                        shortfall: (query_per_asset@[k].amount as int - sum_key_amounts(
                            sel,
                        )) as u128,
                    }))
                    ||| (exists|a: int|
                        0 <= a < sel.len() && key_resolution_error(*db, #[trigger] sel[a])
                            == Some(e))
                }),
        },
{
    let mut all_coins: Vec<Vec<CoinType>> = Vec::new();
    let mut k: usize = 0;
    while k < query_per_asset.len()
        invariant
            0 <= k <= query_per_asset@.len(),
            db.wf(),
            all_coins@.len() == k,
            forall|kk: int|
                0 <= kk < k ==> per_asset_result_ok(
                    *db,
                    owner,
                    query_per_asset@[kk],
                    excluded@,
                    max_input,
                    (#[trigger] all_coins@[kk])@,
                ),
        decreases query_per_asset@.len() - k,
    {
        let asset = query_per_asset[k];
        let asset_id = asset.asset_id;
        let total_amount = asset.amount;
        let max_count = match asset.max {
            Some(m) => if m < max_input {
                m
            } else {
                max_input
            },
            None => max_input,
        };
        proof {
            assert(max_count == effective_cap(asset, max_input));
        }
        let keys = db.coins_to_spend_index(&owner, &asset_id);
        let ghost sel = asset_selection(*db, owner, asset, excluded@, max_input);
        let selected = match select_coins_to_spend(
            &keys,
            total_amount,
            max_count,
            &asset_id,
            excluded,
        ) {
            Ok(s) => s,
            Err(e) => {
                return Err(e);
            },
        };
        proof {
            assert(selected@ == sel);
            lemma_indexed_selection_props(
                keys@,
                excluded@,
                total_amount as int,
                max_count as int,
            );
            lemma_index_group_props(db.coins_to_spend_index@, owner, asset_id);
            assert forall|a: int| 0 <= a < sel.len() implies db.coins_to_spend_index@.contains(
                #[trigger] sel[a],
            ) by {
                assert(keys@.contains(sel[a]));
                let j = choose|j: int| 0 <= j < keys@.len() && keys@[j] == sel[a];
                assert(index_group(db.coins_to_spend_index@, owner, asset_id)[j] == sel[a]);
            }
        }
        let mut coins_per_asset: Vec<CoinType> = Vec::new();
        let mut a: usize = 0;
        while a < selected.len()
            invariant
                0 <= a <= selected@.len(),
                db.wf(),
                0 <= k < query_per_asset@.len(),
                asset == query_per_asset@[k as int],
                sel == asset_selection(*db, owner, asset, excluded@, max_input),
                selected@ == sel,
                forall|aa: int|
                    0 <= aa < sel.len() ==> db.coins_to_spend_index@.contains(
                        #[trigger] sel[aa],
                    ),
                coins_per_asset@.len() == a,
                forall|aa: int|
                    0 <= aa < a ==> record_matches_key(
                        *db,
                        #[trigger] coins_per_asset@[aa],
                        selected@[aa],
                    ),
                forall|aa: int|
                    0 <= aa < a ==> (#[trigger] coins_per_asset@[aa]).spec_amount()
                        == selected@[aa].spec_amount(),
                forall|aa: int|
                    0 <= aa < a ==> (#[trigger] coins_per_asset@[aa]).spec_coin_id()
                        == selected@[aa].spec_coin_id(),
            decreases selected@.len() - a,
        {
            let key = selected[a];
            let rec = match &key {
                CoinsToSpendIndexKey::Coin { utxo_id, .. } => {
                    match db.coin(utxo_id) {
                        Some(c) => CoinType::Coin(c),
                        None => {
                            proof {
                                assert(key_resolution_error(*db, sel[a as int]) == Some(
                                    CoinsQueryError::CoinNotFound(*utxo_id),
                                ));
                            }
                            return Err(CoinsQueryError::CoinNotFound(*utxo_id));
                        },
                    }
                },
                CoinsToSpendIndexKey::Message { nonce, .. } => {
                    match db.message(nonce) {
                        Some(m) => {
                            match m.as_message_coin() {
                                Some(mc) => {
                                    proof {
                                        assert(db.messages@.contains(*m));
                                        let kk = choose|kk: int|
                                            0 <= kk < db.messages@.len() && db.messages@[kk]
                                                == *m;
                                        assert(db.messages@[kk].nonce == *nonce
                                            && db.messages@[kk].spec_spendable()
                                            && db.messages@[kk].spec_coin() == mc);
                                    }
                                    CoinType::MessageCoin(mc)
                                },
                                None => {
                                    proof {
                                        assert(db.messages@.contains(*m));
                                        let kk = choose|kk: int|
                                            0 <= kk < db.messages@.len() && db.messages@[kk]
                                                == *m;
                                        assert(db.messages@[kk].nonce == *nonce && !db.messages@[
                                            kk].spec_spendable());
                                        assert(key_resolution_error(*db, sel[a as int]) == Some(
                                            CoinsQueryError::MessageNotSpendable(*nonce),
                                        ));
                                    }
                                    return Err(CoinsQueryError::MessageNotSpendable(*nonce));
                                },
                            }
                        },
                        None => {
                            proof {
                                assert(key_resolution_error(*db, sel[a as int]) == Some(
                                    CoinsQueryError::MessageNotFound(*nonce),
                                ));
                            }
                            return Err(CoinsQueryError::MessageNotFound(*nonce));
                        },
                    }
                },
            };
            proof {
                assert(record_matches_key(*db, rec, key));
                lemma_resolved_record(*db, rec, key);
            }
            coins_per_asset.push(rec);
            a = a + 1;
        }
        proof {
            lemma_sum_records_match_keys(coins_per_asset@, selected@);
            assert(distinct_key_ids(db.coins_to_spend_index@));
            lemma_index_group_distinct(db.coins_to_spend_index@, owner, asset_id);
            lemma_indexed_selection_distinct(
                keys@,
                excluded@,
                total_amount as int,
                max_count as int,
            );
            assert forall|a: int, b: int|
                0 <= a < b < coins_per_asset@.len() implies coins_per_asset@[a].spec_coin_id()
                != coins_per_asset@[b].spec_coin_id() by {
                assert(selected@[a].spec_coin_id() != selected@[b].spec_coin_id());
            }
            assert(per_asset_result_ok(
                *db,
                owner,
                asset,
                excluded@,
                max_input,
                coins_per_asset@,
            ));
        }
        all_coins.push(coins_per_asset);
        k = k + 1;
    }
    Ok(all_coins)
}

/// The outcome the indexed strategy promises on success.
pub open spec fn indexed_ok_outcome(
    db: ReadView,
    owner: Address,
    q: Seq<SpendQueryElementInput>,
    excluded: Seq<CoinId>,
    max_input: u16,
    all: Seq<Vec<CoinType>>,
) -> bool {
    &&& all.len() == q.len()
    &&& forall|k: int|
        0 <= k < all.len() ==> per_asset_result_ok(
            db,
            owner,
            q[k],
            excluded,
            max_input,
            (#[trigger] all[k])@,
        )
}

/// The outcome the indexed strategy promises on failure.
pub open spec fn indexed_err_outcome(
    db: ReadView,
    owner: Address,
    q: Seq<SpendQueryElementInput>,
    excluded: Seq<CoinId>,
    max_input: u16,
    e: CoinsQueryError,
) -> bool {
    exists|k: int|
        0 <= k < q.len() && ({
            let sel = asset_selection(db, owner, #[trigger] q[k], excluded, max_input);
            ||| (sum_key_amounts(sel) < q[k].amount as int && e == (
            CoinsQueryError::InsufficientCoins {
                asset_id: q[k].asset_id,
                shortfall: (q[k].amount as int - sum_key_amounts(sel)) as u128,
            }))
            ||| (exists|a: int|
                0 <= a < sel.len() && key_resolution_error(db, #[trigger] sel[a]) == Some(e))
        })
}

/// Whether a plain coin is a candidate for one asset leg of the fallback
/// walk.
pub open spec fn eligible_coin(
    c: Coin,
    owner: Address,
    asset_id: AssetId,
    excluded: Seq<CoinId>,
) -> bool {
    c.owner == owner && c.asset_id == asset_id && !excluded.contains(CoinId::Utxo(c.utxo_id))
}

/// Whether a bridged entry is a candidate (its amount counts toward the base
/// asset only).
pub open spec fn eligible_message(m: Message, owner: Address, excluded: Seq<CoinId>) -> bool {
    m.recipient == owner && m.spec_spendable() && !excluded.contains(CoinId::Message(m.nonce))
}

/// The candidate records among `coins`, in store order.
pub open spec fn eligible_coin_records(
    coins: Seq<Coin>,
    owner: Address,
    asset_id: AssetId,
    excluded: Seq<CoinId>,
) -> Seq<CoinType>
    decreases coins.len(),
{
    if coins.len() == 0 {
        Seq::empty()
    } else {
        let prefix = eligible_coin_records(coins.drop_last(), owner, asset_id, excluded);
        if eligible_coin(coins.last(), owner, asset_id, excluded) {
            prefix.push(CoinType::Coin(coins.last()))
        } else {
            prefix
        }
    }
}

/// The candidate records among `messages`, in store order.
pub open spec fn eligible_message_records(
    messages: Seq<Message>,
    owner: Address,
    excluded: Seq<CoinId>,
) -> Seq<CoinType>
    decreases messages.len(),
{
    if messages.len() == 0 {
        Seq::empty()
    } else {
        let prefix = eligible_message_records(messages.drop_last(), owner, excluded);
        if eligible_message(messages.last(), owner, excluded) {
            prefix.push(CoinType::MessageCoin(messages.last().spec_coin()))
        } else {
            prefix
        }
    }
}

/// The full candidate domain of one asset leg when no index exists: the
/// owner's coins of that asset, plus, for the base asset, the owner's
/// spendable bridged entries.
pub open spec fn eligible_records(
    db: ReadView,
    owner: Address,
    asset_id: AssetId,
    base_asset_id: AssetId,
    excluded: Seq<CoinId>,
) -> Seq<CoinType> {
    eligible_coin_records(db.coins@, owner, asset_id, excluded) + (if asset_id
        == base_asset_id {
        eligible_message_records(db.messages@, owner, excluded)
    } else {
        Seq::empty()
    })
}

/// What being a candidate record means, element-wise.
pub open spec fn eligible_record(
    db: ReadView,
    owner: Address,
    asset_id: AssetId,
    base_asset_id: AssetId,
    excluded: Seq<CoinId>,
    rec: CoinType,
) -> bool {
    match rec {
        CoinType::Coin(c) => db.coins@.contains(c) && eligible_coin(
            c,
            owner,
            asset_id,
            excluded,
        ),
        CoinType::MessageCoin(mc) => asset_id == base_asset_id && exists|k: int|
            0 <= k < db.messages@.len() && eligible_message(
                #[trigger] db.messages@[k],
                owner,
                excluded,
            ) && db.messages@[k].spec_coin() == mc,
    }
}

proof fn lemma_eligible_coin_records_props(
    coins: Seq<Coin>,
    owner: Address,
    asset_id: AssetId,
    excluded: Seq<CoinId>,
)
    ensures
        forall|a: int|
            #![trigger eligible_coin_records(coins, owner, asset_id, excluded)[a]]
            0 <= a < eligible_coin_records(coins, owner, asset_id, excluded).len() ==> (
            match eligible_coin_records(coins, owner, asset_id, excluded)[a] {
                CoinType::Coin(c) => coins.contains(c) && eligible_coin(
                    c,
                    owner,
                    asset_id,
                    excluded,
                ),
                CoinType::MessageCoin(_) => false,
            }),
    decreases coins.len(),
{
    let part = eligible_coin_records(coins, owner, asset_id, excluded);
    if coins.len() > 0 {
        lemma_eligible_coin_records_props(coins.drop_last(), owner, asset_id, excluded);
        let prefix = eligible_coin_records(coins.drop_last(), owner, asset_id, excluded);
        assert forall|a: int| 0 <= a < part.len() implies (match #[trigger] part[a] {
            CoinType::Coin(c) => coins.contains(c) && eligible_coin(
                c,
                owner,
                asset_id,
                excluded,
            ),
            CoinType::MessageCoin(_) => false,
        }) by {
            if a < prefix.len() {
                assert(part[a] == prefix[a]);
                match prefix[a] {
                    CoinType::Coin(c) => {
                        let j = choose|j: int|
                            0 <= j < coins.drop_last().len() && coins.drop_last()[j] == c;
                        assert(coins[j] == c);
                    },
                    CoinType::MessageCoin(_) => {},
                }
            } else {
                assert(part[a] == CoinType::Coin(coins.last()));
                assert(coins[coins.len() - 1] == coins.last());
            }
        }
    }
}

proof fn lemma_eligible_message_records_props(
    messages: Seq<Message>,
    owner: Address,
    excluded: Seq<CoinId>,
)
    ensures
        forall|a: int|
            #![trigger eligible_message_records(messages, owner, excluded)[a]]
            0 <= a < eligible_message_records(messages, owner, excluded).len() ==> (
            match eligible_message_records(messages, owner, excluded)[a] {
                CoinType::Coin(_) => false,
                CoinType::MessageCoin(mc) => exists|k: int|
                    0 <= k < messages.len() && eligible_message(
                        #[trigger] messages[k],
                        owner,
                        excluded,
                    ) && messages[k].spec_coin() == mc,
            }),
    decreases messages.len(),
{
    let part = eligible_message_records(messages, owner, excluded);
    if messages.len() > 0 {
        lemma_eligible_message_records_props(messages.drop_last(), owner, excluded);
        let prefix = eligible_message_records(messages.drop_last(), owner, excluded);
        assert forall|a: int| 0 <= a < part.len() implies (match #[trigger] part[a] {
            CoinType::Coin(_) => false,
            CoinType::MessageCoin(mc) => exists|k: int|
                0 <= k < messages.len() && eligible_message(
                    #[trigger] messages[k],
                    owner,
                    excluded,
                ) && messages[k].spec_coin() == mc,
        }) by {
            if a < prefix.len() {
                assert(part[a] == prefix[a]);
                match prefix[a] {
                    CoinType::MessageCoin(mc) => {
                        let j = choose|j: int|
                            0 <= j < messages.drop_last().len() && eligible_message(
                                messages.drop_last()[j],
                                owner,
                                excluded,
                            ) && messages.drop_last()[j].spec_coin() == mc;
                        assert(messages[j] == messages.drop_last()[j]);
                        assert(eligible_message(messages[j], owner, excluded)
                            && messages[j].spec_coin() == mc);
                    },
                    CoinType::Coin(_) => {},
                }
            } else {
                assert(part[a] == CoinType::MessageCoin(messages.last().spec_coin()));
                assert(messages[messages.len() - 1] == messages.last());
                assert(eligible_message(messages[messages.len() - 1], owner, excluded)
                    && messages[messages.len() - 1].spec_coin() == messages.last().spec_coin());
            }
        }
    }
}

/// Every candidate of the fallback domain is an eligible record.
pub proof fn lemma_eligible_records_props(
    db: ReadView,
    owner: Address,
    asset_id: AssetId,
    base_asset_id: AssetId,
    excluded: Seq<CoinId>,
)
    ensures
        forall|a: int|
            #![trigger eligible_records(db, owner, asset_id, base_asset_id, excluded)[a]]
            0 <= a < eligible_records(db, owner, asset_id, base_asset_id, excluded).len()
                ==> eligible_record(
                db,
                owner,
                asset_id,
                base_asset_id,
                excluded,
                eligible_records(db, owner, asset_id, base_asset_id, excluded)[a],
            ),
{
    let elig = eligible_records(db, owner, asset_id, base_asset_id, excluded);
    let coin_part = eligible_coin_records(db.coins@, owner, asset_id, excluded);
    lemma_eligible_coin_records_props(db.coins@, owner, asset_id, excluded);
    lemma_eligible_message_records_props(db.messages@, owner, excluded);
    assert forall|a: int| 0 <= a < elig.len() implies eligible_record(
        db,
        owner,
        asset_id,
        base_asset_id,
        excluded,
        #[trigger] elig[a],
    ) by {
        if a < coin_part.len() {
            assert(elig[a] == coin_part[a]);
        } else {
            assert(asset_id == base_asset_id);
            assert(elig[a] == eligible_message_records(db.messages@, owner, excluded)[a
                - coin_part.len()]);
        }
    }
}

pub proof fn lemma_sum_coin_amounts_update(s: Seq<CoinType>, j: int, v: CoinType)
    requires
        0 <= j < s.len(),
    ensures
        sum_coin_amounts(s.update(j, v)) == sum_coin_amounts(s) - s[j].spec_amount()
            + v.spec_amount(),
    decreases s.len(),
{
    let u = s.update(j, v);
    if j == s.len() - 1 {
        assert(u.drop_last() =~= s.drop_last());
        assert(u.last() == v);
    } else {
        assert(u.drop_last() =~= s.drop_last().update(j, v));
        assert(u.last() == s.last());
        lemma_sum_coin_amounts_update(s.drop_last(), j, v);
    }
}

/// Removing position `j` by a swap with the last element lowers the sum by
/// exactly the removed amount.
pub proof fn lemma_sum_coin_amounts_swap_remove(s: Seq<CoinType>, j: int)
    requires
        0 <= j < s.len(),
    ensures
        sum_coin_amounts(s.update(j, s.last()).drop_last()) == sum_coin_amounts(s)
            - s[j].spec_amount(),
{
    let u = s.update(j, s.last());
    lemma_sum_coin_amounts_update(s, j, s.last());
    assert(u.last() == s.last());
    assert(sum_coin_amounts(u) == sum_coin_amounts(u.drop_last()) + u.last().spec_amount());
}

/// One element never exceeds the whole sum.
pub proof fn lemma_sum_coin_element_bound(s: Seq<CoinType>, i: int)
    requires
        0 <= i < s.len(),
    ensures
        s[i].spec_amount() <= sum_coin_amounts(s),
    decreases s.len(),
{
    lemma_sum_coin_amounts_bounds(s.drop_last());
    if i == s.len() - 1 {
    } else {
        lemma_sum_coin_element_bound(s.drop_last(), i);
        assert(s.drop_last()[i] == s[i]);
    }
}

/// Everything the fallback path promises of one asset leg's records: the
/// target is covered, the cap is respected, and every record is an eligible
/// candidate (owned, of the right asset, not excluded, present in the view).
pub open spec fn fallback_per_asset_ok(
    db: ReadView,
    owner: Address,
    base_asset_id: AssetId,
    excluded: Seq<CoinId>,
    e: AssetSpendTarget,
    recs: Seq<CoinType>,
) -> bool {
    &&& sum_coin_amounts(recs) >= e.target as int
    &&& recs.len() <= e.max as int
    &&& forall|a: int|
        0 <= a < recs.len() ==> eligible_record(
            db,
            owner,
            e.id,
            base_asset_id,
            excluded,
            #[trigger] recs[a],
        )
    &&& distinct_record_ids(recs)
}

/// The outcome the fallback strategy promises on success.  Success also
/// witnesses that each leg's candidate domain covers its target.
pub open spec fn fallback_ok_outcome(
    db: ReadView,
    owner: Address,
    base_asset_id: AssetId,
    excluded: Seq<CoinId>,
    q: Seq<AssetSpendTarget>,
    all: Seq<Vec<CoinType>>,
) -> bool {
    &&& all.len() == q.len()
    &&& forall|k: int|
        0 <= k < all.len() ==> fallback_per_asset_ok(
            db,
            owner,
            base_asset_id,
            excluded,
            q[k],
            (#[trigger] all[k])@,
        )
    &&& forall|k: int|
        0 <= k < q.len() ==> sum_coin_amounts(
            eligible_records(db, owner, (#[trigger] q[k]).id, base_asset_id, excluded),
        ) >= q[k].target as int
}

/// The outcome the fallback strategy promises on failure: some leg's domain
/// cannot cover its target, or its cap is smaller than the domain the walk
/// would have to exhaust.
pub open spec fn fallback_err_outcome(
    db: ReadView,
    owner: Address,
    base_asset_id: AssetId,
    excluded: Seq<CoinId>,
    q: Seq<AssetSpendTarget>,
    err: CoinsQueryError,
) -> bool {
    exists|k: int|
        0 <= k < q.len() && ({
            let elig = eligible_records(db, owner, (#[trigger] q[k]).id, base_asset_id, excluded);
            match err {
                CoinsQueryError::InsufficientCoins { asset_id, shortfall } => asset_id == q[k].id
                    && 0 < shortfall <= q[k].target && (sum_coin_amounts(elig) < q[k].target as int
                    || (q[k].max as int) < elig.len()),
                _ => false,
            }
        })
}

/// One asset leg of the fallback strategy: gather the eligible domain, draw
/// candidates in random order until the target is covered or the cap is hit,
/// then repeatedly trade the weakest selected entry for an unselected one
/// while that lowers the overshoot and keeps the target covered.
fn select_asset_fallback(
    db: &ReadView,
    owner: Address,
    base_asset_id: AssetId,
    exclude: &Exclude,
    target: &AssetSpendTarget,
    rng: &mut XorShift64,
) -> (r: Result<Vec<CoinType>, CoinsQueryError>)
    requires
        db.wf(),
    ensures
        ({
            let elig = eligible_records(*db, owner, target.id, base_asset_id, exclude@);
            match r {
                Ok(recs) => fallback_per_asset_ok(
                    *db,
                    owner,
                    base_asset_id,
                    exclude@,
                    *target,
                    recs@,
                ) && sum_coin_amounts(elig) >= target.target as int,
                Err(e) => (match e {
                    CoinsQueryError::InsufficientCoins { asset_id, shortfall } => asset_id
                        == target.id && 0 < shortfall <= target.target && (sum_coin_amounts(elig)
                        < target.target as int || (target.max as int) < elig.len()),
                    _ => false,
                }),
            }
        }),
{
    let asset_id = target.id;
    let total = target.target;
    let max = target.max;
    let ghost elig = eligible_records(*db, owner, asset_id, base_asset_id, exclude@);

    // Gather the candidate domain.
    let mut pool: Vec<CoinType> = Vec::new();
    let mut i: usize = 0;
    while i < db.coins.len()
        invariant
            0 <= i <= db.coins@.len(),
            pool@ == eligible_coin_records(db.coins@.take(i as int), owner, asset_id, exclude@),
        decreases db.coins@.len() - i,
    {
        let c = db.coins[i];
        let keep = c.owner == owner && c.asset_id == asset_id && !exclude.contains(
            &CoinId::Utxo(c.utxo_id),
        );
        proof {
            assert(db.coins@.take(i + 1).drop_last() =~= db.coins@.take(i as int));
            assert(db.coins@.take(i + 1).last() == c);
            assert(keep == eligible_coin(c, owner, asset_id, exclude@));
        }
        if keep {
            pool.push(CoinType::Coin(c));
        }
        i = i + 1;
    }
    proof {
        assert(db.coins@.take(db.coins@.len() as int) =~= db.coins@);
    }
    if asset_id == base_asset_id {
        let mut j: usize = 0;
        while j < db.messages.len()
            invariant
                0 <= j <= db.messages@.len(),
                pool@ == eligible_coin_records(db.coins@, owner, asset_id, exclude@)
                    + eligible_message_records(db.messages@.take(j as int), owner, exclude@),
            decreases db.messages@.len() - j,
        {
            let m = &db.messages[j];
            let keep = m.recipient == owner && !exclude.contains(&CoinId::Message(m.nonce));
            proof {
                assert(db.messages@.take(j + 1).drop_last() =~= db.messages@.take(j as int));
                assert(db.messages@.take(j + 1).last() == *m);
            }
            if keep {
                match m.as_message_coin() {
                    Some(mc) => {
                        pool.push(CoinType::MessageCoin(mc));
                    },
                    None => {
                        proof {
                            assert(!eligible_message(*m, owner, exclude@));
                        }
                    },
                }
            }
            j = j + 1;
        }
        proof {
            assert(db.messages@.take(db.messages@.len() as int) =~= db.messages@);
        }
    } else {
        proof {
            assert(pool@ + Seq::<CoinType>::empty() =~= pool@);
        }
    }
    proof {
        assert(pool@ == elig);
        lemma_eligible_records_props(*db, owner, asset_id, base_asset_id, exclude@);
        lemma_eligible_records_distinct(*db, owner, asset_id, base_asset_id, exclude@);
        lemma_sum_coin_amounts_bounds(pool@);
    }

    // Sample: draw without replacement until the target is covered or the
    // cap is reached.
    let mut selected: Vec<CoinType> = Vec::new();
    let mut sum: u128 = 0;
    while pool.len() > 0 && sum < total && selected.len() < max as usize
        invariant
            sum == sum_coin_amounts(selected@),
            sum_coin_amounts(selected@) + sum_coin_amounts(pool@) == sum_coin_amounts(elig),
            selected@.len() + pool@.len() == elig.len(),
            selected@.len() <= max as int,
            sum <= selected@.len() * (u64::MAX as int),
            0 <= sum_coin_amounts(pool@),
            forall|a: int|
                0 <= a < selected@.len() ==> eligible_record(
                    *db,
                    owner,
                    asset_id,
                    base_asset_id,
                    exclude@,
                    #[trigger] selected@[a],
                ),
            forall|a: int|
                0 <= a < pool@.len() ==> eligible_record(
                    *db,
                    owner,
                    asset_id,
                    base_asset_id,
                    exclude@,
                    #[trigger] pool@[a],
                ),
            distinct_record_ids(selected@),
            distinct_record_ids(pool@),
            forall|a: int, b: int|
                #![trigger selected@[a], pool@[b]]
                0 <= a < selected@.len() && 0 <= b < pool@.len() ==> selected@[a].spec_coin_id()
                    != pool@[b].spec_coin_id(),
        decreases pool@.len(),
    {
        let j = rng.next_below(pool.len());
        let ghost pool_old = pool@;
        let c = pool.swap_remove(j);
        proof {
            lemma_sum_coin_amounts_swap_remove(pool_old, j as int);
            lemma_sum_coin_amounts_push(selected@, c);
            lemma_sum_coin_amounts_bounds(pool@);
            assert(selected@.len() * (u64::MAX as int) + (u64::MAX as int) == (selected@.len()
                + 1) * (u64::MAX as int)) by (nonlinear_arith);
            assert((selected@.len() + 1) * (u64::MAX as int) <= 65536 * (u64::MAX as int))
                by (nonlinear_arith)
                requires
                    selected@.len() + 1 <= 65536,
            ;
            assert forall|a: int| 0 <= a < pool@.len() implies eligible_record(
                *db,
                owner,
                asset_id,
                base_asset_id,
                exclude@,
                #[trigger] pool@[a],
            ) by {
                if a == j && a < pool_old.len() - 1 {
                    assert(pool@[a] == pool_old.last());
                } else {
                    assert(pool@[a] == pool_old[a]);
                }
            }
        }
        let ghost selected_old = selected@;
        selected.push(c);
        sum = sum + c.amount() as u128;
        proof {
            assert forall|a: int, b: int|
                0 <= a < b < pool@.len() implies (#[trigger] pool@[a]).spec_coin_id() != (
            #[trigger] pool@[b]).spec_coin_id() by {
                if a == j && (j as int) < pool_old.len() - 1 {
                    assert(pool@[a] == pool_old.last());
                } else {
                    assert(pool@[a] == pool_old[a]);
                }
                if b == j && (j as int) < pool_old.len() - 1 {
                    assert(pool@[b] == pool_old.last());
                } else {
                    assert(pool@[b] == pool_old[b]);
                }
            }
            assert forall|a: int, b: int|
                #![trigger selected@[a], pool@[b]]
                0 <= a < selected@.len() && 0 <= b < pool@.len() implies selected@[a].spec_coin_id()
                != pool@[b].spec_coin_id() by {
                if b == j && (j as int) < pool_old.len() - 1 {
                    assert(pool@[b] == pool_old.last());
                } else {
                    assert(pool@[b] == pool_old[b]);
                }
                if a < selected_old.len() {
                    assert(selected@[a] == selected_old[a]);
                } else {
                    assert(selected@[a] == pool_old[j as int]);
                }
            }
            assert forall|a: int, b: int|
                0 <= a < b < selected@.len() implies (#[trigger] selected@[a]).spec_coin_id()
                != (#[trigger] selected@[b]).spec_coin_id() by {
                assert(selected@[a] == selected_old[a]);
                if b < selected_old.len() {
                    assert(selected@[b] == selected_old[b]);
                } else {
                    assert(selected@[b] == pool_old[j as int]);
                }
            }
        }
    }
    if sum < total {
        proof {
            lemma_sum_coin_amounts_bounds(selected@);
            if pool@.len() == 0 {
                assert(sum_coin_amounts(pool@) == 0);
                assert(sum_coin_amounts(elig) < total as int);
            } else {
                assert(selected@.len() == max as int);
                assert((max as int) < elig.len());
            }
        }
        return Err(
            CoinsQueryError::InsufficientCoins {
                asset_id,
                shortfall: total - sum,
            },
        );
    }

    // Improve: trade the weakest selected entry for an unselected candidate
    // while that keeps the target covered and lowers the overshoot.  The
    // attempt budget is proportional to the cap.
    let mut attempts: u16 = 0;
    let mut done = false;
    while !done && attempts < max && selected.len() > 0 && selected.len() < max as usize
        && pool.len() > 0
        invariant
            sum == sum_coin_amounts(selected@),
            sum >= total,
            sum_coin_amounts(selected@) + sum_coin_amounts(pool@) == sum_coin_amounts(elig),
            selected@.len() + pool@.len() == elig.len(),
            selected@.len() <= max as int,
            sum <= selected@.len() * (u64::MAX as int),
            forall|a: int|
                0 <= a < selected@.len() ==> eligible_record(
                    *db,
                    owner,
                    asset_id,
                    base_asset_id,
                    exclude@,
                    #[trigger] selected@[a],
                ),
            forall|a: int|
                0 <= a < pool@.len() ==> eligible_record(
                    *db,
                    owner,
                    asset_id,
                    base_asset_id,
                    exclude@,
                    #[trigger] pool@[a],
                ),
            distinct_record_ids(selected@),
            distinct_record_ids(pool@),
            forall|a: int, b: int|
                #![trigger selected@[a], pool@[b]]
                0 <= a < selected@.len() && 0 <= b < pool@.len() ==> selected@[a].spec_coin_id()
                    != pool@[b].spec_coin_id(),
        decreases max - attempts, (if done { 0int } else { 1int }),
    {
        // The weakest contribution currently selected.
        let mut w: usize = 0;
        let mut x: usize = 1;
        while x < selected.len()
            invariant
                0 <= w < selected@.len(),
                1 <= x <= selected@.len(),
                forall|y: int|
                    0 <= y < x ==> selected@[w as int].spec_amount() <= (
                    #[trigger] selected@[y]).spec_amount(),
            decreases selected@.len() - x,
        {
            if selected[x].amount() < selected[w].amount() {
                w = x;
            }
            x = x + 1;
        }
        let w_amt = selected[w].amount();
        proof {
            lemma_sum_coin_element_bound(selected@, w as int);
        }

        // The best replacement: the unselected candidate that lowers the
        // overshoot the most while keeping the target covered.
        let mut have_best = false;
        let mut best: usize = 0;
        let mut best_sum: u128 = sum;
        let mut p: usize = 0;
        while p < pool.len()
            invariant
                0 <= p <= pool@.len(),
                0 <= w < selected@.len(),
                w_amt == selected@[w as int].spec_amount(),
                sum == sum_coin_amounts(selected@),
                sum >= total,
                sum <= selected@.len() * (u64::MAX as int),
                selected@.len() <= max as int,
                w_amt as int <= sum as int,
                have_best ==> 0 <= best < pool@.len() && best_sum as int == sum as int
                    - w_amt as int + pool@[best as int].spec_amount() && best_sum >= total
                    && best_sum < sum,
                !have_best ==> best_sum == sum,
            decreases pool@.len() - p,
        {
            let cand = sum - w_amt as u128 + pool[p].amount() as u128;
            proof {
                assert(selected@.len() * (u64::MAX as int) <= 65535 * (u64::MAX as int))
                    by (nonlinear_arith)
                    requires
                        selected@.len() <= 65535,
                ;
            }
            if cand >= total && cand < best_sum {
                have_best = true;
                best = p;
                best_sum = cand;
            }
            p = p + 1;
        }
        if have_best {
            let ghost pool_old = pool@;
            let ghost selected_old = selected@;
            let u_rec = pool[best];
            let w_rec = selected.swap_remove(w);
            proof {
                lemma_sum_coin_amounts_swap_remove(selected_old, w as int);
                lemma_sum_coin_amounts_push(selected@, u_rec);
            }
            selected.push(u_rec);
            proof {
                lemma_sum_coin_amounts_swap_remove(pool_old, best as int);
                lemma_sum_coin_amounts_push(
                    pool_old.update(best as int, pool_old.last()).drop_last(),
                    w_rec,
                );
                assert forall|a: int| 0 <= a < selected@.len() implies eligible_record(
                    *db,
                    owner,
                    asset_id,
                    base_asset_id,
                    exclude@,
                    #[trigger] selected@[a],
                ) by {
                    if a == selected@.len() - 1 {
                    } else if a == w && a < selected_old.len() - 1 {
                        assert(selected@[a] == selected_old.last());
                    } else {
                        assert(selected@[a] == selected_old[a]);
                    }
                }
            }
            pool.swap_remove(best);
            pool.push(w_rec);
            sum = best_sum;
            proof {
                assert forall|a: int| 0 <= a < pool@.len() implies eligible_record(
                    *db,
                    owner,
                    asset_id,
                    base_asset_id,
                    exclude@,
                    #[trigger] pool@[a],
                ) by {
                    if a == pool@.len() - 1 {
                    } else if a == best && a < pool_old.len() - 1 {
                        assert(pool@[a] == pool_old.last());
                    } else {
                        assert(pool@[a] == pool_old[a]);
                    }
                }
                assert forall|a: int, b: int|
                    0 <= a < b < selected@.len() implies (#[trigger] selected@[a]).spec_coin_id()
                    != (#[trigger] selected@[b]).spec_coin_id() by {
                    if a == w && (w as int) < selected_old.len() - 1 {
                        assert(selected@[a] == selected_old.last());
                    } else {
                        assert(selected@[a] == selected_old[a]);
                    }
                    if b == selected@.len() - 1 {
                        assert(selected@[b] == pool_old[best as int]);
                    } else if b == w && (w as int) < selected_old.len() - 1 {
                        assert(selected@[b] == selected_old.last());
                    } else {
                        assert(selected@[b] == selected_old[b]);
                    }
                }
                assert forall|a: int, b: int|
                    0 <= a < b < pool@.len() implies (#[trigger] pool@[a]).spec_coin_id() != (
                #[trigger] pool@[b]).spec_coin_id() by {
                    if a == best && (best as int) < pool_old.len() - 1 {
                        assert(pool@[a] == pool_old.last());
                    } else {
                        assert(pool@[a] == pool_old[a]);
                    }
                    if b == pool@.len() - 1 {
                        assert(pool@[b] == selected_old[w as int]);
                    } else if b == best && (best as int) < pool_old.len() - 1 {
                        assert(pool@[b] == pool_old.last());
                    } else {
                        assert(pool@[b] == pool_old[b]);
                    }
                }
                assert forall|a: int, b: int|
                    #![trigger selected@[a], pool@[b]]
                    0 <= a < selected@.len() && 0 <= b < pool@.len()
                    implies selected@[a].spec_coin_id() != pool@[b].spec_coin_id() by {
                    if a == selected@.len() - 1 {
                        assert(selected@[a] == pool_old[best as int]);
                    } else if a == w && (w as int) < selected_old.len() - 1 {
                        assert(selected@[a] == selected_old.last());
                    } else {
                        assert(selected@[a] == selected_old[a]);
                    }
                    if b == pool@.len() - 1 {
                        assert(pool@[b] == selected_old[w as int]);
                    } else if b == best && (best as int) < pool_old.len() - 1 {
                        assert(pool@[b] == pool_old.last());
                    } else {
                        assert(pool@[b] == pool_old[b]);
                    }
                }
            }
            attempts = attempts + 1;
        } else {
            done = true;
        }
    }
    proof {
        lemma_sum_coin_amounts_bounds(pool@);
    }
    Ok(selected)
}

/// The fallback strategy: for each asset leg, in order, a randomized
/// sample-then-improve walk over the full owned-entry domain.  Repeated
/// identical queries may return different baskets; only the structural
/// guarantees of [`fallback_ok_outcome`] are promised.
pub fn random_improve(
    db: &ReadView,
    spend_query: &SpendQuery,
    rng: &mut XorShift64,
) -> (r: Result<Vec<Vec<CoinType>>, CoinsQueryError>)
    requires
        db.wf(),
    ensures
        match r {
            Ok(all) => fallback_ok_outcome(
                *db,
                spend_query.owner,
                spend_query.base_asset_id,
                spend_query.exclude@,
                spend_query.query_per_asset@,
                all@,
            ),
            Err(e) => fallback_err_outcome(
                *db,
                spend_query.owner,
                spend_query.base_asset_id,
                spend_query.exclude@,
                spend_query.query_per_asset@,
                e,
            ),
        },
{
    let mut all_coins: Vec<Vec<CoinType>> = Vec::new();
    let mut k: usize = 0;
    while k < spend_query.query_per_asset.len()
        invariant
            db.wf(),
            0 <= k <= spend_query.query_per_asset@.len(),
            all_coins@.len() == k,
            forall|kk: int|
                0 <= kk < k ==> fallback_per_asset_ok(
                    *db,
                    spend_query.owner,
                    spend_query.base_asset_id,
                    spend_query.exclude@,
                    spend_query.query_per_asset@[kk],
                    (#[trigger] all_coins@[kk])@,
                ),
            forall|kk: int|
                0 <= kk < k ==> sum_coin_amounts(
                    eligible_records(
                        *db,
                        spend_query.owner,
                        (#[trigger] spend_query.query_per_asset@[kk]).id,
                        spend_query.base_asset_id,
                        spend_query.exclude@,
                    ),
                ) >= spend_query.query_per_asset@[kk].target as int,
        decreases spend_query.query_per_asset@.len() - k,
    {
        let t = spend_query.query_per_asset[k];
        let coins_k = match select_asset_fallback(
            db,
            spend_query.owner,
            spend_query.base_asset_id,
            &spend_query.exclude,
            &t,
            rng,
        ) {
            Ok(v) => v,
            Err(e) => {
                return Err(e);
            },
        };
        all_coins.push(coins_k);
        k = k + 1;
    }
    Ok(all_coins)
}

/// Clamps one asset leg of the raw request to the query-wide ceiling.
pub open spec fn normalize_element(e: SpendQueryElementInput, max_input: u16) -> AssetSpendTarget {
    AssetSpendTarget { id: e.asset_id, target: e.amount, max: effective_cap(e, max_input) }
}

/// The normalized legs of the raw request, in request order.
pub open spec fn normalized_targets(
    q: Seq<SpendQueryElementInput>,
    max_input: u16,
) -> Seq<AssetSpendTarget> {
    q.map_values(|e: SpendQueryElementInput| normalize_element(e, max_input))
}

/// No asset id appears twice among the raw request legs.
pub open spec fn elements_duplicate_free(q: Seq<SpendQueryElementInput>) -> bool {
    forall|i: int, j: int| 0 <= i < j < q.len() ==> q[i].asset_id != q[j].asset_id
}

/// The fallback entry point: normalize the request legs, bundle them into a
/// [`SpendQuery`] (rejecting duplicate assets), and run the randomized walk.
pub fn coins_to_spend_without_cache(
    owner: Address,
    query_per_asset: &Vec<SpendQueryElementInput>,
    exclude: Exclude,
    max_input: u16,
    base_asset_id: &AssetId,
    db: &ReadView,
    rng: &mut XorShift64,
) -> (r: Result<Vec<Vec<CoinType>>, CoinsQueryError>)
    requires
        db.wf(),
    ensures
        match r {
            Ok(all) => elements_duplicate_free(query_per_asset@) && fallback_ok_outcome(
                *db,
                owner,
                *base_asset_id,
                exclude@,
                normalized_targets(query_per_asset@, max_input),
                all@,
            ),
            Err(e) => {
                ||| (exists|i: int, j: int|
                    0 <= i < j < query_per_asset@.len() && query_per_asset@[i].asset_id
                        == query_per_asset@[j].asset_id && e == CoinsQueryError::DuplicateAssets(
                        query_per_asset@[j].asset_id,
                    ))
                ||| fallback_err_outcome(
                    *db,
                    owner,
                    *base_asset_id,
                    exclude@,
                    normalized_targets(query_per_asset@, max_input),
                    e,
                )
            },
        },
{
    let mut targets: Vec<AssetSpendTarget> = Vec::new();
    let mut i: usize = 0;
    while i < query_per_asset.len()
        invariant
            0 <= i <= query_per_asset@.len(),
            targets@.len() == i,
            forall|k: int|
                0 <= k < i ==> targets@[k] == normalize_element(
                    query_per_asset@[k],
                    max_input,
                ),
        decreases query_per_asset@.len() - i,
    {
        let e = query_per_asset[i];
        let cap = match e.max {
            Some(m) => if m < max_input {
                m
            } else {
                max_input
            },
            None => max_input,
        };
        targets.push(AssetSpendTarget::new(e.asset_id, e.amount, cap));
        i = i + 1;
    }
    proof {
        assert(targets@ =~= normalized_targets(query_per_asset@, max_input));
    }
    let ghost gtargets = targets@;
    let spend_query = match SpendQuery::new(owner, targets, exclude, *base_asset_id) {
        Ok(q) => q,
        Err(e) => {
            proof {
                let (i0, j0) = choose|i0: int, j0: int|
                    0 <= i0 < j0 < gtargets.len() && gtargets[i0].id == gtargets[j0].id && e
                        == CoinsQueryError::DuplicateAssets(gtargets[j0].id);
                assert(query_per_asset@[i0].asset_id == query_per_asset@[j0].asset_id);
                assert(e == CoinsQueryError::DuplicateAssets(query_per_asset@[j0].asset_id));
            }
            return Err(e);
        },
    };
    let result = random_improve(db, &spend_query, rng);
    proof {
        assert(spend_query.query_per_asset@ == gtargets);
        assert forall|i0: int, j0: int|
            0 <= i0 < j0 < query_per_asset@.len() implies query_per_asset@[i0].asset_id
            != query_per_asset@[j0].asset_id by {
            assert(gtargets[i0].id == query_per_asset@[i0].asset_id);
            assert(gtargets[j0].id == query_per_asset@[j0].asset_id);
            assert(gtargets[i0].id != gtargets[j0].id);
        }
    }
    result
}

/// Indexed-path determinism: under a well-formed view, two record lists that
/// both resolve the same selected keys are identical, element for element.
/// Together with the exact selection contract of [`select_coins_to_spend`],
/// two calls against identical state and an identical query return identical
/// records in identical order.
pub proof fn lemma_indexed_path_deterministic(
    db: ReadView,
    sel: Seq<CoinsToSpendIndexKey>,
    r1: Seq<CoinType>,
    r2: Seq<CoinType>,
)
    requires
        db.wf(),
        r1.len() == sel.len(),
        r2.len() == sel.len(),
        forall|a: int| 0 <= a < sel.len() ==> record_matches_key(db, #[trigger] r1[a], sel[a]),
        forall|a: int| 0 <= a < sel.len() ==> record_matches_key(db, #[trigger] r2[a], sel[a]),
    ensures
        r1 == r2,
{
    assert forall|a: int| 0 <= a < sel.len() implies #[trigger] r1[a] == r2[a] by {
        lemma_resolution_functional(db, sel[a], r1[a], r2[a]);
    }
    assert(r1 =~= r2);
}

/// When the exclusion filter covers every owned entry of an asset, the
/// fallback candidate domain is empty, so a positive target always fails
/// with `InsufficientCoins` rather than succeeding with an empty basket.
pub proof fn lemma_eligible_records_all_excluded(
    db: ReadView,
    owner: Address,
    asset_id: AssetId,
    base_asset_id: AssetId,
    excluded: Seq<CoinId>,
)
    requires
        forall|k: int|
            0 <= k < db.coins@.len() ==> excluded.contains(
                CoinId::Utxo((#[trigger] db.coins@[k]).utxo_id),
            ),
        forall|k: int|
            0 <= k < db.messages@.len() ==> excluded.contains(
                CoinId::Message((#[trigger] db.messages@[k]).nonce),
            ),
    ensures
        eligible_records(db, owner, asset_id, base_asset_id, excluded) == Seq::<
            CoinType,
        >::empty(),
        sum_coin_amounts(eligible_records(db, owner, asset_id, base_asset_id, excluded)) == 0,
{
    let elig = eligible_records(db, owner, asset_id, base_asset_id, excluded);
    lemma_eligible_records_props(db, owner, asset_id, base_asset_id, excluded);
    if elig.len() > 0 {
        match elig[0] {
            CoinType::Coin(c) => {
                let k = choose|k: int| 0 <= k < db.coins@.len() && db.coins@[k] == c;
                assert(excluded.contains(CoinId::Utxo(db.coins@[k].utxo_id)));
                assert(false);
            },
            CoinType::MessageCoin(mc) => {
                let k = choose|k: int|
                    0 <= k < db.messages@.len() && eligible_message(
                        #[trigger] db.messages@[k],
                        owner,
                        excluded,
                    ) && db.messages@[k].spec_coin() == mc;
                assert(excluded.contains(CoinId::Message(db.messages@[k].nonce)));
                assert(false);
            },
        }
    }
    assert(elig =~= Seq::<CoinType>::empty());
}

/// No two keys point at the same ledger entry.
pub open spec fn distinct_key_ids(s: Seq<CoinsToSpendIndexKey>) -> bool {
    forall|a: int, b: int|
        0 <= a < b < s.len() ==> s[a].spec_coin_id() != s[b].spec_coin_id()
}

/// No two records resolve the same ledger entry.
pub open spec fn distinct_record_ids(s: Seq<CoinType>) -> bool {
    forall|a: int, b: int|
        0 <= a < b < s.len() ==> s[a].spec_coin_id() != s[b].spec_coin_id()
}

/// Grouping an index with pairwise distinct identifiers keeps them distinct.
pub proof fn lemma_index_group_distinct(
    keys: Seq<CoinsToSpendIndexKey>,
    owner: Address,
    asset_id: AssetId,
)
    requires
        distinct_key_ids(keys),
    ensures
        distinct_key_ids(index_group(keys, owner, asset_id)),
    decreases keys.len(),
{
    if keys.len() > 0 {
        assert forall|a: int, b: int|
            0 <= a < b < keys.drop_last().len() implies keys.drop_last()[a].spec_coin_id()
            != keys.drop_last()[b].spec_coin_id() by {
            assert(keys.drop_last()[a] == keys[a] && keys.drop_last()[b] == keys[b]);
        }
        lemma_index_group_distinct(keys.drop_last(), owner, asset_id);
        lemma_index_group_props(keys.drop_last(), owner, asset_id);
        let g = index_group(keys, owner, asset_id);
        let prefix = index_group(keys.drop_last(), owner, asset_id);
        assert forall|a: int, b: int|
            0 <= a < b < g.len() implies g[a].spec_coin_id() != g[b].spec_coin_id() by {
            if b < prefix.len() {
                assert(g[a] == prefix[a] && g[b] == prefix[b]);
            } else {
                assert(g[b] == keys.last());
                assert(g[a] == prefix[a]);
                let p = choose|p: int|
                    0 <= p < keys.drop_last().len() && keys.drop_last()[p] == prefix[a];
                assert(keys[p] == prefix[a]);
                assert(keys[p].spec_coin_id() != keys[keys.len() - 1].spec_coin_id());
            }
        }
    }
}

/// The greedy walk keeps distinct identifiers distinct.
pub proof fn lemma_indexed_selection_distinct(
    keys: Seq<CoinsToSpendIndexKey>,
    excluded: Seq<CoinId>,
    target: int,
    cap: int,
)
    requires
        distinct_key_ids(keys),
    ensures
        distinct_key_ids(indexed_selection(keys, excluded, target, cap)),
    decreases keys.len(),
{
    if target <= 0 || cap <= 0 || keys.len() == 0 {
    } else {
        assert forall|a: int, b: int|
            0 <= a < b < keys.drop_first().len() implies keys.drop_first()[a].spec_coin_id()
            != keys.drop_first()[b].spec_coin_id() by {
            assert(keys.drop_first()[a] == keys[a + 1] && keys.drop_first()[b] == keys[b + 1]);
        }
        let sel = indexed_selection(keys, excluded, target, cap);
        if excluded.contains(keys[0].spec_coin_id()) {
            lemma_indexed_selection_distinct(keys.drop_first(), excluded, target, cap);
        } else {
            let t2 = target - keys[0].spec_amount();
            lemma_indexed_selection_distinct(keys.drop_first(), excluded, t2, cap - 1);
            lemma_indexed_selection_props(keys.drop_first(), excluded, t2, cap - 1);
            let rest = indexed_selection(keys.drop_first(), excluded, t2, cap - 1);
            assert forall|a: int, b: int|
                0 <= a < b < sel.len() implies sel[a].spec_coin_id() != sel[b].spec_coin_id() by {
                if a == 0 {
                    assert(sel[0] == keys[0] && sel[b] == rest[b - 1]);
                    let p = choose|p: int|
                        0 <= p < keys.drop_first().len() && keys.drop_first()[p] == rest[b - 1];
                    assert(keys[p + 1] == rest[b - 1]);
                    assert(keys[0].spec_coin_id() != keys[p + 1].spec_coin_id());
                } else {
                    assert(sel[a] == rest[a - 1] && sel[b] == rest[b - 1]);
                }
            }
        }
    }
}

proof fn lemma_eligible_coin_records_distinct(
    coins: Seq<Coin>,
    owner: Address,
    asset_id: AssetId,
    excluded: Seq<CoinId>,
)
    requires
        forall|i: int, j: int| 0 <= i < j < coins.len() ==> coins[i].utxo_id != coins[j].utxo_id,
    ensures
        distinct_record_ids(eligible_coin_records(coins, owner, asset_id, excluded)),
    decreases coins.len(),
{
    if coins.len() > 0 {
        assert forall|i: int, j: int|
            0 <= i < j < coins.drop_last().len() implies coins.drop_last()[i].utxo_id
            != coins.drop_last()[j].utxo_id by {
            assert(coins.drop_last()[i] == coins[i] && coins.drop_last()[j] == coins[j]);
        }
        lemma_eligible_coin_records_distinct(coins.drop_last(), owner, asset_id, excluded);
        lemma_eligible_coin_records_props(coins.drop_last(), owner, asset_id, excluded);
        let part = eligible_coin_records(coins, owner, asset_id, excluded);
        let prefix = eligible_coin_records(coins.drop_last(), owner, asset_id, excluded);
        assert forall|a: int, b: int|
            0 <= a < b < part.len() implies part[a].spec_coin_id() != part[b].spec_coin_id() by {
            if b < prefix.len() {
                assert(part[a] == prefix[a] && part[b] == prefix[b]);
            } else {
                assert(part[b] == CoinType::Coin(coins.last()));
                assert(part[a] == prefix[a]);
                match prefix[a] {
                    CoinType::Coin(c) => {
                        let p = choose|p: int|
                            0 <= p < coins.drop_last().len() && coins.drop_last()[p] == c;
                        assert(coins[p] == c);
                        assert(coins[p].utxo_id != coins[coins.len() - 1].utxo_id);
                    },
                    CoinType::MessageCoin(_) => {},
                }
            }
        }
    }
}

proof fn lemma_eligible_message_records_distinct(
    messages: Seq<Message>,
    owner: Address,
    excluded: Seq<CoinId>,
)
    requires
        forall|i: int, j: int|
            0 <= i < j < messages.len() ==> messages[i].nonce != messages[j].nonce,
    ensures
        distinct_record_ids(eligible_message_records(messages, owner, excluded)),
    decreases messages.len(),
{
    if messages.len() > 0 {
        assert forall|i: int, j: int|
            0 <= i < j < messages.drop_last().len() implies messages.drop_last()[i].nonce
            != messages.drop_last()[j].nonce by {
            assert(messages.drop_last()[i] == messages[i] && messages.drop_last()[j]
                == messages[j]);
        }
        lemma_eligible_message_records_distinct(messages.drop_last(), owner, excluded);
        lemma_eligible_message_records_props(messages.drop_last(), owner, excluded);
        let part = eligible_message_records(messages, owner, excluded);
        let prefix = eligible_message_records(messages.drop_last(), owner, excluded);
        assert forall|a: int, b: int|
            0 <= a < b < part.len() implies part[a].spec_coin_id() != part[b].spec_coin_id() by {
            if b < prefix.len() {
                assert(part[a] == prefix[a] && part[b] == prefix[b]);
            } else {
                assert(part[b] == CoinType::MessageCoin(messages.last().spec_coin()));
                assert(part[a] == prefix[a]);
                match prefix[a] {
                    CoinType::MessageCoin(mc) => {
                        let p = choose|p: int|
                            0 <= p < messages.drop_last().len() && eligible_message(
                                #[trigger] messages.drop_last()[p],
                                owner,
                                excluded,
                            ) && messages.drop_last()[p].spec_coin() == mc;
                        assert(messages[p] == messages.drop_last()[p]);
                        assert(messages[p].nonce != messages[messages.len() - 1].nonce);
                    },
                    CoinType::Coin(_) => {},
                }
            }
        }
    }
}

/// Under a well-formed view, the fallback candidate domain names each ledger
/// entry at most once.
pub proof fn lemma_eligible_records_distinct(
    db: ReadView,
    owner: Address,
    asset_id: AssetId,
    base_asset_id: AssetId,
    excluded: Seq<CoinId>,
)
    requires
        db.wf(),
    ensures
        distinct_record_ids(eligible_records(db, owner, asset_id, base_asset_id, excluded)),
{
    let elig = eligible_records(db, owner, asset_id, base_asset_id, excluded);
    let coin_part = eligible_coin_records(db.coins@, owner, asset_id, excluded);
    lemma_eligible_coin_records_distinct(db.coins@, owner, asset_id, excluded);
    lemma_eligible_message_records_distinct(db.messages@, owner, excluded);
    lemma_eligible_coin_records_props(db.coins@, owner, asset_id, excluded);
    lemma_eligible_message_records_props(db.messages@, owner, excluded);
    assert forall|a: int, b: int|
        0 <= a < b < elig.len() implies elig[a].spec_coin_id() != elig[b].spec_coin_id() by {
        if b < coin_part.len() {
            assert(elig[a] == coin_part[a] && elig[b] == coin_part[b]);
        } else if a >= coin_part.len() {
            let msg_part = eligible_message_records(db.messages@, owner, excluded);
            assert(elig[a] == msg_part[a - coin_part.len()] && elig[b] == msg_part[b
                - coin_part.len()]);
        } else {
            let msg_part = eligible_message_records(db.messages@, owner, excluded);
            assert(elig[a] == coin_part[a] && elig[b] == msg_part[b - coin_part.len()]);
        }
    }
}

} // verus!
