use coin_select::asset_query::Exclude;
use coin_select::coins::{CoinQuery, CoinType, ExcludeInput, Message, SpendQueryElementInput};
use coin_select::coins::Coin;
use coin_select::coins_query::CoinsQueryError;
use coin_select::ids::{Address, AssetId, Bytes32, CoinId, Nonce, UtxoId};
use coin_select::read_view::{CoinsToSpendIndexKey, ReadView};
use coin_select::rng::XorShift64;

fn addr(i: u8) -> Address {
    Address::new([i; 32])
}

fn asset(i: u8) -> AssetId {
    AssetId::new([i; 32])
}

fn nonce(i: u8) -> Nonce {
    Nonce::new([i; 32])
}

fn utxo(i: u8, idx: u16) -> UtxoId {
    UtxoId::new(Bytes32::new([i; 32]), idx)
}

fn coin(i: u8, owner: Address, amount: u64, asset_id: AssetId) -> Coin {
    Coin {
        utxo_id: utxo(i, 0),
        owner,
        amount,
        asset_id,
        tx_pointer_block_height: 1,
        tx_pointer_tx_index: 0,
    }
}

fn coin_key(i: u8, owner: Address, amount: u64, asset_id: AssetId) -> CoinsToSpendIndexKey {
    CoinsToSpendIndexKey::Coin { owner, asset_id, amount, utxo_id: utxo(i, 0) }
}

/// Owner holds asset X entries with amounts [5, 10, 20]; the index walks
/// them descending.
fn holdings_view(indexed: bool) -> ReadView {
    let owner = addr(1);
    let x = asset(9);
    ReadView {
        coins: vec![
            coin(3, owner, 5, x),
            coin(4, owner, 10, x),
            coin(5, owner, 20, x),
        ],
        messages: Vec::new(),
        coins_to_spend_index: vec![
            coin_key(5, owner, 20, x),
            coin_key(4, owner, 10, x),
            coin_key(3, owner, 5, x),
        ],
        indexation_available: indexed,
    }
}

fn leg(asset_id: AssetId, amount: u128, max: Option<u16>) -> SpendQueryElementInput {
    SpendQueryElementInput { asset_id, amount, max }
}

fn run(
    view: &ReadView,
    legs: Vec<SpendQueryElementInput>,
    excluded: Option<ExcludeInput>,
    max_input: u16,
    seed: u64,
) -> Result<Vec<Vec<CoinType>>, CoinsQueryError> {
    let mut rng = XorShift64::new(seed);
    let query = CoinQuery {};
    query.coins_to_spend(view, addr(1), legs, excluded, max_input, asset(0), &mut rng)
}

fn amounts(selection: &[CoinType]) -> Vec<u64> {
    let mut out = Vec::new();
    for c in selection {
        out.push(c.amount());
    }
    out
}

#[test]
fn indexed_descending_takes_largest_first() {
    // target 12, cap 2: a single entry of 20 already covers the target.
    let view = holdings_view(true);
    let result = run(&view, vec![leg(asset(9), 12, Some(2))], None, 255, 7).unwrap();
    assert_eq!(result.len(), 1);
    assert_eq!(amounts(&result[0]), vec![20]);
}

#[test]
fn indexed_cap_reached_with_shortfall_fails() {
    // target 40, cap 2: [20, 10] reaches the cap with 30 < 40.
    let view = holdings_view(true);
    let err = run(&view, vec![leg(asset(9), 40, Some(2))], None, 255, 7).unwrap_err();
    match err {
        CoinsQueryError::InsufficientCoins { asset_id, shortfall } => {
            assert!(asset_id == asset(9));
            assert_eq!(shortfall, 10);
        },
        _ => panic!("expected InsufficientCoins"),
    }
}

#[test]
fn indexed_path_is_deterministic() {
    let view = holdings_view(true);
    let first = run(&view, vec![leg(asset(9), 14, Some(3))], None, 255, 1).unwrap();
    let second = run(&view, vec![leg(asset(9), 14, Some(3))], None, 255, 99).unwrap();
    assert_eq!(first.len(), second.len());
    for (a, b) in first.iter().zip(second.iter()) {
        assert_eq!(amounts(a), amounts(b));
        let ids_a: Vec<CoinId> = a.iter().map(|c| c.coin_id()).collect();
        let ids_b: Vec<CoinId> = b.iter().map(|c| c.coin_id()).collect();
        assert!(ids_a == ids_b);
    }
}

#[test]
fn duplicate_assets_always_fail() {
    for indexed in [false, true] {
        let view = holdings_view(indexed);
        let legs = vec![leg(asset(9), 1, None), leg(asset(9), 2, None)];
        let err = run(&view, legs, None, 255, 3).unwrap_err();
        match err {
            CoinsQueryError::DuplicateAssets(a) => assert!(a == asset(9)),
            _ => panic!("expected DuplicateAssets"),
        }
    }
}

#[test]
fn too_many_excluded_ids_fails_before_selection() {
    for indexed in [false, true] {
        let view = holdings_view(indexed);
        let excluded = ExcludeInput {
            utxos: vec![utxo(1, 0), utxo(2, 0)],
            messages: vec![nonce(7)],
        };
        let err = run(&view, vec![leg(asset(9), 1, None)], Some(excluded), 2, 3).unwrap_err();
        match err {
            CoinsQueryError::TooManyExcludedId { provided, allowed } => {
                assert_eq!(provided, 3);
                assert_eq!(allowed, 2);
            },
            _ => panic!("expected TooManyExcludedId"),
        }
    }
}

#[test]
fn exclusion_filter_is_respected() {
    let view = holdings_view(true);
    let excluded = ExcludeInput { utxos: vec![utxo(5, 0)], messages: Vec::new() };
    // With the 20-coin excluded, covering 12 takes [10, 5].
    let result = run(&view, vec![leg(asset(9), 12, Some(3))], Some(excluded), 255, 3).unwrap();
    assert_eq!(amounts(&result[0]), vec![10, 5]);
}

#[test]
fn exhausted_domain_fails_not_empty_success() {
    // Excluding every entry of the asset must yield InsufficientCoins on
    // both strategies, never an empty success.
    for indexed in [false, true] {
        let view = holdings_view(indexed);
        let excluded = ExcludeInput {
            utxos: vec![utxo(3, 0), utxo(4, 0), utxo(5, 0)],
            messages: Vec::new(),
        };
        let err =
            run(&view, vec![leg(asset(9), 1, Some(3))], Some(excluded), 255, 11).unwrap_err();
        match err {
            CoinsQueryError::InsufficientCoins { asset_id, shortfall } => {
                assert!(asset_id == asset(9));
                assert_eq!(shortfall, 1);
            },
            _ => panic!("expected InsufficientCoins"),
        }
    }
}

#[test]
fn fallback_satisfies_structural_invariants_across_seeds() {
    // Holdings [5, 10, 20], target 12, cap 3, 100 distinct seeds: every run
    // covers the target within the cap, and the runs do not all pick the
    // same subset.
    let view = holdings_view(false);
    let mut seen: Vec<Vec<u64>> = Vec::new();
    for seed in 1..=100u64 {
        let result = run(&view, vec![leg(asset(9), 12, Some(3))], None, 255, seed).unwrap();
        assert_eq!(result.len(), 1);
        let picked = amounts(&result[0]);
        let total: u128 = picked.iter().map(|a| *a as u128).sum();
        assert!(total >= 12);
        assert!(picked.len() <= 3);
        let ids: Vec<CoinId> = result[0].iter().map(|c| c.coin_id()).collect();
        for a in 0..ids.len() {
            for b in (a + 1)..ids.len() {
                assert!(ids[a] != ids[b], "one entry selected twice");
            }
        }
        let mut sorted = picked.clone();
        sorted.sort();
        if !seen.contains(&sorted) {
            seen.push(sorted);
        }
    }
    assert!(seen.len() > 1, "all 100 runs selected the same subset");
}

#[test]
fn fallback_never_selects_excluded_entries() {
    let view = holdings_view(false);
    let excluded = ExcludeInput { utxos: vec![utxo(5, 0)], messages: Vec::new() };
    for seed in 1..=20u64 {
        let result =
            run(&view, vec![leg(asset(9), 12, Some(3))], Some(excluded.clone()), 255, seed)
                .unwrap();
        for c in &result[0] {
            assert!(c.coin_id() != CoinId::Utxo(utxo(5, 0)));
        }
        let total: u128 = result[0].iter().map(|c| c.amount() as u128).sum();
        assert!(total >= 12);
    }
}

#[test]
fn zero_target_selects_nothing_on_the_index() {
    let view = holdings_view(true);
    let result = run(&view, vec![leg(asset(9), 0, Some(2))], None, 255, 3).unwrap();
    assert_eq!(result[0].len(), 0);
}

#[test]
fn result_order_mirrors_request_order() {
    let owner = addr(1);
    let x = asset(9);
    let y = asset(10);
    let view = ReadView {
        coins: vec![coin(3, owner, 5, x), coin(4, owner, 7, y)],
        messages: Vec::new(),
        coins_to_spend_index: vec![coin_key(3, owner, 5, x), coin_key(4, owner, 7, y)],
        indexation_available: true,
    };
    let legs = vec![leg(y, 6, None), leg(x, 4, None)];
    let result = run(&view, legs, None, 255, 3).unwrap();
    assert_eq!(result.len(), 2);
    assert_eq!(amounts(&result[0]), vec![7]);
    assert_eq!(amounts(&result[1]), vec![5]);
}

#[test]
fn bridged_entries_fund_the_base_asset() {
    let owner = addr(1);
    let base = asset(0);
    let view = ReadView {
        coins: Vec::new(),
        messages: vec![Message {
            sender: addr(8),
            recipient: owner,
            nonce: nonce(2),
            amount: 50,
            da_height: 4,
            data: Vec::new(),
        }],
        coins_to_spend_index: vec![CoinsToSpendIndexKey::Message {
            owner,
            asset_id: base,
            amount: 50,
            nonce: nonce(2),
        }],
        indexation_available: true,
    };
    let result = run(&view, vec![leg(base, 30, None)], None, 255, 3).unwrap();
    assert_eq!(result[0].len(), 1);
    match &result[0][0] {
        CoinType::MessageCoin(mc) => {
            assert_eq!(mc.amount(), 50);
            assert!(mc.nonce() == nonce(2));
            assert_eq!(mc.da_height(), 4);
            assert!(mc.asset_id(&base) == base);
        },
        _ => panic!("expected a bridged coin"),
    }

    // The fallback walk reaches the same entry without the index.
    let view2 = ReadView { indexation_available: false, ..view };
    let result2 = run(&view2, vec![leg(base, 30, None)], None, 255, 3).unwrap();
    assert_eq!(amounts(&result2[0]), vec![50]);
}

#[test]
fn stale_index_key_surfaces_not_found() {
    // The index references a coin the view no longer holds.
    let owner = addr(1);
    let x = asset(9);
    let view = ReadView {
        coins: Vec::new(),
        messages: Vec::new(),
        coins_to_spend_index: vec![coin_key(5, owner, 20, x)],
        indexation_available: true,
    };
    let err = run(&view, vec![leg(x, 10, None)], None, 255, 3).unwrap_err();
    match err {
        CoinsQueryError::CoinNotFound(id) => assert!(id == utxo(5, 0)),
        _ => panic!("expected CoinNotFound"),
    }
}

#[test]
fn unspendable_bridged_entry_surfaces_conversion_error() {
    let owner = addr(1);
    let base = asset(0);
    let view = ReadView {
        coins: Vec::new(),
        messages: vec![Message {
            sender: addr(8),
            recipient: owner,
            nonce: nonce(2),
            amount: 50,
            da_height: 4,
            data: vec![1, 2, 3],
        }],
        coins_to_spend_index: vec![CoinsToSpendIndexKey::Message {
            owner,
            asset_id: base,
            amount: 50,
            nonce: nonce(2),
        }],
        indexation_available: true,
    };
    let err = run(&view, vec![leg(base, 30, None)], None, 255, 3).unwrap_err();
    match err {
        CoinsQueryError::MessageNotSpendable(n) => assert!(n == nonce(2)),
        _ => panic!("expected MessageNotSpendable"),
    }
}

#[test]
fn requested_cap_is_clamped_to_the_ceiling() {
    // cap Some(50) with ceiling 1: only one entry may be used, so covering
    // 25 needs two entries and fails with the shortfall after [20].
    let view = holdings_view(true);
    let err = run(&view, vec![leg(asset(9), 25, Some(50))], None, 1, 3).unwrap_err();
    match err {
        CoinsQueryError::InsufficientCoins { shortfall, .. } => assert_eq!(shortfall, 5),
        _ => panic!("expected InsufficientCoins"),
    }
}

#[test]
fn exclude_membership() {
    let ids = vec![CoinId::Utxo(utxo(1, 0)), CoinId::Message(nonce(3))];
    let exclude = Exclude::new(ids);
    assert!(exclude.contains(&CoinId::Utxo(utxo(1, 0))));
    assert!(exclude.contains(&CoinId::Message(nonce(3))));
    assert!(!exclude.contains(&CoinId::Utxo(utxo(1, 1))));
    assert!(!exclude.contains(&CoinId::Message(nonce(4))));
}

#[test]
fn exclude_from_input_collects_both_lists() {
    let input = ExcludeInput { utxos: vec![utxo(1, 0)], messages: vec![nonce(2)] };
    let exclude = Exclude::from_input(Some(input));
    assert!(exclude.contains(&CoinId::Utxo(utxo(1, 0))));
    assert!(exclude.contains(&CoinId::Message(nonce(2))));
    let empty = Exclude::from_input(None);
    assert!(!empty.contains(&CoinId::Utxo(utxo(1, 0))));
}

#[test]
fn stale_message_key_surfaces_not_found() {
    let owner = addr(1);
    let base = asset(0);
    let view = ReadView {
        coins: Vec::new(),
        messages: Vec::new(),
        coins_to_spend_index: vec![CoinsToSpendIndexKey::Message {
            owner,
            asset_id: base,
            amount: 50,
            nonce: nonce(2),
        }],
        indexation_available: true,
    };
    let err = run(&view, vec![leg(base, 30, None)], None, 255, 3).unwrap_err();
    match err {
        CoinsQueryError::MessageNotFound(n) => assert!(n == nonce(2)),
        _ => panic!("expected MessageNotFound"),
    }
}
