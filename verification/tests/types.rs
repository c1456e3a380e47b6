use coin_select::asset_query::{AssetSpendTarget, Exclude, SpendQuery};
use coin_select::coins::{Coin, CoinQuery, CoinType, Message, MessageCoin};
use coin_select::coins_query::CoinsQueryError;
use coin_select::graphql_api::{
    BlockImporterAdapter, GraphQLBlockImporter, ImportResultProvider,
};
use coin_select::ids::{txn_id, Address, AssetId, Bytes32, CoinId, Nonce, UtxoId};
use coin_select::read_view::{into_coin_id, CoinsToSpendIndexKey, ReadView};
use coin_select::rng::XorShift64;

fn addr(i: u8) -> Address {
    Address::new([i; 32])
}

fn asset(i: u8) -> AssetId {
    AssetId::new([i; 32])
}

fn nonce(i: u8) -> Nonce {
    Nonce::new([i; 32])
}

fn utxo(i: u8, idx: u16) -> UtxoId {
    UtxoId::new(Bytes32::new([i; 32]), idx)
}

fn coin_key_for(i: u8, owner: Address, amount: u64, asset_id: AssetId) -> CoinsToSpendIndexKey {
    CoinsToSpendIndexKey::Coin { owner, asset_id, amount, utxo_id: utxo(i, 0) }
}

fn coin(i: u8, owner: Address, amount: u64, asset_id: AssetId) -> Coin {
    Coin {
        utxo_id: utxo(i, 0),
        owner,
        amount,
        asset_id,
        tx_pointer_block_height: 11,
        tx_pointer_tx_index: 2,
    }
}

#[test]
fn txn_id_repeats_one_byte() {
    let id = txn_id(33);
    assert_eq!(id.0, [33u8; 32]);
    assert!(txn_id(20) == txn_id(20));
    assert!(txn_id(20) != txn_id(24));
}

#[test]
fn id_equality_is_by_value() {
    assert!(addr(1) == addr(1));
    assert!(addr(1) != addr(2));
    assert!(utxo(1, 0) == utxo(1, 0));
    assert!(utxo(1, 0) != utxo(1, 1));
    assert!(CoinId::Utxo(utxo(1, 0)) != CoinId::Message(nonce(1)));
    assert!(CoinId::Message(nonce(1)) == CoinId::Message(nonce(1)));
}

#[test]
fn coin_accessors_report_fields() {
    let c = coin(6, addr(1), 42, asset(9));
    assert!(c.utxo_id() == utxo(6, 0));
    assert!(c.owner() == addr(1));
    assert_eq!(c.amount(), 42);
    assert!(c.asset_id() == asset(9));
    assert_eq!(c.block_created(), 11);
    assert_eq!(c.tx_created_idx(), 2);
}

#[test]
fn message_coin_accessors_report_fields() {
    let mc = MessageCoin {
        sender: addr(3),
        recipient: addr(4),
        nonce: nonce(5),
        amount: 9,
        da_height: 77,
    };
    assert!(mc.sender() == addr(3));
    assert!(mc.recipient() == addr(4));
    assert!(mc.nonce() == nonce(5));
    assert_eq!(mc.amount(), 9);
    assert_eq!(mc.da_height(), 77);
    assert!(mc.asset_id(&asset(0)) == asset(0));
}

#[test]
fn message_converts_only_without_data() {
    let spendable = Message {
        sender: addr(3),
        recipient: addr(4),
        nonce: nonce(5),
        amount: 9,
        da_height: 77,
        data: Vec::new(),
    };
    let mc = spendable.as_message_coin().unwrap();
    assert_eq!(mc.amount(), 9);
    let retryable = Message { data: vec![0], ..spendable };
    assert!(retryable.as_message_coin().is_none());
}

#[test]
fn coin_type_amount_and_id() {
    let c = CoinType::Coin(coin(6, addr(1), 42, asset(9)));
    assert_eq!(c.amount(), 42);
    assert!(c.coin_id() == CoinId::Utxo(utxo(6, 0)));
    let m = CoinType::MessageCoin(MessageCoin {
        sender: addr(3),
        recipient: addr(4),
        nonce: nonce(5),
        amount: 9,
        da_height: 77,
    });
    assert_eq!(m.amount(), 9);
    assert!(m.coin_id() == CoinId::Message(nonce(5)));
}

#[test]
fn index_keys_map_to_coin_ids() {
    let keys = vec![
        CoinsToSpendIndexKey::Coin {
            owner: addr(1),
            asset_id: asset(9),
            amount: 5,
            utxo_id: utxo(3, 0),
        },
        CoinsToSpendIndexKey::Message {
            owner: addr(1),
            asset_id: asset(0),
            amount: 7,
            nonce: nonce(4),
        },
    ];
    let ids = into_coin_id(&keys);
    assert_eq!(ids.len(), 2);
    assert!(ids[0] == CoinId::Utxo(utxo(3, 0)));
    assert!(ids[1] == CoinId::Message(nonce(4)));
}

#[test]
fn spend_query_rejects_duplicate_assets() {
    let targets = vec![
        AssetSpendTarget::new(asset(9), 10, 2),
        AssetSpendTarget::new(asset(9), 5, 2),
    ];
    let err = SpendQuery::new(addr(1), targets, Exclude::new(Vec::new()), asset(0))
        .err()
        .unwrap();
    match err {
        CoinsQueryError::DuplicateAssets(a) => assert!(a == asset(9)),
        _ => panic!("expected DuplicateAssets"),
    }
}

#[test]
fn spend_query_keeps_its_parts() {
    let targets = vec![AssetSpendTarget::new(asset(9), 10, 2)];
    let q = SpendQuery::new(addr(1), targets, Exclude::new(Vec::new()), asset(0)).unwrap();
    assert!(q.owner() == addr(1));
    assert_eq!(q.assets().len(), 1);
    assert!(q.assets()[0].id == asset(9));
    assert_eq!(q.assets()[0].target, 10);
    assert_eq!(q.assets()[0].max, 2);
    assert!(q.base_asset_id() == asset(0));
    assert_eq!(q.exclude().coin_ids.len(), 0);
}

#[test]
fn coin_lookup_finds_by_utxo_id() {
    let view = ReadView {
        coins: vec![coin(3, addr(1), 5, asset(9)), coin(4, addr(1), 10, asset(9))],
        messages: Vec::new(),
        coins_to_spend_index: Vec::new(),
        indexation_available: false,
    };
    let query = CoinQuery {};
    let found = query.coin(&view, utxo(4, 0)).unwrap();
    assert_eq!(found.amount(), 10);
    assert!(query.coin(&view, utxo(9, 0)).is_none());
}

#[test]
fn coins_lists_owned_entries_with_optional_asset_filter() {
    let view = ReadView {
        coins: vec![
            coin(3, addr(1), 5, asset(9)),
            coin(4, addr(2), 10, asset(9)),
            coin(5, addr(1), 20, asset(8)),
        ],
        messages: Vec::new(),
        coins_to_spend_index: Vec::new(),
        indexation_available: false,
    };
    let query = CoinQuery {};
    let all = query.coins(&view, addr(1), None);
    assert_eq!(all.len(), 2);
    let only_nine = query.coins(&view, addr(1), Some(asset(9)));
    assert_eq!(only_nine.len(), 1);
    assert_eq!(only_nine[0].amount(), 5);
}

#[test]
fn generator_draws_below_bound() {
    let mut rng = XorShift64::new(0);
    assert_ne!(rng.state, 0);
    for _ in 0..50 {
        let d = rng.next_below(7);
        assert!(d < 7);
    }
    let mut a = XorShift64::new(42);
    let mut b = XorShift64::new(42);
    assert_eq!(a.next_u64(), b.next_u64());
}

#[test]
fn block_importer_pairs_its_handles() {
    let importer =
        GraphQLBlockImporter::new(BlockImporterAdapter {}, ImportResultProvider {});
    let _again = importer.clone();
    let _ = importer.block_importer_adapter;
    let _ = importer.import_result_provider_adapter;
}

#[test]
fn default_coin_query_is_usable() {
    let query = CoinQuery::default();
    let view = ReadView {
        coins: Vec::new(),
        messages: Vec::new(),
        coins_to_spend_index: Vec::new(),
        indexation_available: true,
    };
    assert!(query.coin(&view, utxo(1, 0)).is_none());
}

#[test]
fn check_wf_accepts_sorted_consistent_views() {
    let owner = addr(1);
    let x = asset(9);
    let view = ReadView {
        coins: vec![coin(3, owner, 5, x), coin(4, owner, 10, x)],
        messages: vec![Message {
            sender: addr(8),
            recipient: owner,
            nonce: nonce(2),
            amount: 50,
            da_height: 4,
            data: Vec::new(),
        }],
        coins_to_spend_index: vec![
            coin_key_for(4, owner, 10, x),
            coin_key_for(3, owner, 5, x),
        ],
        indexation_available: true,
    };
    assert!(view.check_wf());
}

#[test]
fn check_wf_rejects_an_unsorted_group() {
    let owner = addr(1);
    let x = asset(9);
    let view = ReadView {
        coins: vec![coin(3, owner, 5, x), coin(4, owner, 10, x)],
        messages: Vec::new(),
        coins_to_spend_index: vec![
            coin_key_for(3, owner, 5, x),
            coin_key_for(4, owner, 10, x),
        ],
        indexation_available: true,
    };
    assert!(!view.check_wf());
}

#[test]
fn check_wf_rejects_an_index_that_misreports_an_amount() {
    let owner = addr(1);
    let x = asset(9);
    let view = ReadView {
        coins: vec![coin(3, owner, 5, x)],
        messages: Vec::new(),
        coins_to_spend_index: vec![coin_key_for(3, owner, 6, x)],
        indexation_available: true,
    };
    assert!(!view.check_wf());
}

#[test]
fn check_wf_rejects_duplicate_coins() {
    let owner = addr(1);
    let x = asset(9);
    let view = ReadView {
        coins: vec![coin(3, owner, 5, x), coin(3, owner, 5, x)],
        messages: Vec::new(),
        coins_to_spend_index: Vec::new(),
        indexation_available: false,
    };
    assert!(!view.check_wf());
}
