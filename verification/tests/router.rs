use eris::router::create_key_for_assets;
use eris::router::PairInfo;
use eris::router::SwapOperation;
use eris::text::is_less;

#[test]
fn a_swap_names_its_source_and_target() {
    let op = SwapOperation::Swap {
        offer_asset_info: "ukrw".to_string(),
        ask_asset_info: "asset0001".to_string(),
    };
    assert_eq!(op.get_source_asset_info(), "ukrw");
    assert_eq!(op.get_target_asset_info(), "asset0001");
    assert_eq!(op.clone(), op);
}

#[test]
fn the_pair_key_puts_the_smaller_denom_first() {
    let key = create_key_for_assets(&["from1".to_string(), "to1".to_string()]);
    assert_eq!(key, "from1to1");
    let key = create_key_for_assets(&["to1".to_string(), "from1".to_string()]);
    assert_eq!(key, "from1to1");
    let key = create_key_for_assets(&["to2".to_string(), "to1".to_string()]);
    assert_eq!(key, "to1to2");
    let key = create_key_for_assets(&["same".to_string(), "same".to_string()]);
    assert_eq!(key, "samesame");
    let pair = PairInfo {
        asset_infos: ["to1".to_string(), "from1".to_string()],
        contract_addr: "pair1".to_string(),
    };
    assert_eq!(pair.create_key(), "from1to1");
}

#[test]
fn strings_are_ordered_byte_by_byte() {
    let words = ["", "a", "ab", "abc", "abd", "b", "ukuji", "ukujira", "Z", "é", "zz"];
    for a in words {
        for b in words {
            assert_eq!(is_less(a, b), a < b, "{:?} < {:?}", a, b);
        }
    }
}
