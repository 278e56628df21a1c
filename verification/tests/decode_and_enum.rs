use steamworks::Inventory;
use steamworks::SteamError;
use steamworks::SteamItem;
use steamworks::SteamPurchase;
use steamworks::error::error_from_code;
use steamworks::wire::decode_purchase_result;

fn payload(code: u32, order_id: u64, transaction_id: u64) -> Vec<u8> {
    let mut b: Vec<u8> = Vec::new();
    b.extend_from_slice(&code.to_le_bytes());
    b.extend_from_slice(&order_id.to_le_bytes());
    b.extend_from_slice(&transaction_id.to_le_bytes());
    b
}

#[test]
fn decode_success_copies_fields_verbatim() {
    let b = payload(1, 42, 99);
    assert_eq!(
        decode_purchase_result(&b),
        Ok(SteamPurchase { order_id: 42, transaction_id: 99 })
    );
}

#[test]
fn decode_success_with_large_fields() {
    let b = payload(1, u64::MAX, 0x0123_4567_89AB_CDEF);
    assert_eq!(
        decode_purchase_result(&b),
        Ok(SteamPurchase { order_id: u64::MAX, transaction_id: 0x0123_4567_89AB_CDEF })
    );
}

#[test]
fn decode_nonsuccess_maps_code_regardless_of_fields() {
    let b = payload(3, 42, 99);
    assert_eq!(decode_purchase_result(&b), Err(SteamError::NoConnection));
}

#[test]
fn decode_mapping_table() {
    assert_eq!(decode_purchase_result(&payload(8, 0, 0)), Err(SteamError::InvalidParam));
    assert_eq!(decode_purchase_result(&payload(10, 0, 0)), Err(SteamError::Busy));
    assert_eq!(decode_purchase_result(&payload(15, 0, 0)), Err(SteamError::AccessDenied));
    assert_eq!(decode_purchase_result(&payload(25, 0, 0)), Err(SteamError::LimitExceeded));
    assert_eq!(decode_purchase_result(&payload(84, 0, 0)), Err(SteamError::RateLimitExceeded));
    assert_eq!(decode_purchase_result(&payload(2, 0, 0)), Err(SteamError::Generic));
    assert_eq!(decode_purchase_result(&payload(7777, 0, 0)), Err(SteamError::Generic));
}

#[test]
fn error_from_code_follows_the_table() {
    assert_eq!(error_from_code(3), SteamError::NoConnection);
    assert_eq!(error_from_code(8), SteamError::InvalidParam);
    assert_eq!(error_from_code(10), SteamError::Busy);
    assert_eq!(error_from_code(15), SteamError::AccessDenied);
    assert_eq!(error_from_code(25), SteamError::LimitExceeded);
    assert_eq!(error_from_code(84), SteamError::RateLimitExceeded);
    assert_eq!(error_from_code(2), SteamError::Generic);
    assert_eq!(error_from_code(0), SteamError::Generic);
}

#[test]
fn decode_malformed_payload_is_io_failure() {
    assert_eq!(decode_purchase_result(&Vec::new()), Err(SteamError::IOFailure));
    let short = payload(1, 42, 99)[..19].to_vec();
    assert_eq!(decode_purchase_result(&short), Err(SteamError::IOFailure));
    let mut long = payload(1, 42, 99);
    long.push(0);
    assert_eq!(decode_purchase_result(&long), Err(SteamError::IOFailure));
}

#[test]
fn enumeration_with_zero_count_is_empty() {
    let inv = Inventory::new();
    let r = inv.items_with_prices(&Vec::new(), &Vec::new(), &Vec::new());
    assert!(r.is_empty());
}

#[test]
fn enumeration_zips_parallel_buffers_in_order() {
    let inv = Inventory::new();
    let defs: Vec<i32> = vec![5, 6, 7];
    let prices: Vec<u64> = vec![100, 200, 300];
    let base_prices: Vec<u64> = vec![90, 180, 270];
    let r = inv.items_with_prices(&defs, &prices, &base_prices);
    assert_eq!(r.len(), 3);
    for i in 0..3 {
        assert_eq!(r[i].item(), SteamItem(defs[i]));
        assert_eq!(r[i].price(), prices[i]);
        assert_eq!(r[i].base_price(), base_prices[i]);
    }
}

#[test]
fn enumeration_truncates_to_shortest_buffer() {
    let inv = Inventory::new();
    let defs: Vec<i32> = vec![5, 6, 7];
    let prices: Vec<u64> = vec![100, 200];
    let base_prices: Vec<u64> = vec![90, 180, 270];
    let r = inv.items_with_prices(&defs, &prices, &base_prices);
    assert_eq!(r.len(), 2);
    assert_eq!(r[1].item(), SteamItem(6));
    assert_eq!(r[1].price(), 200);
    assert_eq!(r[1].base_price(), 180);
}

#[test]
fn purchase_request_is_a_single_element_batch() {
    let inv = Inventory::new();
    let req = inv.purchase_request(SteamItem(77), 3);
    assert_eq!(req.items, vec![77]);
    assert_eq!(req.quantities, vec![3]);
}
