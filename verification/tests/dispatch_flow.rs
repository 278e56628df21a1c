use steamworks::CallRegistry;
use steamworks::CallbackRecord;
use steamworks::Inventory;
use steamworks::ResultTag;
use steamworks::SteamContext;
use steamworks::SteamError;
use steamworks::SteamPurchase;

fn payload(code: u32, order_id: u64, transaction_id: u64) -> Vec<u8> {
    let mut b: Vec<u8> = Vec::new();
    b.extend_from_slice(&code.to_le_bytes());
    b.extend_from_slice(&order_id.to_le_bytes());
    b.extend_from_slice(&transaction_id.to_le_bytes());
    b
}

#[test]
fn purchase_resolves_once_with_decoded_receipt() {
    let inv = Inventory::new();
    let mut ctx = SteamContext::new();
    inv.start_purchase(&mut ctx, 11, 0);
    assert!(ctx.is_pending(11));
    assert_eq!(ctx.pending_count(), 1);

    let records = vec![CallbackRecord::CallResult {
        handle: 11,
        payload: payload(1, 42, 99),
        io_error: false,
    }];
    let res = ctx.run_callbacks(&records, 1);
    assert_eq!(res.len(), 1);
    assert_eq!(res[0].handle, 11);
    assert_eq!(res[0].outcome, Ok(SteamPurchase { order_id: 42, transaction_id: 99 }));
    assert!(!ctx.is_pending(11));

    let res2 = ctx.run_callbacks(&records, 2);
    assert!(res2.is_empty());
}

#[test]
fn io_error_flag_beats_payload() {
    let inv = Inventory::new();
    let mut ctx = SteamContext::new();
    inv.start_purchase(&mut ctx, 7, 0);
    let records = vec![CallbackRecord::CallResult {
        handle: 7,
        payload: payload(1, 42, 99),
        io_error: true,
    }];
    let res = ctx.run_callbacks(&records, 1);
    assert_eq!(res.len(), 1);
    assert_eq!(res[0].outcome, Err(SteamError::IOFailure));
}

#[test]
fn explicit_failure_record_is_io_failure() {
    let inv = Inventory::new();
    let mut ctx = SteamContext::new();
    inv.start_purchase(&mut ctx, 9, 0);
    let records = vec![CallbackRecord::CallFailed { handle: 9 }];
    let res = ctx.run_callbacks(&records, 1);
    assert_eq!(res.len(), 1);
    assert_eq!(res[0].handle, 9);
    assert_eq!(res[0].outcome, Err(SteamError::IOFailure));
    assert!(!ctx.is_pending(9));
}

#[test]
fn unknown_handle_is_a_silent_no_op() {
    let mut ctx = SteamContext::new();
    let records = vec![
        CallbackRecord::CallResult { handle: 5, payload: payload(1, 1, 1), io_error: false },
        CallbackRecord::Other,
    ];
    let res = ctx.run_callbacks(&records, 1);
    assert!(res.is_empty());
}

#[test]
fn nonsuccess_code_resolves_with_mapped_error() {
    let inv = Inventory::new();
    let mut ctx = SteamContext::new();
    inv.start_purchase(&mut ctx, 4, 0);
    let records = vec![CallbackRecord::CallResult {
        handle: 4,
        payload: payload(15, 42, 99),
        io_error: false,
    }];
    let res = ctx.run_callbacks(&records, 1);
    assert_eq!(res[0].outcome, Err(SteamError::AccessDenied));
}

#[test]
fn timeout_fires_at_deadline_and_only_once() {
    let inv = Inventory::new();
    let mut ctx = SteamContext::new();
    inv.start_purchase(&mut ctx, 21, 0);

    let none: Vec<CallbackRecord> = Vec::new();
    let before = ctx.run_callbacks(&none, 4999);
    assert!(before.is_empty());
    assert!(ctx.is_pending(21));

    let at = ctx.run_callbacks(&none, 5000);
    assert_eq!(at.len(), 1);
    assert_eq!(at[0].handle, 21);
    assert_eq!(at[0].outcome, Err(SteamError::Timeout));
    assert!(!ctx.is_pending(21));

    let after = ctx.run_callbacks(&none, 6000);
    assert!(after.is_empty());
}

#[test]
fn completion_one_tick_before_deadline_is_not_a_timeout() {
    let inv = Inventory::new();
    let mut ctx = SteamContext::new();
    inv.start_purchase(&mut ctx, 33, 0);
    let records = vec![CallbackRecord::CallResult {
        handle: 33,
        payload: payload(1, 8, 9),
        io_error: false,
    }];
    let res = ctx.run_callbacks(&records, 4999);
    assert_eq!(res.len(), 1);
    assert_eq!(res[0].outcome, Ok(SteamPurchase { order_id: 8, transaction_id: 9 }));

    let none: Vec<CallbackRecord> = Vec::new();
    let later = ctx.run_callbacks(&none, 10_000);
    assert!(later.is_empty());
}

#[test]
fn record_driven_resolutions_precede_timeouts() {
    let inv = Inventory::new();
    let mut ctx = SteamContext::new();
    inv.start_purchase(&mut ctx, 1, 0);
    inv.start_purchase(&mut ctx, 2, 0);
    let records = vec![CallbackRecord::CallResult {
        handle: 1,
        payload: payload(1, 10, 20),
        io_error: false,
    }];
    let res = ctx.run_callbacks(&records, 9000);
    assert_eq!(res.len(), 2);
    assert_eq!(res[0].handle, 1);
    assert_eq!(res[0].outcome, Ok(SteamPurchase { order_id: 10, transaction_id: 20 }));
    assert_eq!(res[1].handle, 2);
    assert_eq!(res[1].outcome, Err(SteamError::Timeout));
}

#[test]
fn teardown_abandons_pending_entries_silently() {
    let inv = Inventory::new();
    let mut ctx = SteamContext::new();
    inv.start_purchase(&mut ctx, 51, 0);
    inv.start_purchase(&mut ctx, 52, 0);
    assert_eq!(ctx.pending_count(), 2);

    ctx.teardown();
    assert_eq!(ctx.pending_count(), 0);
    assert!(!ctx.is_pending(51));

    let records = vec![
        CallbackRecord::CallResult { handle: 51, payload: payload(1, 1, 1), io_error: false },
        CallbackRecord::CallFailed { handle: 52 },
    ];
    let res = ctx.run_callbacks(&records, 100_000);
    assert!(res.is_empty());
}

#[test]
fn handle_is_free_again_after_resolution() {
    let inv = Inventory::new();
    let mut ctx = SteamContext::new();
    inv.start_purchase(&mut ctx, 77, 0);
    let records = vec![CallbackRecord::CallFailed { handle: 77 }];
    ctx.run_callbacks(&records, 1);
    assert!(!ctx.is_pending(77));
    inv.start_purchase(&mut ctx, 77, 10);
    assert!(ctx.is_pending(77));
}

#[test]
fn registry_completes_an_entry_exactly_once() {
    let mut reg = CallRegistry::new();
    reg.register(3, ResultTag::Purchase, 5000);
    let b = payload(1, 6, 7);
    let first = reg.complete(3, &b, false);
    assert_eq!(
        first.map(|r| r.outcome),
        Some(Ok(SteamPurchase { order_id: 6, transaction_id: 7 }))
    );
    let second = reg.complete(3, &b, false);
    assert!(second.is_none());
}

#[test]
fn registry_sweep_times_out_only_elapsed_entries() {
    let mut reg = CallRegistry::new();
    reg.register(1, ResultTag::Purchase, 100);
    reg.register(2, ResultTag::Purchase, 200);
    let res = reg.sweep_timeouts(150);
    assert_eq!(res.len(), 1);
    assert_eq!(res[0].handle, 1);
    assert_eq!(res[0].outcome, Err(SteamError::Timeout));
    assert!(reg.is_pending(2));
    assert!(!reg.is_pending(1));
}
