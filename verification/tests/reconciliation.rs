use teleport_indexer::engine::{
    dispatch, Dispatched, Event, PublishResolved, SafetyPending, SafetyResolved, UserResolved,
};
use teleport_indexer::model::{MintOutcome, RedeemOutcome, TransferOutcome};
use teleport_indexer::store::{IndexStore, PendingMint};

fn addr(last: u8) -> Vec<u8> {
    let mut a = vec![0u8; 20];
    a[19] = last;
    a
}

fn zero_addr() -> Vec<u8> {
    vec![0u8; 20]
}

fn pending_store(tx: &[u8], creator: &[u8], handle: &[u8]) -> IndexStore {
    let mut store = IndexStore::new();
    store.register_pending(
        tx.to_vec(),
        PendingMint { creator: creator.to_vec(), handle: handle.to_vec() },
    );
    store
}

fn start_redemption(store: &mut IndexStore, token_id: u64, content: &[u8], policy: &[u8]) -> SafetyPending {
    let ev = Event::RedemptionRequested {
        token_id,
        creator_x_id: 7,
        content: content.to_vec(),
        policy: policy.to_vec(),
    };
    match dispatch(store, ev) {
        Dispatched::Redemption(p) => p,
        _ => panic!("redemption event must start the pipeline"),
    }
}

/// Runs the redemption pipeline with the given collaborator answers and a
/// fixed record id; returns the outcome.
fn run_redemption(
    store: &mut IndexStore,
    token_id: u64,
    safe: bool,
    user_found: bool,
    publication: Option<Vec<u8>>,
    record_id: &[u8],
) -> RedeemOutcome {
    let p = start_redemption(store, token_id, b"hello", b"p");
    let u = match p.resolve(safe, store) {
        SafetyResolved::Continue(u) => u,
        SafetyResolved::Done(o) => return o,
    };
    let c = match u.resolve(user_found) {
        UserResolved::Publish(pp) => match pp.resolve(publication) {
            PublishResolved::Commit(c) => c,
            PublishResolved::Aborted => return RedeemOutcome::Aborted,
        },
        UserResolved::Commit(c) => c,
    };
    c.commit_with_id(store, record_id.to_vec())
}

#[test]
fn mint_confirmation_promotes_pending() {
    // Mint tx 0xabc pending for creator U1, then the confirmation arrives.
    let tx = vec![0xabu8, 0xc0];
    let mut store = pending_store(&tx, b"U1", b"handle1");
    let outcome = store.apply_mint_confirmed(&tx, 42, addr(0xDE));
    assert_eq!(outcome, MintOutcome::Promoted);
    let row = store.token_of(42).expect("token row must exist");
    assert_eq!(row.owner, addr(0xDE));
    assert_eq!(row.creator, b"U1".to_vec());
    assert!(!row.redeemed);
    assert!(!store.pending_contains(&tx));
}

#[test]
fn mint_confirmation_replay_is_noop() {
    let tx = vec![0xabu8, 0xc0];
    let mut store = pending_store(&tx, b"U1", b"handle1");
    assert_eq!(store.apply_mint_confirmed(&tx, 42, addr(0xDE)), MintOutcome::Promoted);
    // Redelivery of the same log: no pending record, no error, no change.
    assert_eq!(store.apply_mint_confirmed(&tx, 42, addr(0xDE)), MintOutcome::AlreadyPromoted);
    let row = store.token_of(42).expect("token row must exist");
    assert_eq!(row.owner, addr(0xDE));
    assert!(!store.pending_contains(&tx));
}

#[test]
fn redemption_commits_once() {
    // Safety gate true, linked user found: one record, token gone,
    // creator's counter incremented by 1.
    let tx = vec![0xabu8];
    let mut store = pending_store(&tx, b"U1", b"handle1");
    store.apply_mint_confirmed(&tx, 42, addr(0xDE));
    let outcome = run_redemption(&mut store, 42, true, true, Some(b"post1".to_vec()), b"rid1");
    assert_eq!(outcome, RedeemOutcome::Redeemed);
    assert_eq!(store.records_for_token(42), 1);
    assert!(store.token_of(42).is_none());
    assert_eq!(store.counter_of(&b"U1".to_vec()), 1);
    let rec = store.record_at(0);
    assert_eq!(rec.id, b"rid1".to_vec());
    assert_eq!(rec.creator, b"U1".to_vec());
    assert_eq!(rec.token_id, 42);
    assert_eq!(rec.publication, b"post1".to_vec());
    assert_eq!(rec.handle, b"handle1".to_vec());
    assert_eq!(rec.policy, b"p".to_vec());
    assert_eq!(rec.content, b"hello".to_vec());
}

#[test]
fn redemption_replay_is_noop() {
    let tx = vec![0xabu8];
    let mut store = pending_store(&tx, b"U1", b"h");
    store.apply_mint_confirmed(&tx, 42, addr(0xDE));
    assert_eq!(
        run_redemption(&mut store, 42, true, true, Some(b"post1".to_vec()), b"rid1"),
        RedeemOutcome::Redeemed
    );
    // Redelivery: the token row is gone, so the replay is a no-op.
    assert_eq!(
        run_redemption(&mut store, 42, true, true, Some(b"post2".to_vec()), b"rid2"),
        RedeemOutcome::AlreadyRedeemed
    );
    assert_eq!(store.records_for_token(42), 1);
    assert!(store.token_of(42).is_none());
    assert_eq!(store.counter_of(&b"U1".to_vec()), 1);
}

#[test]
fn unsafe_content_is_discarded() {
    // Safety gate false: no store mutation, no publication step reached.
    let tx = vec![0xabu8];
    let mut store = pending_store(&tx, b"U1", b"h");
    store.apply_mint_confirmed(&tx, 42, addr(0xDE));
    assert_eq!(run_redemption(&mut store, 42, false, true, None, b"rid1"), RedeemOutcome::Discarded);
    assert!(store.token_of(42).is_some());
    assert_eq!(store.records_for_token(42), 0);
    assert_eq!(store.records_len(), 0);
    assert_eq!(store.counter_of(&b"U1".to_vec()), 0);
}

#[test]
fn missing_user_skips_publication_but_commits() {
    let tx = vec![0xabu8];
    let mut store = pending_store(&tx, b"U1", b"h");
    store.apply_mint_confirmed(&tx, 42, addr(0xDE));
    assert_eq!(run_redemption(&mut store, 42, true, false, None, b"rid1"), RedeemOutcome::Redeemed);
    assert_eq!(store.records_for_token(42), 1);
    assert_eq!(store.record_at(0).publication, Vec::<u8>::new());
    assert!(store.token_of(42).is_none());
}

#[test]
fn failed_publication_aborts_event() {
    let tx = vec![0xabu8];
    let mut store = pending_store(&tx, b"U1", b"h");
    store.apply_mint_confirmed(&tx, 42, addr(0xDE));
    assert_eq!(run_redemption(&mut store, 42, true, true, None, b"rid1"), RedeemOutcome::Aborted);
    // Nothing committed: a later redelivery can still redeem.
    assert_eq!(store.records_for_token(42), 0);
    assert!(store.token_of(42).is_some());
    assert_eq!(
        run_redemption(&mut store, 42, true, true, Some(b"post1".to_vec()), b"rid1"),
        RedeemOutcome::Redeemed
    );
    assert_eq!(store.records_for_token(42), 1);
}

#[test]
fn transfer_updates_owner() {
    // Transfer on an existing token rewrites the owner.
    let tx = vec![0xabu8];
    let mut store = pending_store(&tx, b"U1", b"h");
    store.apply_mint_confirmed(&tx, 42, addr(0xDE));
    let outcome = store.apply_transfer(42, &addr(0xDE), addr(0xBE));
    assert_eq!(outcome, TransferOutcome::OwnerUpdated);
    assert_eq!(store.token_of(42).unwrap().owner, addr(0xBE));
    // On a non-existent token: no error, no row created.
    let outcome = store.apply_transfer(7, &addr(0xDE), addr(0xBE));
    assert_eq!(outcome, TransferOutcome::MissingToken);
    assert!(store.token_of(7).is_none());
}

#[test]
fn transfer_before_mint_is_benign() {
    // The transfer arrives before the confirmation that creates its token:
    // logged as a warning, ignored, never a crash.
    let mut store = IndexStore::new();
    assert_eq!(store.apply_transfer(42, &addr(0xDE), addr(0xBE)), TransferOutcome::MissingToken);
    assert!(store.token_of(42).is_none());
}

#[test]
fn transfer_from_zero_is_mint_leg() {
    let tx = vec![0xabu8];
    let mut store = pending_store(&tx, b"U1", b"h");
    store.apply_mint_confirmed(&tx, 42, addr(0xDE));
    assert_eq!(store.apply_transfer(42, &zero_addr(), addr(0xBE)), TransferOutcome::IgnoredMintLeg);
    assert_eq!(store.token_of(42).unwrap().owner, addr(0xDE));
}

#[test]
fn burn_removes_row_and_blocks_redemption() {
    let tx = vec![0xabu8];
    let mut store = pending_store(&tx, b"U1", b"h");
    store.apply_mint_confirmed(&tx, 42, addr(0xDE));
    assert_eq!(store.apply_transfer(42, &addr(0xDE), zero_addr()), TransferOutcome::Burned);
    assert!(store.token_of(42).is_none());
    // A subsequent redemption event for the same token is a no-op.
    assert_eq!(
        run_redemption(&mut store, 42, true, true, Some(b"post1".to_vec()), b"rid1"),
        RedeemOutcome::AlreadyRedeemed
    );
    assert_eq!(store.records_for_token(42), 0);
    // Burning an already-absent row is a benign no-op too.
    assert_eq!(store.apply_transfer(42, &addr(0xDE), zero_addr()), TransferOutcome::MissingToken);
}

#[test]
fn fresh_record_ids_are_short_tokens() {
    // The commit step that generates its own record id: the id comes from
    // the external id generator, one starting letter plus a truncated hash.
    let tx = vec![0xabu8];
    let mut store = pending_store(&tx, b"U1", b"h");
    store.apply_mint_confirmed(&tx, 42, addr(0xDE));
    let p = start_redemption(&mut store, 42, b"hello", b"p");
    let u = match p.resolve(true, &store) {
        SafetyResolved::Continue(u) => u,
        SafetyResolved::Done(_) => panic!("token is live"),
    };
    let c = match u.resolve(false) {
        UserResolved::Commit(c) => c,
        UserResolved::Publish(_) => panic!("no user was found"),
    };
    assert_eq!(c.commit(&mut store), RedeemOutcome::Redeemed);
    let rec = store.record_at(0);
    assert!(1 <= rec.id.len() && rec.id.len() <= 24);
    assert_eq!(rec.token_id, 42);
}

#[test]
fn unrecognized_events_are_skipped() {
    let mut store = IndexStore::new();
    match dispatch(&mut store, Event::Unrecognized) {
        Dispatched::Skipped => {}
        _ => panic!("unrecognized events are dropped"),
    }
    assert_eq!(store.records_len(), 0);
}

#[test]
fn dispatch_routes_mint_and_transfer() {
    let tx = vec![0xabu8];
    let mut store = pending_store(&tx, b"U1", b"h");
    let ev = Event::MintConfirmed { tx_hash: tx.clone(), token_id: 42, recipient: addr(0xDE) };
    match dispatch(&mut store, ev) {
        Dispatched::Mint(o) => assert_eq!(o, MintOutcome::Promoted),
        _ => panic!("mint confirmation must be applied"),
    }
    let ev = Event::OwnershipTransferred { token_id: 42, from: addr(0xDE), to: addr(0xBE) };
    match dispatch(&mut store, ev) {
        Dispatched::Transfer(o) => assert_eq!(o, TransferOutcome::OwnerUpdated),
        _ => panic!("transfer must be applied"),
    }
    assert_eq!(store.token_of(42).unwrap().owner, addr(0xBE));
}
