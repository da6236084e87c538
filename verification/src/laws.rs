//! The replay and ordering properties of the reconciliation transitions,
//! stated and proved over the model of [`crate::model`].

use vstd::prelude::*;

use crate::model::{
    count_for, lemma_count_for_push, promote_outcome_spec, promote_spec, redeem_commit_spec,
    redemption_outcome_spec, redemption_spec, token_live, transfer_spec, zero_address,
    MintOutcome, RecordV, RedeemOutcome, StoreModel,
};

verus! {

/// Idempotence of promotion: replaying the same mint confirmation twice
/// yields exactly one token row and no pending record — the second
/// application finds nothing to promote, changes nothing, and reports no
/// error.
pub proof fn lemma_mint_replay_idempotent(
    s: StoreModel,
    tx_hash: Seq<u8>,
    token_id: u64,
    recipient: Seq<u8>,
)
    ensures
        promote_spec(promote_spec(s, tx_hash, token_id, recipient), tx_hash, token_id, recipient)
            == promote_spec(s, tx_hash, token_id, recipient),
        promote_outcome_spec(promote_spec(s, tx_hash, token_id, recipient), tx_hash)
            == MintOutcome::AlreadyPromoted || !s.pending.dom().contains(tx_hash),
        s.pending.dom().contains(tx_hash) ==> {
            let s1 = promote_spec(s, tx_hash, token_id, recipient);
            &&& s1.tokens.dom().contains(token_id)
            &&& !s1.pending.dom().contains(tx_hash)
        },
{
}

/// How one committed redemption changes the store: one more record for the
/// token, and its row deleted from the live index.
proof fn lemma_commit_effect(
    s: StoreModel,
    token_id: u64,
    record_id: Seq<u8>,
    publication: Seq<u8>,
    policy: Seq<u8>,
    content: Seq<u8>,
)
    requires
        token_live(s, token_id),
    ensures
        count_for(redeem_commit_spec(s, token_id, record_id, publication, policy, content).records,
            token_id) == count_for(s.records, token_id) + 1,
        !redeem_commit_spec(s, token_id, record_id, publication, policy, content).tokens.dom()
            .contains(token_id),
{
    let rec = RecordV {
        id: record_id,
        creator: s.tokens[token_id].creator,
        token_id: token_id,
        publication: publication,
        handle: s.tokens[token_id].handle,
        policy: policy,
        content: content,
    };
    lemma_count_for_push(s.records, rec, token_id);
}

/// Exclusivity of redemption: replaying the same redemption request twice
/// (with the safety gate approving both times) yields exactly one new
/// redeemed record, the token absent from the live index, and a second
/// application that changes nothing — deletion of the row is the guard.
///
/// The first run is assumed not to have been aborted by a failed
/// publication call (an aborted run changes nothing and may recur).
pub proof fn lemma_redeem_replay_exclusive(
    s: StoreModel,
    token_id: u64,
    user_found1: bool,
    publication1: Option<Seq<u8>>,
    record_id1: Seq<u8>,
    user_found2: bool,
    publication2: Option<Seq<u8>>,
    record_id2: Seq<u8>,
    policy: Seq<u8>,
    content: Seq<u8>,
)
    requires
        token_live(s, token_id),
        user_found1 ==> publication1 is Some,
    ensures
        ({
            let s1 = redemption_spec(s, token_id, true, user_found1, publication1, record_id1,
                policy, content);
            let s2 = redemption_spec(s1, token_id, true, user_found2, publication2, record_id2,
                policy, content);
            &&& count_for(s1.records, token_id) == count_for(s.records, token_id) + 1
            &&& !s1.tokens.dom().contains(token_id)
            &&& s2 == s1
            &&& redemption_outcome_spec(s1, token_id, true, user_found2, publication2)
                == RedeemOutcome::AlreadyRedeemed
        }),
{
    if user_found1 {
        match publication1 {
            Option::Some(p) => {
                lemma_commit_effect(s, token_id, record_id1, p, policy, content);
            }
            Option::None => {
                assert(false);
            }
        }
    } else {
        lemma_commit_effect(s, token_id, record_id1, Seq::empty(), policy, content);
    }
}

/// Ordering dependency: a transfer that arrives before the mint
/// confirmation that would create its token finds no row and changes
/// nothing — a benign no-op, never a crash.
pub proof fn lemma_transfer_before_mint(s: StoreModel, token_id: u64, from: Seq<u8>, to: Seq<u8>)
    requires
        !s.tokens.dom().contains(token_id),
    ensures
        transfer_spec(s, token_id, from, to) == s,
{
    if from != zero_address() && to == zero_address() {
        assert(s.tokens.remove(token_id) =~= s.tokens);
        assert(transfer_spec(s, token_id, from, to) =~= s);
    }
}

/// Burn: a transfer to the zero address removes the token row, and any
/// subsequent redemption of the same token is a no-op.
pub proof fn lemma_burn_then_redeem(
    s: StoreModel,
    token_id: u64,
    from: Seq<u8>,
    user_found: bool,
    publication: Option<Seq<u8>>,
    record_id: Seq<u8>,
    policy: Seq<u8>,
    content: Seq<u8>,
)
    requires
        from != zero_address(),
    ensures
        !transfer_spec(s, token_id, from, zero_address()).tokens.dom().contains(token_id),
        ({
            let s1 = transfer_spec(s, token_id, from, zero_address());
            redemption_spec(s1, token_id, true, user_found, publication, record_id, policy, content)
                == s1
        }),
{
}

/// Safety gating: with an unsafe answer the event is fully discarded — the
/// store is unchanged whatever the other collaborators would have answered,
/// and the outcome is the policy decision, not an error.
pub proof fn lemma_unsafe_redemption_no_effect(
    s: StoreModel,
    token_id: u64,
    user_found: bool,
    publication: Option<Seq<u8>>,
    record_id: Seq<u8>,
    policy: Seq<u8>,
    content: Seq<u8>,
)
    ensures
        redemption_spec(s, token_id, false, user_found, publication, record_id, policy, content)
            == s,
        redemption_outcome_spec(s, token_id, false, user_found, publication)
            == RedeemOutcome::Discarded,
{
}

} // verus!
