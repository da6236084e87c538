//! Mathematical model of the index store and its transitions.
//!
//! Every executable mutation of [`crate::store::IndexStore`] is specified as
//! a function over [`StoreModel`]; the proof functions in [`crate::laws`]
//! state the replay and ordering properties over these transitions.

use vstd::prelude::*;

verus! {

/// One row of the live ownership index.
///
/// `owner` is the current holder's chain address (20 bytes); `creator` and
/// `handle` are the content creator's application user id and social account
/// handle, fixed when the pending mint is promoted; `redeemed` is monotonic
/// `false -> true` in the data model, though a successful redemption removes
/// the row outright.
#[verifier::ext_equal]
pub struct TokenRowV {
    pub owner: Seq<u8>,
    pub creator: Seq<u8>,
    pub handle: Seq<u8>,
    pub redeemed: bool,
}

/// Creator metadata registered when a mint transaction is submitted,
/// keyed by that transaction's hash until the confirmation event arrives.
#[verifier::ext_equal]
pub struct PendingV {
    pub creator: Seq<u8>,
    pub handle: Seq<u8>,
}

/// One immutable redeemed-content record.
#[verifier::ext_equal]
pub struct RecordV {
    pub id: Seq<u8>,
    pub creator: Seq<u8>,
    pub token_id: u64,
    pub publication: Seq<u8>,
    pub handle: Seq<u8>,
    pub policy: Seq<u8>,
    pub content: Seq<u8>,
}

/// The whole store: ownership index, pending-mint register, append-only
/// redeemed-record log, and per-creator redemption counters.
#[verifier::ext_equal]
pub struct StoreModel {
    pub tokens: Map<u64, TokenRowV>,
    pub pending: Map<Seq<u8>, PendingV>,
    pub records: Seq<RecordV>,
    pub counters: Map<Seq<u8>, u64>,
}

/// The zero address: transfers from it are the mint leg, transfers to it burn.
pub open spec fn zero_address() -> Seq<u8> {
    Seq::new(20, |i: int| 0u8)
}

/// A token that is present in the live index and not yet redeemed.
pub open spec fn token_live(s: StoreModel, token_id: u64) -> bool {
    s.tokens.dom().contains(token_id) && !s.tokens[token_id].redeemed
}

/// The creator's current redemption count, zero when no counter row exists.
pub open spec fn counter_of(s: StoreModel, user: Seq<u8>) -> u64 {
    if s.counters.dom().contains(user) {
        s.counters[user]
    } else {
        0
    }
}

/// One more than `counter_of`, saturating at the machine bound.
pub open spec fn bumped_counter(s: StoreModel, user: Seq<u8>) -> u64 {
    if counter_of(s, user) == u64::MAX {
        u64::MAX
    } else {
        (counter_of(s, user) + 1) as u64
    }
}

/// Promotion of a pending mint into a confirmed token.
///
/// When a pending record exists for `tx_hash`, a token row is created for
/// `token_id` with `recipient` as its owner and the pending record is
/// deleted; when none exists the event was already promoted and the store is
/// unchanged.
pub open spec fn promote_spec(
    s: StoreModel,
    tx_hash: Seq<u8>,
    token_id: u64,
    recipient: Seq<u8>,
) -> StoreModel {
    if s.pending.dom().contains(tx_hash) {
        StoreModel {
            tokens: s.tokens.insert(
                token_id,
                TokenRowV {
                    owner: recipient,
                    creator: s.pending[tx_hash].creator,
                    handle: s.pending[tx_hash].handle,
                    redeemed: false,
                },
            ),
            pending: s.pending.remove(tx_hash),
            ..s
        }
    } else {
        s
    }
}

/// Ownership transfer.
///
/// A transfer from the zero address is the mint event's own transfer leg and
/// is ignored; a transfer to the zero address burns the token (removing an
/// absent row is a no-op); any other transfer rewrites the owner of an
/// existing row and is a no-op when the row is missing.
pub open spec fn transfer_spec(
    s: StoreModel,
    token_id: u64,
    from: Seq<u8>,
    to: Seq<u8>,
) -> StoreModel {
    if from == zero_address() {
        s
    } else if to == zero_address() {
        StoreModel { tokens: s.tokens.remove(token_id), ..s }
    } else if s.tokens.dom().contains(token_id) {
        StoreModel {
            tokens: s.tokens.insert(
                token_id,
                TokenRowV { owner: to, ..s.tokens[token_id] },
            ),
            ..s
        }
    } else {
        s
    }
}

/// Commit of an approved redemption.
///
/// When the token is live, one redeemed record is appended (with the
/// publication reference, or an empty placeholder when publication was
/// skipped), the creator's counter is bumped, and the token row is deleted —
/// deletion is what makes a token permanently non-redeemable under
/// redelivery.  When the token is not live the event was already redeemed
/// and the store is unchanged.
pub open spec fn redeem_commit_spec(
    s: StoreModel,
    token_id: u64,
    record_id: Seq<u8>,
    publication: Seq<u8>,
    policy: Seq<u8>,
    content: Seq<u8>,
) -> StoreModel {
    if token_live(s, token_id) {
        StoreModel {
            tokens: s.tokens.remove(token_id),
            pending: s.pending,
            records: s.records.push(
                RecordV {
                    id: record_id,
                    creator: s.tokens[token_id].creator,
                    token_id: token_id,
                    publication: publication,
                    handle: s.tokens[token_id].handle,
                    policy: policy,
                    content: content,
                },
            ),
            counters: s.counters.insert(
                s.tokens[token_id].creator,
                bumped_counter(s, s.tokens[token_id].creator),
            ),
        }
    } else {
        s
    }
}

/// The redemption pipeline as one store transition, parameterised by the
/// answers of the external collaborators: the safety gate's answer, whether
/// a linked user was found, and the publication outcome (`None` when the
/// publication call failed, which aborts the event).
///
/// An unsafe answer discards the event with no state change; an absent or
/// already-redeemed token is a no-op; an absent linked user skips
/// publication but still commits with an empty publication reference.
pub open spec fn redemption_spec(
    s: StoreModel,
    token_id: u64,
    safe: bool,
    user_found: bool,
    publication: Option<Seq<u8>>,
    record_id: Seq<u8>,
    policy: Seq<u8>,
    content: Seq<u8>,
) -> StoreModel {
    if !safe {
        s
    } else if !token_live(s, token_id) {
        s
    } else if user_found {
        match publication {
            Option::Some(p) => redeem_commit_spec(s, token_id, record_id, p, policy, content),
            Option::None => s,
        }
    } else {
        redeem_commit_spec(s, token_id, record_id, Seq::empty(), policy, content)
    }
}

/// The number of redeemed records for one token.
pub open spec fn count_for(rs: Seq<RecordV>, token_id: u64) -> nat
    decreases rs.len(),
{
    if rs.len() == 0 {
        0
    } else {
        count_for(rs.drop_last(), token_id) + if rs.last().token_id == token_id {
            1nat
        } else {
            0nat
        }
    }
}

/// How the count for one token changes when a record is appended.
pub proof fn lemma_count_for_push(rs: Seq<RecordV>, r: RecordV, token_id: u64)
    ensures
        count_for(rs.push(r), token_id) == count_for(rs, token_id) + if r.token_id == token_id {
            1nat
        } else {
            0nat
        },
{
    assert(rs.push(r).drop_last() =~= rs);
}

/// The outcome of applying a mint confirmation.
#[derive(Clone, Copy, PartialEq, Eq, Structural, Debug)]
pub enum MintOutcome {
    /// A pending record was promoted into a token row.
    Promoted,
    /// No pending record existed: the event was already promoted.
    AlreadyPromoted,
}

/// The outcome of applying an ownership transfer.
#[derive(Clone, Copy, PartialEq, Eq, Structural, Debug)]
pub enum TransferOutcome {
    /// Transfer from the zero address: the mint event's own transfer leg.
    IgnoredMintLeg,
    /// Transfer to the zero address removed the token row.
    Burned,
    /// The owner of an existing row was rewritten.
    OwnerUpdated,
    /// The referenced row was missing: a benign no-op, logged as a warning.
    MissingToken,
}

/// The outcome of a redemption pipeline run.
#[derive(Clone, Copy, PartialEq, Eq, Structural, Debug)]
pub enum RedeemOutcome {
    /// The safety gate rejected the content: the event is fully discarded.
    Discarded,
    /// The token was absent or already redeemed: a replay, a no-op.
    AlreadyRedeemed,
    /// The publication call failed: this event's processing was aborted.
    Aborted,
    /// A redeemed record was committed and the token row deleted.
    Redeemed,
}

/// The outcome `promote_spec` reports.
pub open spec fn promote_outcome_spec(s: StoreModel, tx_hash: Seq<u8>) -> MintOutcome {
    if s.pending.dom().contains(tx_hash) {
        MintOutcome::Promoted
    } else {
        MintOutcome::AlreadyPromoted
    }
}

/// The outcome `transfer_spec` reports.
pub open spec fn transfer_outcome_spec(
    s: StoreModel,
    token_id: u64,
    from: Seq<u8>,
    to: Seq<u8>,
) -> TransferOutcome {
    if from == zero_address() {
        TransferOutcome::IgnoredMintLeg
    } else if to == zero_address() {
        if s.tokens.dom().contains(token_id) {
            TransferOutcome::Burned
        } else {
            TransferOutcome::MissingToken
        }
    } else if s.tokens.dom().contains(token_id) {
        TransferOutcome::OwnerUpdated
    } else {
        TransferOutcome::MissingToken
    }
}

/// The outcome `redemption_spec` reports.
pub open spec fn redemption_outcome_spec(
    s: StoreModel,
    token_id: u64,
    safe: bool,
    user_found: bool,
    publication: Option<Seq<u8>>,
) -> RedeemOutcome {
    if !safe {
        RedeemOutcome::Discarded
    } else if !token_live(s, token_id) {
        RedeemOutcome::AlreadyRedeemed
    } else if user_found && publication is None {
        RedeemOutcome::Aborted
    } else {
        RedeemOutcome::Redeemed
    }
}

} // verus!
