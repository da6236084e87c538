//! The reconciliation engine: routes each decoded event to the store
//! transition it calls for, and exposes the redemption pipeline as a
//! type-state machine whose external calls (safety gate, account lookup,
//! publication) are performed by the caller between verified steps.
//!
//! Events are processed one at a time, in stream-delivery order; every
//! transition is safe to re-apply under at-least-once redelivery.

use vstd::prelude::*;

use crate::model::{
    promote_outcome_spec, promote_spec, redeem_commit_spec, token_live, transfer_outcome_spec,
    transfer_spec, MintOutcome, RedeemOutcome, TransferOutcome,
};
use crate::store::IndexStore;

verus! {

/// A decoded contract event, or `Unrecognized` for a log entry that matches
/// no known signature (silently skipped).
#[derive(Debug)]
pub enum Event {
    /// A submitted mint was confirmed on chain.
    MintConfirmed { tx_hash: Vec<u8>, token_id: u64, recipient: Vec<u8> },
    /// A token holder asked to redeem the token for publication of content.
    RedemptionRequested { token_id: u64, creator_x_id: u64, content: Vec<u8>, policy: Vec<u8> },
    /// Token ownership moved between addresses.
    OwnershipTransferred { token_id: u64, from: Vec<u8>, to: Vec<u8> },
    /// A log entry of some other, unrelated event.
    Unrecognized,
}

/// The abstract content of a redemption request.
#[verifier::ext_equal]
pub struct ReqV {
    pub token_id: u64,
    pub x_id: u64,
    pub content: Seq<u8>,
    pub policy: Seq<u8>,
}

/// The fields of a `RedemptionRequested` event, carried through the
/// redemption pipeline.
pub struct RedeemRequest {
    token_id: u64,
    x_id: u64,
    content: Vec<u8>,
    policy: Vec<u8>,
}

impl View for RedeemRequest {
    type V = ReqV;

    closed spec fn view(&self) -> ReqV {
        ReqV {
            token_id: self.token_id,
            x_id: self.x_id,
            content: self.content@,
            policy: self.policy@,
        }
    }
}

impl RedeemRequest {
    /// The token being redeemed.
    pub fn token_id(&self) -> (r: u64)
        ensures
            r == self@.token_id,
    {
        self.token_id
    }

    /// The creator's linked social account id.
    pub fn x_id(&self) -> (r: u64)
        ensures
            r == self@.x_id,
    {
        self.x_id
    }

    /// The content to publish.
    pub fn content(&self) -> (r: &Vec<u8>)
        ensures
            r@ == self@.content,
    {
        &self.content
    }

    /// The safety policy the redeemer supplied.
    pub fn policy(&self) -> (r: &Vec<u8>)
        ensures
            r@ == self@.policy,
    {
        &self.policy
    }
}

/// The abstract content of a redemption awaiting commit.
#[verifier::ext_equal]
pub struct CommitV {
    pub req: ReqV,
    pub publication: Seq<u8>,
}

/// A redemption awaiting the safety check.  The caller runs the external
/// safety check on the request's content and policy and passes the result
/// to [`SafetyPending::resolve`]; until then no store or publication call
/// is made for this event.
pub struct SafetyPending {
    req: RedeemRequest,
}

impl View for SafetyPending {
    type V = ReqV;

    closed spec fn view(&self) -> ReqV {
        self.req@
    }
}

/// A redemption awaiting the creator lookup by social account id.
pub struct UserPending {
    req: RedeemRequest,
}

impl View for UserPending {
    type V = ReqV;

    closed spec fn view(&self) -> ReqV {
        self.req@
    }
}

/// A redemption awaiting the publication call.
pub struct PublishPending {
    req: RedeemRequest,
}

impl View for PublishPending {
    type V = ReqV;

    closed spec fn view(&self) -> ReqV {
        self.req@
    }
}

/// A redemption ready to be committed to the store.
pub struct CommitPending {
    req: RedeemRequest,
    publication: Vec<u8>,
}

impl View for CommitPending {
    type V = CommitV;

    closed spec fn view(&self) -> CommitV {
        CommitV { req: self.req@, publication: self.publication@ }
    }
}

/// What follows the safety answer.
pub enum SafetyResolved {
    /// Safe, and the token is live: look the creator up next.
    Continue(UserPending),
    /// Unsafe (discarded) or the token is gone (a replay): done, untouched.
    Done(RedeemOutcome),
}

/// What follows the creator lookup.
pub enum UserResolved {
    /// A linked user was found: publish the content under their account.
    Publish(PublishPending),
    /// No linked user: skip publication, commit with an empty reference.
    Commit(CommitPending),
}

/// What follows the publication call.
pub enum PublishResolved {
    /// Publication succeeded: commit with the returned reference.
    Commit(CommitPending),
    /// Publication failed: this event's processing is aborted.
    Aborted,
}

impl SafetyPending {
    /// The request, for making the safety-gate call.
    pub fn request(&self) -> (r: &RedeemRequest)
        ensures
            r@ == self@,
    {
        &self.req
    }

    /// Apply the safety gate's answer.  An unsafe answer discards the
    /// event; a safe answer proceeds only when the token is still live.
    pub fn resolve(self, safe: bool, store: &IndexStore) -> (r: SafetyResolved)
        requires
            store.wf(),
        ensures
            match r {
                SafetyResolved::Continue(next) => safe && token_live(store@, self@.token_id)
                    && next@ == self@,
                SafetyResolved::Done(o) => !(safe && token_live(store@, self@.token_id)) && o == (
                if !safe {
                    RedeemOutcome::Discarded
                } else {
                    RedeemOutcome::AlreadyRedeemed
                }),
            },
    {
        if !safe {
            return SafetyResolved::Done(RedeemOutcome::Discarded);
        }
        let live = match store.token_of(self.req.token_id) {
            Some(row) => !row.redeemed,
            None => false,
        };
        if live {
            SafetyResolved::Continue(UserPending { req: self.req })
        } else {
            SafetyResolved::Done(RedeemOutcome::AlreadyRedeemed)
        }
    }
}

impl UserPending {
    /// The request, for making the account lookup.
    pub fn request(&self) -> (r: &RedeemRequest)
        ensures
            r@ == self@,
    {
        &self.req
    }

    /// Apply the lookup's result.  With no linked user the publication step
    /// is skipped entirely, but the redemption is still committed: the chain
    /// state is authoritative.
    pub fn resolve(self, user_found: bool) -> (r: UserResolved)
        ensures
            match r {
                UserResolved::Publish(p) => user_found && p@ == self@,
                UserResolved::Commit(c) => !user_found && c@.req == self@ && c@.publication
                    == Seq::<u8>::empty(),
            },
    {
        if user_found {
            UserResolved::Publish(PublishPending { req: self.req })
        } else {
            UserResolved::Commit(CommitPending { req: self.req, publication: Vec::new() })
        }
    }
}

impl PublishPending {
    /// The request, for making the publication call.
    pub fn request(&self) -> (r: &RedeemRequest)
        ensures
            r@ == self@,
    {
        &self.req
    }

    /// Apply the publication call's result: `Some` carries the external
    /// publication reference, `None` is a transport failure, which aborts
    /// this event's processing (the stream then advances).
    pub fn resolve(self, publication: Option<Vec<u8>>) -> (r: PublishResolved)
        ensures
            match publication {
                Option::Some(p) => r matches PublishResolved::Commit(c) && c@.req == self@
                    && c@.publication == p@,
                Option::None => r matches PublishResolved::Aborted,
            },
    {
        match publication {
            Some(p) => PublishResolved::Commit(CommitPending { req: self.req, publication: p }),
            None => PublishResolved::Aborted,
        }
    }
}

impl CommitPending {
    /// Commit under a caller-supplied record id.
    pub fn commit_with_id(self, store: &mut IndexStore, record_id: Vec<u8>) -> (r: RedeemOutcome)
        requires
            old(store).wf(),
        ensures
            final(store).wf(),
            final(store)@ == redeem_commit_spec(
                old(store)@,
                self@.req.token_id,
                record_id@,
                self@.publication,
                self@.req.policy,
                self@.req.content,
            ),
            r == (if token_live(old(store)@, self@.req.token_id) {
                RedeemOutcome::Redeemed
            } else {
                RedeemOutcome::AlreadyRedeemed
            }),
    {
        store.commit_redemption(
            self.req.token_id,
            record_id,
            self.publication,
            self.req.policy,
            self.req.content,
        )
    }

    /// Commit under a freshly generated record id.
    pub fn commit(self, store: &mut IndexStore) -> (r: RedeemOutcome)
        requires
            old(store).wf(),
        ensures
            final(store).wf(),
            exists|rid: Seq<u8>|
                1 <= rid.len() <= 24 && final(store)@ == redeem_commit_spec(
                    old(store)@,
                    self@.req.token_id,
                    rid,
                    self@.publication,
                    self@.req.policy,
                    self@.req.content,
                ),
            r == (if token_live(old(store)@, self@.req.token_id) {
                RedeemOutcome::Redeemed
            } else {
                RedeemOutcome::AlreadyRedeemed
            }),
    {
        let record_id = fresh_record_id();
        let ghost rid = record_id@;
        let outcome = self.commit_with_id(store, record_id);
        proof {
            assert(1 <= rid.len() <= 24 && store@ == redeem_commit_spec(
                old(store)@,
                self@.req.token_id,
                rid,
                self@.publication,
                self@.req.policy,
                self@.req.content,
            ));
        }
        outcome
    }
}

/// Relies on `cuid::cuid2` (crate `cuid`, delegating to `cuid2::create_id`):
/// a freshly generated random id made of one ASCII starting letter plus a
/// base-36 hash truncated to 23 characters, so between 1 and 24 bytes.
#[verifier::external_body]
fn fresh_record_id() -> (r: Vec<u8>)
    ensures
        1 <= r@.len() <= 24,
{
    cuid::cuid2().into_bytes()
}

/// Where the dispatcher sent an event.
pub enum Dispatched {
    /// A mint confirmation, applied to the store.
    Mint(MintOutcome),
    /// An ownership transfer, applied to the store.
    Transfer(TransferOutcome),
    /// A redemption request: the caller must drive the returned pipeline.
    Redemption(SafetyPending),
    /// An unrecognized event, dropped.
    Skipped,
}

/// Route one decoded event.  Mint confirmations and transfers are applied
/// to the store at once; a redemption request starts the pipeline (the
/// store is untouched until its commit step); unrecognized events are
/// dropped.
pub fn dispatch(store: &mut IndexStore, ev: Event) -> (r: Dispatched)
    requires
        old(store).wf(),
    ensures
        final(store).wf(),
        match ev {
            Event::MintConfirmed { tx_hash, token_id, recipient } => {
                &&& final(store)@ == promote_spec(old(store)@, tx_hash@, token_id, recipient@)
                &&& r matches Dispatched::Mint(o) && o == promote_outcome_spec(
                    old(store)@,
                    tx_hash@,
                )
            },
            Event::OwnershipTransferred { token_id, from, to } => {
                &&& final(store)@ == transfer_spec(old(store)@, token_id, from@, to@)
                &&& r matches Dispatched::Transfer(o) && o == transfer_outcome_spec(
                    old(store)@,
                    token_id,
                    from@,
                    to@,
                )
            },
            Event::RedemptionRequested { token_id, creator_x_id, content, policy } => {
                &&& final(store)@ == old(store)@
                &&& r matches Dispatched::Redemption(p) && p@ == (ReqV {
                    token_id,
                    x_id: creator_x_id,
                    content: content@,
                    policy: policy@,
                })
            },
            Event::Unrecognized => {
                &&& final(store)@ == old(store)@
                &&& r matches Dispatched::Skipped
            },
        },
{
    match ev {
        Event::MintConfirmed { tx_hash, token_id, recipient } => Dispatched::Mint(
            store.apply_mint_confirmed(&tx_hash, token_id, recipient),
        ),
        Event::OwnershipTransferred { token_id, from, to } => Dispatched::Transfer(
            store.apply_transfer(token_id, &from, to),
        ),
        Event::RedemptionRequested { token_id, creator_x_id, content, policy } => {
            Dispatched::Redemption(
                SafetyPending {
                    req: RedeemRequest { token_id, x_id: creator_x_id, content, policy },
                },
            )
        }
        Event::Unrecognized => Dispatched::Skipped,
    }
}

} // verus!
