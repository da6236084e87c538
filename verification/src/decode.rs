//! The event decoder: turns a raw log entry (ordered 32-byte topics plus an
//! opaque payload) into one of the closed event variants, or `Unrecognized`.
//!
//! The first topic carries the event signature.  A log matching no known
//! signature decodes to `Unrecognized` and is silently skipped; a log that
//! matches a known signature but violates that event's field layout is a
//! decode mismatch — an ABI skew — and decodes to an error, which halts
//! ingestion.
//!
//! Layouts, with every integer word big-endian and strictly validated:
//! - mint confirmation: topics `[sig, tokenId]`, data one address word; the
//!   transaction hash comes from the log envelope;
//! - redemption request: topics `[sig, tokenId, xId]`, data the canonical
//!   encoding of two dynamic byte strings (content, policy): two offset
//!   words, then each string as a length word, its bytes, and zero padding
//!   to a 32-byte boundary;
//! - ownership transfer: topics `[sig, from, to, tokenId]`, empty data.
//!
//! Token and account ids wider than 64 bits, and address or integer words
//! with nonzero padding, are layout violations.

use vstd::prelude::*;

use crate::bytes::bytes_eq;
use crate::engine::Event;

verus! {

/// A raw log entry as the subscription delivers it.
pub struct RawLog {
    /// The ordered 32-byte topics; the first carries the event signature.
    pub topics: Vec<Vec<u8>>,
    /// The opaque payload.
    pub data: Vec<u8>,
    /// The hash of the transaction that emitted the log.
    pub tx_hash: Vec<u8>,
}

/// The abstract content of a raw log entry.
#[verifier::ext_equal]
pub struct LogV {
    pub topics: Seq<Seq<u8>>,
    pub data: Seq<u8>,
    pub tx_hash: Seq<u8>,
}

impl View for RawLog {
    type V = LogV;

    open spec fn view(&self) -> LogV {
        LogV { topics: self.topics.deep_view(), data: self.data@, tx_hash: self.tx_hash@ }
    }
}

/// The contract-ABI knowledge the decoder needs: the 32-byte signature of
/// each known event, as configured for the subscribed contract.
pub struct EventSigs {
    /// Signature of the mint-confirmation event.
    pub mint_confirmed: Vec<u8>,
    /// Signature of the redemption-request event.
    pub redemption_requested: Vec<u8>,
    /// Signature of the ownership-transfer event.
    pub ownership_transferred: Vec<u8>,
}

/// The abstract content of the signature table.
#[verifier::ext_equal]
pub struct SigsV {
    pub mint_confirmed: Seq<u8>,
    pub redemption_requested: Seq<u8>,
    pub ownership_transferred: Seq<u8>,
}

impl View for EventSigs {
    type V = SigsV;

    open spec fn view(&self) -> SigsV {
        SigsV {
            mint_confirmed: self.mint_confirmed@,
            redemption_requested: self.redemption_requested@,
            ownership_transferred: self.ownership_transferred@,
        }
    }
}

/// A log matched a known signature but violated its field layout: an ABI
/// mismatch that must halt ingestion rather than corrupt state.
#[derive(Clone, Copy, PartialEq, Eq, Structural, Debug)]
pub enum DecodeError {
    /// Wrong number of topics for the matched signature.
    TopicLayout,
    /// A topic word not shaped as its field requires.
    WordLayout,
    /// A payload of the wrong shape for the matched signature.
    DataLayout,
}

/// The abstract content of a decoded event.
#[verifier::ext_equal]
pub enum EventV {
    MintConfirmed { tx_hash: Seq<u8>, token_id: u64, recipient: Seq<u8> },
    RedemptionRequested { token_id: u64, creator_x_id: u64, content: Seq<u8>, policy: Seq<u8> },
    OwnershipTransferred { token_id: u64, from: Seq<u8>, to: Seq<u8> },
    Unrecognized,
}

impl View for Event {
    type V = EventV;

    open spec fn view(&self) -> EventV {
        match self {
            Event::MintConfirmed { tx_hash, token_id, recipient } => EventV::MintConfirmed {
                tx_hash: tx_hash@,
                token_id: *token_id,
                recipient: recipient@,
            },
            Event::RedemptionRequested { token_id, creator_x_id, content, policy } => {
                EventV::RedemptionRequested {
                    token_id: *token_id,
                    creator_x_id: *creator_x_id,
                    content: content@,
                    policy: policy@,
                }
            },
            Event::OwnershipTransferred { token_id, from, to } => EventV::OwnershipTransferred {
                token_id: *token_id,
                from: from@,
                to: to@,
            },
            Event::Unrecognized => EventV::Unrecognized,
        }
    }
}

/// The view of a decode result.
pub open spec fn result_view(r: Result<Event, DecodeError>) -> Result<EventV, DecodeError> {
    match r {
        Result::Ok(ev) => Result::Ok(ev@),
        Result::Err(e) => Result::Err(e),
    }
}

// ---------------------------------------------------------------------------
// Word shapes.
// ---------------------------------------------------------------------------

/// The big-endian value of a byte string.
pub open spec fn be_bytes_val(w: Seq<u8>) -> nat
    decreases w.len(),
{
    if w.len() == 0 {
        0
    } else {
        (be_bytes_val(w.drop_last()) * 256 + w.last()) as nat
    }
}

/// 256 to the `k`-th power.
pub open spec fn pow256(k: nat) -> nat
    decreases k,
{
    if k == 0 {
        1
    } else {
        256 * pow256((k - 1) as nat)
    }
}

/// The big-endian value of a byte string stays under 256^length.
pub proof fn lemma_be_bytes_val_bound(w: Seq<u8>)
    ensures
        be_bytes_val(w) < pow256(w.len()),
    decreases w.len(),
{
    if w.len() > 0 {
        lemma_be_bytes_val_bound(w.drop_last());
    }
}

/// The first few powers of 256, spelled out.
pub proof fn lemma_pow256_values()
    ensures
        pow256(0) == 1,
        pow256(1) == 256,
        pow256(2) == 65536,
        pow256(3) == 16777216,
        pow256(4) == 4294967296,
        pow256(5) == 1099511627776,
        pow256(6) == 281474976710656,
        pow256(7) == 72057594037927936,
        pow256(8) == 18446744073709551616,
{
    assert(pow256(0) == 1);
    assert(pow256(1) == 256);
    assert(pow256(2) == 65536);
    assert(pow256(3) == 16777216);
    assert(pow256(4) == 4294967296);
    assert(pow256(5) == 1099511627776);
    assert(pow256(6) == 281474976710656);
    assert(pow256(7) == 72057594037927936);
    assert(pow256(8) == 18446744073709551616);
}

/// Powers of 256 do not decrease.
pub proof fn lemma_pow256_increases(a: nat, b: nat)
    requires
        a <= b,
    ensures
        pow256(a) <= pow256(b),
    decreases b,
{
    if a < b {
        lemma_pow256_increases(a, (b - 1) as nat);
    }
}

/// A 32-byte word carrying an unsigned integer that fits 64 bits: the 24
/// leading bytes are zero.
pub open spec fn word_u64_ok(w: Seq<u8>) -> bool {
    w.len() == 32 && forall|i: int| 0 <= i < 24 ==> w[i] == 0
}

/// The integer such a word carries.
pub open spec fn word_u64_val(w: Seq<u8>) -> nat {
    be_bytes_val(w.subrange(24, 32))
}

/// A 32-byte word carrying an address: the 12 leading bytes are zero.
pub open spec fn word_addr_ok(w: Seq<u8>) -> bool {
    w.len() == 32 && forall|i: int| 0 <= i < 12 ==> w[i] == 0
}

/// The 20-byte address such a word carries.
pub open spec fn word_addr(w: Seq<u8>) -> Seq<u8> {
    w.subrange(12, 32)
}

/// `n` rounded up to a multiple of 32.
pub open spec fn pad32(n: nat) -> nat {
    if n % 32 == 0 {
        n
    } else {
        (n + (32 - n % 32)) as nat
    }
}

/// All bytes of `d` in `[from, to)` are zero.
pub open spec fn zero_padded(d: Seq<u8>, from: int, to: int) -> bool {
    forall|i: int| from <= i < to ==> d[i] == 0
}

// ---------------------------------------------------------------------------
// Per-event layouts.
// ---------------------------------------------------------------------------

/// Decode of a log matching the mint-confirmation signature.
pub open spec fn decode_mint_spec(topics: Seq<Seq<u8>>, data: Seq<u8>, tx_hash: Seq<u8>) -> Result<
    EventV,
    DecodeError,
> {
    if topics.len() != 2 {
        Result::Err(DecodeError::TopicLayout)
    } else if !word_u64_ok(topics[1]) {
        Result::Err(DecodeError::WordLayout)
    } else if !(data.len() == 32 && word_addr_ok(data)) {
        Result::Err(DecodeError::DataLayout)
    } else {
        Result::Ok(
            EventV::MintConfirmed {
                tx_hash: tx_hash,
                token_id: word_u64_val(topics[1]) as u64,
                recipient: word_addr(data),
            },
        )
    }
}

/// Decode of a log matching the ownership-transfer signature.
pub open spec fn decode_transfer_spec(topics: Seq<Seq<u8>>, data: Seq<u8>) -> Result<
    EventV,
    DecodeError,
> {
    if topics.len() != 4 {
        Result::Err(DecodeError::TopicLayout)
    } else if !(word_addr_ok(topics[1]) && word_addr_ok(topics[2]) && word_u64_ok(topics[3])) {
        Result::Err(DecodeError::WordLayout)
    } else if data.len() != 0 {
        Result::Err(DecodeError::DataLayout)
    } else {
        Result::Ok(
            EventV::OwnershipTransferred {
                token_id: word_u64_val(topics[3]) as u64,
                from: word_addr(topics[1]),
                to: word_addr(topics[2]),
            },
        )
    }
}

/// The canonical payload of a redemption request: two offset words (the
/// first exactly 64), then the content string (length word, bytes, zero
/// padding to a 32-byte boundary) and the policy string likewise, with
/// nothing after.
pub open spec fn redeem_data_ok(d: Seq<u8>) -> bool {
    &&& d.len() >= 96
    &&& word_u64_ok(d.subrange(0, 32))
    &&& word_u64_val(d.subrange(0, 32)) == 64
    &&& word_u64_ok(d.subrange(32, 64))
    &&& word_u64_ok(d.subrange(64, 96))
    &&& ({
        let lc = word_u64_val(d.subrange(64, 96));
        let off_p = 96 + pad32(lc);
        &&& off_p + 32 <= d.len()
        &&& word_u64_val(d.subrange(32, 64)) == off_p
        &&& zero_padded(d, 96 + lc as int, off_p as int)
        &&& word_u64_ok(d.subrange(off_p as int, off_p as int + 32))
        &&& ({
            let lp = word_u64_val(d.subrange(off_p as int, off_p as int + 32));
            &&& d.len() == off_p + 32 + pad32(lp)
            &&& zero_padded(d, off_p as int + 32 + lp as int, d.len() as int)
        })
    })
}

/// The content string of a canonical redemption payload.
pub open spec fn redeem_content(d: Seq<u8>) -> Seq<u8> {
    d.subrange(96, 96 + word_u64_val(d.subrange(64, 96)) as int)
}

/// The policy string of a canonical redemption payload.
pub open spec fn redeem_policy(d: Seq<u8>) -> Seq<u8> {
    let off_p = 96 + pad32(word_u64_val(d.subrange(64, 96)));
    let lp = word_u64_val(d.subrange(off_p as int, off_p as int + 32));
    d.subrange(off_p as int + 32, off_p as int + 32 + lp as int)
}

/// Decode of a log matching the redemption-request signature.
pub open spec fn decode_redeem_spec(topics: Seq<Seq<u8>>, data: Seq<u8>) -> Result<
    EventV,
    DecodeError,
> {
    if topics.len() != 3 {
        Result::Err(DecodeError::TopicLayout)
    } else if !(word_u64_ok(topics[1]) && word_u64_ok(topics[2])) {
        Result::Err(DecodeError::WordLayout)
    } else if !redeem_data_ok(data) {
        Result::Err(DecodeError::DataLayout)
    } else {
        Result::Ok(
            EventV::RedemptionRequested {
                token_id: word_u64_val(topics[1]) as u64,
                creator_x_id: word_u64_val(topics[2]) as u64,
                content: redeem_content(data),
                policy: redeem_policy(data),
            },
        )
    }
}

/// Decode of a raw log entry against the signature table.  A log with no
/// topics, a first topic that is not 32 bytes, or a first topic matching no
/// known signature is `Unrecognized`.
pub open spec fn decode_spec(sigs: SigsV, log: LogV) -> Result<EventV, DecodeError> {
    if log.topics.len() == 0 || log.topics[0].len() != 32 {
        Result::Ok(EventV::Unrecognized)
    } else if log.topics[0] == sigs.mint_confirmed {
        decode_mint_spec(log.topics, log.data, log.tx_hash)
    } else if log.topics[0] == sigs.redemption_requested {
        decode_redeem_spec(log.topics, log.data)
    } else if log.topics[0] == sigs.ownership_transferred {
        decode_transfer_spec(log.topics, log.data)
    } else {
        Result::Ok(EventV::Unrecognized)
    }
}

// ---------------------------------------------------------------------------
// Executable decoding.
// ---------------------------------------------------------------------------

/// Read the 64-bit integer carried by the word at `off`, or `None` when the
/// word's 24 leading bytes are not all zero.
fn word_u64_range(d: &Vec<u8>, off: usize) -> (r: Option<u64>)
    requires
        off + 32 <= d.len(),
    ensures
        match r {
            Option::Some(v) => word_u64_ok(d@.subrange(off as int, off as int + 32)) && v
                == word_u64_val(d@.subrange(off as int, off as int + 32)),
            Option::None => !word_u64_ok(d@.subrange(off as int, off as int + 32)),
        },
{
    let ghost w = d@.subrange(off as int, off as int + 32);
    let mut i: usize = 0;
    while i < 24
        invariant
            off + 32 <= d.len(),
            i <= 24,
            w == d@.subrange(off as int, off as int + 32),
            forall|j: int| 0 <= j < i ==> w[j] == 0,
        decreases 24 - i,
    {
        if d[off + i] != 0 {
            proof {
                assert(w[i as int] == d@[off + i]);
            }
            return None;
        }
        proof {
            assert(w[i as int] == d@[off + i]);
        }
        i = i + 1;
    }
    let mut v: u64 = 0;
    let mut k: usize = 0;
    while k < 8
        invariant
            off + 32 <= d.len(),
            k <= 8,
            w == d@.subrange(off as int, off as int + 32),
            v == be_bytes_val(w.subrange(24, 24 + k as int)),
            (v as nat) < pow256(k as nat),
        decreases 8 - k,
    {
        proof {
            lemma_pow256_values();
            lemma_pow256_increases(k as nat, 7);
            assert(w.subrange(24, 24 + k as int + 1).drop_last() =~= w.subrange(24, 24 + k as int));
            assert(w.subrange(24, 24 + k as int + 1).last() == w[24 + k as int]);
            assert(w[24 + k as int] == d@[off + 24 + k as int]);
        }
        v = v * 256 + (d[off + 24 + k] as u64);
        k = k + 1;
    }
    proof {
        assert(w.subrange(24, 32) =~= w.subrange(24, 24 + 8 as int));
        assert(word_u64_ok(w));
    }
    Some(v)
}

/// Read the address carried by the word at `off`, or `None` when the word's
/// 12 leading bytes are not all zero.
fn word_addr_range(d: &Vec<u8>, off: usize) -> (r: Option<Vec<u8>>)
    requires
        off + 32 <= d.len(),
    ensures
        match r {
            Option::Some(a) => word_addr_ok(d@.subrange(off as int, off as int + 32)) && a@
                == word_addr(d@.subrange(off as int, off as int + 32)),
            Option::None => !word_addr_ok(d@.subrange(off as int, off as int + 32)),
        },
{
    let ghost w = d@.subrange(off as int, off as int + 32);
    let mut i: usize = 0;
    while i < 12
        invariant
            off + 32 <= d.len(),
            i <= 12,
            w == d@.subrange(off as int, off as int + 32),
            forall|j: int| 0 <= j < i ==> w[j] == 0,
        decreases 12 - i,
    {
        if d[off + i] != 0 {
            proof {
                assert(w[i as int] == d@[off + i]);
            }
            return None;
        }
        proof {
            assert(w[i as int] == d@[off + i]);
        }
        i = i + 1;
    }
    let mut a: Vec<u8> = Vec::new();
    let mut j: usize = 12;
    while j < 32
        invariant
            off + 32 <= d.len(),
            12 <= j <= 32,
            w == d@.subrange(off as int, off as int + 32),
            a@ == w.subrange(12, j as int),
        decreases 32 - j,
    {
        a.push(d[off + j]);
        proof {
            assert(w[j as int] == d@[off + j]);
            assert(a@ =~= w.subrange(12, j as int + 1));
        }
        j = j + 1;
    }
    proof {
        assert(word_addr_ok(w));
        assert(a@ =~= word_addr(w));
    }
    Some(a)
}

/// Whether all bytes of `d` in `[from, to)` are zero.
fn zero_range(d: &Vec<u8>, from: usize, to: usize) -> (r: bool)
    requires
        from <= to <= d.len(),
    ensures
        r == zero_padded(d@, from as int, to as int),
{
    let mut i: usize = from;
    while i < to
        invariant
            from <= i <= to <= d.len(),
            forall|j: int| from <= j < i ==> d@[j] == 0,
        decreases to - i,
    {
        if d[i] != 0 {
            return false;
        }
        i = i + 1;
    }
    true
}

/// A fresh vector holding `d[from .. from + len]`.
fn copy_range(d: &Vec<u8>, from: usize, len: usize) -> (r: Vec<u8>)
    requires
        from + len <= d.len(),
    ensures
        r@ == d@.subrange(from as int, from as int + len as int),
{
    let mut r: Vec<u8> = Vec::new();
    let mut i: usize = 0;
    while i < len
        invariant
            from + len <= d.len(),
            i <= len,
            r@ == d@.subrange(from as int, from as int + i as int),
        decreases len - i,
    {
        r.push(d[from + i]);
        proof {
            assert(r@ =~= d@.subrange(from as int, from as int + i as int + 1));
        }
        i = i + 1;
    }
    r
}

fn decode_mint(log: &RawLog) -> (r: Result<Event, DecodeError>)
    ensures
        result_view(r) == decode_mint_spec(log@.topics, log@.data, log@.tx_hash),
{
    if log.topics.len() != 2 {
        return Err(DecodeError::TopicLayout);
    }
    let t1 = &log.topics[1];
    proof {
        assert(log@.topics[1] == t1@);
    }
    if t1.len() != 32 {
        return Err(DecodeError::WordLayout);
    }
    let token_id = match word_u64_range(t1, 0) {
        Some(v) => {
            proof {
                assert(t1@.subrange(0, 32) =~= t1@);
            }
            v
        }
        None => {
            proof {
                assert(t1@.subrange(0, 32) =~= t1@);
            }
            return Err(DecodeError::WordLayout);
        }
    };
    if log.data.len() != 32 {
        return Err(DecodeError::DataLayout);
    }
    let recipient = match word_addr_range(&log.data, 0) {
        Some(a) => {
            proof {
                assert(log.data@.subrange(0, 32) =~= log.data@);
            }
            a
        }
        None => {
            proof {
                assert(log.data@.subrange(0, 32) =~= log.data@);
            }
            return Err(DecodeError::DataLayout);
        }
    };
    let tx_hash = crate::bytes::copy_bytes(&log.tx_hash);
    Ok(Event::MintConfirmed { tx_hash, token_id, recipient })
}

fn decode_transfer(log: &RawLog) -> (r: Result<Event, DecodeError>)
    ensures
        result_view(r) == decode_transfer_spec(log@.topics, log@.data),
{
    if log.topics.len() != 4 {
        return Err(DecodeError::TopicLayout);
    }
    let t1 = &log.topics[1];
    let t2 = &log.topics[2];
    let t3 = &log.topics[3];
    proof {
        assert(log@.topics[1] == t1@);
        assert(log@.topics[2] == t2@);
        assert(log@.topics[3] == t3@);
    }
    if t1.len() != 32 || t2.len() != 32 || t3.len() != 32 {
        return Err(DecodeError::WordLayout);
    }
    proof {
        assert(t1@.subrange(0, 32) =~= t1@);
        assert(t2@.subrange(0, 32) =~= t2@);
        assert(t3@.subrange(0, 32) =~= t3@);
    }
    let from = match word_addr_range(t1, 0) {
        Some(a) => a,
        None => {
            return Err(DecodeError::WordLayout);
        }
    };
    let to = match word_addr_range(t2, 0) {
        Some(a) => a,
        None => {
            return Err(DecodeError::WordLayout);
        }
    };
    let token_id = match word_u64_range(t3, 0) {
        Some(v) => v,
        None => {
            return Err(DecodeError::WordLayout);
        }
    };
    if log.data.len() != 0 {
        return Err(DecodeError::DataLayout);
    }
    Ok(Event::OwnershipTransferred { token_id, from, to })
}

fn decode_redeem(log: &RawLog) -> (r: Result<Event, DecodeError>)
    ensures
        result_view(r) == decode_redeem_spec(log@.topics, log@.data),
{
    if log.topics.len() != 3 {
        return Err(DecodeError::TopicLayout);
    }
    let t1 = &log.topics[1];
    let t2 = &log.topics[2];
    proof {
        assert(log@.topics[1] == t1@);
        assert(log@.topics[2] == t2@);
    }
    if t1.len() != 32 || t2.len() != 32 {
        return Err(DecodeError::WordLayout);
    }
    proof {
        assert(t1@.subrange(0, 32) =~= t1@);
        assert(t2@.subrange(0, 32) =~= t2@);
    }
    let token_id = match word_u64_range(t1, 0) {
        Some(v) => v,
        None => {
            return Err(DecodeError::WordLayout);
        }
    };
    let creator_x_id = match word_u64_range(t2, 0) {
        Some(v) => v,
        None => {
            return Err(DecodeError::WordLayout);
        }
    };
    let d = &log.data;
    if d.len() < 128 {
        // A canonical payload holds at least the two offset words and the
        // two length words.
        proof {
            if redeem_data_ok(d@) {
                let lc = word_u64_val(d@.subrange(64, 96));
                assert(96 + pad32(lc) + 32 <= d@.len());
            }
        }
        return Err(DecodeError::DataLayout);
    }
    let off_c = match word_u64_range(d, 0) {
        Some(v) => v,
        None => {
            return Err(DecodeError::DataLayout);
        }
    };
    if off_c != 64 {
        return Err(DecodeError::DataLayout);
    }
    let off_p = match word_u64_range(d, 32) {
        Some(v) => v,
        None => {
            return Err(DecodeError::DataLayout);
        }
    };
    let lc64 = match word_u64_range(d, 64) {
        Some(v) => v,
        None => {
            return Err(DecodeError::DataLayout);
        }
    };
    let ghost lc_spec = word_u64_val(d@.subrange(64, 96));
    if lc64 > (d.len() - 128) as u64 {
        proof {
            if redeem_data_ok(d@) {
                assert(pad32(lc_spec) >= lc_spec);
                assert(96 + pad32(lc_spec) + 32 <= d@.len());
            }
        }
        return Err(DecodeError::DataLayout);
    }
    let lc = lc64 as usize;
    proof {
        assert(lc == lc_spec);
    }
    let pad_c = if lc % 32 == 0 {
        lc
    } else {
        lc + (32 - lc % 32)
    };
    proof {
        assert(pad_c == pad32(lc_spec));
    }
    if pad_c > d.len() - 128 {
        return Err(DecodeError::DataLayout);
    }
    let off_p_expect = 96 + pad_c;
    if off_p != off_p_expect as u64 {
        return Err(DecodeError::DataLayout);
    }
    if !zero_range(d, 96 + lc, 96 + pad_c) {
        return Err(DecodeError::DataLayout);
    }
    let lp64 = match word_u64_range(d, off_p_expect) {
        Some(v) => v,
        None => {
            return Err(DecodeError::DataLayout);
        }
    };
    let ghost lp_spec = word_u64_val(
        d@.subrange(off_p_expect as int, off_p_expect as int + 32),
    );
    let rem = d.len() - (off_p_expect + 32);
    if lp64 > rem as u64 {
        proof {
            if redeem_data_ok(d@) {
                assert(pad32(lp_spec) >= lp_spec);
                assert(d@.len() == 96 + pad32(lc_spec) + 32 + pad32(lp_spec));
            }
        }
        return Err(DecodeError::DataLayout);
    }
    let lp = lp64 as usize;
    proof {
        assert(lp == lp_spec);
    }
    let pad_p = if lp % 32 == 0 {
        lp
    } else {
        lp + (32 - lp % 32)
    };
    proof {
        assert(pad_p == pad32(lp_spec));
    }
    if pad_p != rem {
        return Err(DecodeError::DataLayout);
    }
    if !zero_range(d, off_p_expect + 32 + lp, d.len()) {
        return Err(DecodeError::DataLayout);
    }
    proof {
        assert(redeem_data_ok(d@));
    }
    let content = copy_range(d, 96, lc);
    let policy = copy_range(d, off_p_expect + 32, lp);
    proof {
        assert(content@ == redeem_content(d@));
        assert(policy@ == redeem_policy(d@));
    }
    Ok(Event::RedemptionRequested { token_id, creator_x_id, content, policy })
}

/// Decode one raw log entry against the configured signature table.
///
/// Returns the typed variant for a log matching a known signature with the
/// expected layout, `Ok(Unrecognized)` for any unrelated log, and an error
/// exactly when the first topic matches a known signature but the log
/// violates that event's layout.
pub fn decode_event(sigs: &EventSigs, log: &RawLog) -> (r: Result<Event, DecodeError>)
    ensures
        result_view(r) == decode_spec(sigs@, log@),
{
    if log.topics.len() == 0 {
        return Ok(Event::Unrecognized);
    }
    let t0 = &log.topics[0];
    proof {
        assert(log@.topics[0] == t0@);
    }
    if t0.len() != 32 {
        return Ok(Event::Unrecognized);
    }
    if bytes_eq(t0, &sigs.mint_confirmed) {
        decode_mint(log)
    } else if bytes_eq(t0, &sigs.redemption_requested) {
        decode_redeem(log)
    } else if bytes_eq(t0, &sigs.ownership_transferred) {
        decode_transfer(log)
    } else {
        Ok(Event::Unrecognized)
    }
}

} // verus!
