//! Proof-of-work nonce search.
//!
//! A request carries an `action` byte buffer with a window `[start, end)`
//! into which a candidate nonce is written as one base-16 digit byte
//! (nibble value plus 48) per position, highest nibble first. The buffer is
//! then hashed with SHA-256 and the digest's leading zero bits are counted.
//! The search scans nonces in ascending order and returns the first one
//! whose count reaches the requested target; if none in the range does, it
//! reports `pow = 0` with the nonce range's upper bound.

use vstd::arithmetic::div_mod::{
    lemma_div_denominator, lemma_div_pos_is_pos, lemma_mod_breakdown,
};
use vstd::prelude::*;
use vstd::std_specs::bits::u8_leading_zeros;

verus! {

/// One search job: the buffer to hash, the window `[nonce_bounds.0,
/// nonce_bounds.1)` where nonce digits are written, the inclusive nonce
/// range to scan, and the required number of leading zero bits.
pub struct PowRequest {
    pub action: Vec<u8>,
    pub nonce_bounds: (usize, usize),
    pub nonce_start: u64,
    pub nonce_end: u64,
    pub target_pow: u32,
}

/// The search's answer: the buffer as mutated by the reported nonce, that
/// nonce, and the leading-zero-bit count achieved. `pow == 0` with
/// `nonce == nonce_end` is the in-band signal that no nonce in the range
/// met the target.
pub struct PowResponse {
    pub action: Vec<u8>,
    pub nonce: u64,
    pub pow: u32,
}

/// Mathematical image of a request: the same fields over `Seq` and `int`.
pub ghost struct PowRequestView {
    pub action: Seq<u8>,
    pub nonce_bounds: (int, int),
    pub nonce_start: u64,
    pub nonce_end: u64,
    pub target_pow: u32,
}

impl View for PowRequest {
    type V = PowRequestView;

    open spec fn view(&self) -> PowRequestView {
        PowRequestView {
            action: self.action@,
            nonce_bounds: (self.nonce_bounds.0 as int, self.nonce_bounds.1 as int),
            nonce_start: self.nonce_start,
            nonce_end: self.nonce_end,
            target_pow: self.target_pow,
        }
    }
}

impl PowRequestView {
    /// A request is well formed when the window lies inside the buffer and
    /// the nonce range is not empty.
    pub open spec fn wf(self) -> bool {
        &&& 0 <= self.nonce_bounds.0 <= self.nonce_bounds.1 <= self.action.len()
        &&& self.nonce_start <= self.nonce_end
    }
}

/// 16 to the `k`th power.
pub open spec fn pow16(k: nat) -> int
    decreases k,
{
    if k == 0 {
        1
    } else {
        16 * pow16((k - 1) as nat)
    }
}

pub proof fn lemma_pow16_positive(k: nat)
    ensures
        pow16(k) >= 1,
    decreases k,
{
    if k > 0 {
        lemma_pow16_positive((k - 1) as nat);
    }
}

/// The digit byte that encodes nonce nibble `k` (counting nibbles from the
/// least significant): the nibble's value plus 48.
pub open spec fn nibble_char(nonce: u64, k: nat) -> u8 {
    (48 + (nonce as int / pow16(k)) % 16) as u8
}

pub proof fn lemma_nibble_char_value(nonce: u64, k: nat)
    ensures
        nibble_char(nonce, k) as int == 48 + (nonce as int / pow16(k)) % 16,
        48 <= nibble_char(nonce, k) <= 63,
{
    lemma_pow16_positive(k);
    lemma_div_pos_is_pos(nonce as int, pow16(k));
}

/// `buf` with the window `[start, end)` overwritten by the digits of
/// `nonce`, lowest nibble at position `end - 1`, and every other byte kept.
/// A window narrower than the nonce's width silently drops high nibbles.
pub open spec fn encode_window(buf: Seq<u8>, start: int, end: int, nonce: u64) -> Seq<u8> {
    Seq::new(
        buf.len(),
        |i: int|
            if start <= i < end {
                nibble_char(nonce, (end - 1 - i) as nat)
            } else {
                buf[i]
            },
    )
}

/// Writes the digits of `nonce` into `buffer[start..end]`, one nibble per
/// byte, filling from the last position backward; bytes outside the window
/// are untouched.
pub fn set_nonce_buffer(buffer: &mut Vec<u8>, start: usize, end: usize, nonce: u64)
    requires
        start <= end <= old(buffer).len(),
    ensures
        final(buffer)@ == encode_window(old(buffer)@, start as int, end as int, nonce),
{
    let mut i: usize = end;
    let mut n: u64 = nonce;
    while i > start
        invariant
            start <= i <= end <= buffer.len(),
            buffer@.len() == old(buffer)@.len(),
            n as int == nonce as int / pow16((end - i) as nat),
            forall|j: int|
                i <= j < end ==> buffer@[j] == nibble_char(nonce, (end - 1 - j) as nat),
            forall|j: int|
                0 <= j < buffer@.len() && !(i <= j < end) ==> buffer@[j] == old(buffer)@[j],
        decreases i,
    {
        i = i - 1;
        let ghost k = (end - 1 - i) as nat;
        proof {
            assert(n & 0xF == n % 16 && n & 0xF < 16) by (bit_vector);
            lemma_nibble_char_value(nonce, k);
        }
        let digit: u8 = ((n & 0xF) as u8) + 48;
        assert(digit == nibble_char(nonce, k));
        buffer[i] = digit;
        proof {
            assert(n >> 4 == n / 16) by (bit_vector);
            lemma_pow16_positive(k);
            lemma_div_denominator(nonce as int, pow16(k), 16);
            assert(pow16(k) * 16 == pow16(k + 1));
        }
        n = n >> 4;
    }
    proof {
        assert(buffer@ =~= encode_window(old(buffer)@, start as int, end as int, nonce));
    }
}

/// Leading zero bits of a digest, scanned bytewise from the front: a zero
/// byte contributes 8 and the scan goes on; the first nonzero byte
/// contributes its own leading zeros and ends the scan.
pub open spec fn leading_zero_bits(digest: Seq<u8>) -> int
    decreases digest.len(),
{
    if digest.len() == 0 {
        0
    } else if digest[0] == 0 {
        8 + leading_zero_bits(digest.skip(1))
    } else {
        u8_leading_zeros(digest[0]) as int
    }
}

/// A prefix of zero bytes contributes exactly 8 bits each; the count of the
/// whole digest is that plus the count of the remainder.
proof fn lemma_lzb_zero_prefix(digest: Seq<u8>, i: int)
    requires
        0 <= i <= digest.len(),
        forall|j: int| 0 <= j < i ==> digest[j] == 0,
    ensures
        leading_zero_bits(digest) == 8 * i + leading_zero_bits(digest.skip(i)),
    decreases i,
{
    if i > 0 {
        lemma_lzb_zero_prefix(digest.skip(1), i - 1);
        assert(digest.skip(1).skip(i - 1) =~= digest.skip(i));
    } else {
        assert(digest.skip(0) =~= digest);
    }
}

/// Counts the leading zero bits of `digest` exactly as
/// [`leading_zero_bits`] describes them.
pub fn count_leading_zeroes_bin(digest: &Vec<u8>) -> (count: u32)
    requires
        8 * digest@.len() <= u32::MAX,
    ensures
        count as int == leading_zero_bits(digest@),
{
    broadcast use vstd::std_specs::bits::axiom_u8_leading_zeros;

    let mut count: u32 = 0;
    let mut i: usize = 0;
    loop
        invariant_except_break
            i <= digest@.len(),
            8 * digest@.len() <= u32::MAX,
            count == 8 * i,
            forall|j: int| 0 <= j < i ==> digest@[j] == 0,
        ensures
            count as int == leading_zero_bits(digest@),
        decreases digest@.len() - i,
    {
        if i >= digest.len() {
            proof {
                lemma_lzb_zero_prefix(digest@, i as int);
                assert(digest@.skip(i as int) =~= Seq::<u8>::empty());
            }
            break;
        }
        let byte = digest[i];
        if byte == 0 {
            count = count + 8;
            i = i + 1;
        } else {
            proof {
                lemma_lzb_zero_prefix(digest@, i as int);
                assert(digest@.skip(i as int)[0] == digest@[i as int]);
            }
            count = count + byte.leading_zeros();
            break;
        }
    }
    count
}

/// The SHA-256 digest of a byte sequence. What the digest is takes pages to
/// state, but it is a function of the input alone; the contracts here only
/// ever pass it to [`leading_zero_bits`].
pub uninterp spec fn sha256_of(data: Seq<u8>) -> Seq<u8>;

/// Relies on sha2::Sha256::digest: the SHA-256 digest of the input bytes,
/// always 32 bytes long and a function of the input alone.
#[verifier::external_body]
fn sha256_digest(data: &Vec<u8>) -> (digest: Vec<u8>)
    ensures
        digest@ == sha256_of(data@),
        digest@.len() == 32,
{
    <sha2::Sha256 as sha2::Digest>::digest(data).to_vec()
}

/// The buffer hashed when `nonce` is tried: the request's buffer with the
/// nonce's digits written into the window.
pub open spec fn attempt(v: PowRequestView, nonce: u64) -> Seq<u8> {
    encode_window(v.action, v.nonce_bounds.0, v.nonce_bounds.1, nonce)
}

/// The leading-zero-bit count that trying `nonce` achieves.
pub open spec fn attempt_pow(v: PowRequestView, nonce: u64) -> int {
    leading_zero_bits(sha256_of(attempt(v, nonce)))
}

/// Whether trying `nonce` meets the request's difficulty target.
pub open spec fn qualifies(v: PowRequestView, nonce: u64) -> bool {
    attempt_pow(v, nonce) >= v.target_pow
}

/// The first nonce in `[nonce, v.nonce_end]` that qualifies, scanning
/// upward, or `None` if none in that range does.
pub open spec fn first_qualifying_from(v: PowRequestView, nonce: u64) -> Option<u64>
    decreases v.nonce_end - nonce,
{
    if nonce > v.nonce_end {
        None
    } else if qualifies(v, nonce) {
        Some(nonce)
    } else if nonce == v.nonce_end {
        None
    } else {
        first_qualifying_from(v, (nonce + 1) as u64)
    }
}

/// What the search returns. When some nonce in the range qualifies, the
/// response carries the smallest such nonce, its exact count, and the buffer
/// it was achieved with; otherwise the sentinel `pow == 0` with
/// `nonce == v.nonce_end` and the buffer of that last attempt.
pub open spec fn search_outcome(v: PowRequestView, action: Seq<u8>, nonce: u64, pow: u32) -> bool {
    match first_qualifying_from(v, v.nonce_start) {
        Some(n) => {
            &&& nonce == n
            &&& pow as int == attempt_pow(v, n)
            &&& action == attempt(v, n)
        },
        None => {
            &&& nonce == v.nonce_end
            &&& pow == 0
            &&& action == attempt(v, v.nonce_end)
        },
    }
}

/// A byte-for-byte copy of `src`.
fn copy_bytes(src: &Vec<u8>) -> (copy: Vec<u8>)
    ensures
        copy@ == src@,
{
    let mut copy: Vec<u8> = Vec::new();
    let mut i: usize = 0;
    while i < src.len()
        invariant
            i <= src@.len(),
            copy@ == src@.take(i as int),
        decreases src@.len() - i,
    {
        copy.push(src[i]);
        i = i + 1;
        proof {
            assert(copy@ =~= src@.take(i as int));
        }
    }
    proof {
        assert(src@.take(src@.len() as int) =~= src@);
    }
    copy
}

/// Scans the request's nonce range in ascending order and returns the first
/// qualifying attempt, or the `pow = 0` sentinel at `nonce_end` when the
/// range is exhausted.
pub fn perform_pow(request: &PowRequest) -> (response: PowResponse)
    requires
        request@.wf(),
    ensures
        search_outcome(request@, response.action@, response.nonce, response.pow),
{
    let mut action = copy_bytes(&request.action);
    let start = request.nonce_bounds.0;
    let end = request.nonce_bounds.1;
    let mut nonce = request.nonce_start;
    loop
        invariant_except_break
            request@.wf(),
            start == request.nonce_bounds.0,
            end == request.nonce_bounds.1,
            request.nonce_start <= nonce <= request.nonce_end,
            first_qualifying_from(request@, request.nonce_start) == first_qualifying_from(
                request@,
                nonce,
            ),
            action@.len() == request.action@.len(),
            forall|j: int|
                0 <= j < action@.len() && !(start <= j < end) ==> action@[j]
                    == request.action@[j],
        ensures
            first_qualifying_from(request@, request.nonce_start) is None,
            action@ == attempt(request@, request.nonce_end),
        decreases request.nonce_end - nonce,
    {
        set_nonce_buffer(&mut action, start, end, nonce);
        proof {
            assert(action@ =~= attempt(request@, nonce));
        }
        let digest = sha256_digest(&action);
        let pow = count_leading_zeroes_bin(&digest);
        if pow >= request.target_pow {
            proof {
                assert(first_qualifying_from(request@, nonce) == Some(nonce));
            }
            return PowResponse { action, nonce, pow };
        }
        if nonce == request.nonce_end {
            proof {
                assert(first_qualifying_from(request@, nonce) is None);
            }
            break;
        }
        proof {
            assert(first_qualifying_from(request@, nonce) == first_qualifying_from(
                request@,
                (nonce + 1) as u64,
            ));
        }
        nonce = nonce + 1;
    }
    PowResponse { action, nonce: request.nonce_end, pow: 0 }
}

/// The leading-zero-bit count of any digest lies between 0 and 8 bits per
/// byte.
pub proof fn lemma_lzb_bounds(digest: Seq<u8>)
    ensures
        0 <= leading_zero_bits(digest) <= 8 * digest.len(),
    decreases digest.len(),
{
    broadcast use vstd::std_specs::bits::axiom_u8_leading_zeros;

    if digest.len() > 0 && digest[0] == 0 {
        lemma_lzb_bounds(digest.skip(1));
    }
}

/// What the scan from `i` yields: the smallest qualifying nonce in
/// `[i, v.nonce_end]` if one exists, and `None` exactly when none does.
proof fn lemma_first_from_props(v: PowRequestView, i: u64)
    requires
        i <= v.nonce_end,
    ensures
        match first_qualifying_from(v, i) {
            Some(n) => {
                &&& i <= n <= v.nonce_end
                &&& qualifies(v, n)
                &&& forall|k: u64| i <= k < n ==> !qualifies(v, k)
            },
            None => forall|k: u64| i <= k <= v.nonce_end ==> !qualifies(v, k),
        },
    decreases v.nonce_end - i,
{
    if !qualifies(v, i) && i < v.nonce_end {
        lemma_first_from_props(v, (i + 1) as u64);
    }
}

/// The search is deterministic: two outcomes of the same request agree in
/// every field.
pub proof fn lemma_search_deterministic(
    v: PowRequestView,
    action1: Seq<u8>,
    nonce1: u64,
    pow1: u32,
    action2: Seq<u8>,
    nonce2: u64,
    pow2: u32,
)
    requires
        search_outcome(v, action1, nonce1, pow1),
        search_outcome(v, action2, nonce2, pow2),
    ensures
        action1 == action2,
        nonce1 == nonce2,
        pow1 == pow2,
{
}

/// If any nonce in the request's range qualifies, the outcome carries the
/// smallest qualifying nonce, the exact count it achieves, and the buffer
/// it was achieved with; no smaller nonce in the range qualifies.
pub proof fn lemma_smallest_qualifying_wins(
    v: PowRequestView,
    action: Seq<u8>,
    nonce: u64,
    pow: u32,
    m: u64,
)
    requires
        v.wf(),
        search_outcome(v, action, nonce, pow),
        v.nonce_start <= m <= v.nonce_end,
        qualifies(v, m),
    ensures
        v.nonce_start <= nonce <= m,
        qualifies(v, nonce),
        pow as int == attempt_pow(v, nonce),
        action == attempt(v, nonce),
        forall|k: u64| v.nonce_start <= k < nonce ==> !qualifies(v, k),
{
    lemma_first_from_props(v, v.nonce_start);
}

/// If no nonce in the request's range qualifies, the outcome is the
/// sentinel: `pow == 0`, `nonce == v.nonce_end`, and the buffer of the last
/// attempt.
pub proof fn lemma_exhausted_range(v: PowRequestView, action: Seq<u8>, nonce: u64, pow: u32)
    requires
        v.wf(),
        search_outcome(v, action, nonce, pow),
        forall|k: u64| v.nonce_start <= k <= v.nonce_end ==> !qualifies(v, k),
    ensures
        nonce == v.nonce_end,
        pow == 0,
        action == attempt(v, v.nonce_end),
{
    lemma_first_from_props(v, v.nonce_start);
}

/// A target of zero is met by the very first attempt: the outcome reports
/// `nonce_start` with the count its digest achieves.
pub proof fn lemma_zero_target_immediate(v: PowRequestView, action: Seq<u8>, nonce: u64, pow: u32)
    requires
        v.wf(),
        v.target_pow == 0,
        search_outcome(v, action, nonce, pow),
    ensures
        nonce == v.nonce_start,
        pow as int == attempt_pow(v, v.nonce_start),
        action == attempt(v, v.nonce_start),
{
    lemma_lzb_bounds(sha256_of(attempt(v, v.nonce_start)));
    assert(first_qualifying_from(v, v.nonce_start) == Some(v.nonce_start));
}

/// The number encoded big-endian by the digit bytes in `s[start..end]`,
/// 4 bits per byte, each byte read as its value minus 48.
pub open spec fn decode_window(s: Seq<u8>, start: int, end: int) -> int
    decreases end - start,
{
    if start >= end {
        0
    } else {
        decode_window(s, start, end - 1) * 16 + (s[end - 1] - 48)
    }
}

/// Decoding reads only the window, so it agrees on any two sequences that
/// agree there.
proof fn lemma_decode_window_congruent(s1: Seq<u8>, s2: Seq<u8>, start: int, end: int)
    requires
        forall|j: int| start <= j < end ==> s1[j] == s2[j],
    ensures
        decode_window(s1, start, end) == decode_window(s2, start, end),
    decreases end - start,
{
    if start < end {
        lemma_decode_window_congruent(s1, s2, start, end - 1);
    }
}

/// Shifting the nonce right by one nibble shifts its digits down one
/// position.
proof fn lemma_nibble_div16(nonce: u64, k: nat)
    ensures
        nibble_char(nonce, k + 1) == nibble_char(nonce / 16, k),
{
    lemma_pow16_positive(k);
    lemma_div_denominator(nonce as int, 16, pow16(k));
}

/// Round trip of the nonce encoding: decoding the digits written into
/// `[start, end)` yields the nonce modulo `16^(end - start)` — nibbles that
/// do not fit the window are truncated, everything that fits is recovered.
pub proof fn lemma_encode_decode_round_trip(buf: Seq<u8>, start: int, end: int, nonce: u64)
    requires
        0 <= start <= end <= buf.len(),
    ensures
        decode_window(encode_window(buf, start, end, nonce), start, end) == nonce as int % pow16(
            (end - start) as nat,
        ),
    decreases end - start,
{
    let enc = encode_window(buf, start, end, nonce);
    if start >= end {
        assert(nonce as int % 1 == 0);
    } else {
        let w = (end - start) as nat;
        let m = nonce / 16;
        lemma_nibble_char_value(nonce, 0);
        let enc2 = encode_window(buf, start, end - 1, m);
        assert forall|j: int| start <= j < end - 1 implies enc[j] == enc2[j] by {
            lemma_nibble_div16(nonce, (end - 2 - j) as nat);
        }
        lemma_decode_window_congruent(enc, enc2, start, end - 1);
        lemma_encode_decode_round_trip(buf, start, end - 1, m);
        lemma_pow16_positive((w - 1) as nat);
        lemma_mod_breakdown(nonce as int, 16, pow16((w - 1) as nat));
    }
}

/// The nonce a search outcome reports is recoverable from the window of the
/// buffer it returns, modulo the window's capacity.
pub proof fn lemma_outcome_nonce_round_trip(v: PowRequestView, action: Seq<u8>, nonce: u64, pow: u32)
    requires
        v.wf(),
        search_outcome(v, action, nonce, pow),
    ensures
        decode_window(action, v.nonce_bounds.0, v.nonce_bounds.1) == nonce as int % pow16(
            (v.nonce_bounds.1 - v.nonce_bounds.0) as nat,
        ),
{
    lemma_first_from_props(v, v.nonce_start);
    lemma_encode_decode_round_trip(v.action, v.nonce_bounds.0, v.nonce_bounds.1, nonce);
}

} // verus!
