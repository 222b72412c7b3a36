//! Variable-length integers.
//!
//! A 32-bit value is cut into groups of seven bits, lowest group first. Each
//! group travels in one byte; the high bit of a byte says that another group
//! follows. Negative values travel as their two's complement bit pattern, so
//! they always take five bytes.

use vstd::prelude::*;
use super::DecodeError;

verus! {

/// The most bytes a 32-bit value can take.
pub const MAX_VARINT_LEN: usize = 5;

/// The weight of group `k`: 128 to the power `k`.
pub open spec fn group_weight(k: nat) -> nat
    decreases k,
{
    if k == 0 {
        1
    } else {
        128 * group_weight((k - 1) as nat)
    }
}

/// The two's complement bit pattern of `v`, read as a natural number.
pub open spec fn unsigned_bits(v: i32) -> nat {
    if v >= 0 {
        v as nat
    } else {
        (v + 0x1_0000_0000) as nat
    }
}

/// The signed value whose bit pattern is `u`, for `u` below 2^32.
pub open spec fn signed_value(u: nat) -> i32 {
    if u < 0x8000_0000 {
        u as i32
    } else {
        (u - 0x1_0000_0000) as i32
    }
}

/// The groups of `u`, lowest first, every byte but the last flagged.
pub open spec fn varint_groups(u: nat) -> Seq<u8>
    decreases u,
{
    if u < 128 {
        seq![u as u8]
    } else {
        seq![(u % 128 + 128) as u8] + varint_groups(u / 128)
    }
}

/// The bytes that stand for `v` on the wire.
pub open spec fn spec_encode_varint(v: i32) -> Seq<u8> {
    varint_groups(unsigned_bits(v))
}

/// How many bytes `spec_encode_varint` gives for `v`.
pub open spec fn varint_size(v: i32) -> nat {
    if v < 0 {
        5
    } else if v < 128 {
        1
    } else if v < 16384 {
        2
    } else if v < 2097152 {
        3
    } else if v < 268435456 {
        4
    } else {
        5
    }
}

/// Looks for the end of the value that starts `s`, given that the bytes
/// before index `i` are all flagged. `Ok(n)` says that the value takes the
/// first `n` bytes.
pub open spec fn varint_span(s: Seq<u8>, i: nat) -> Result<nat, DecodeError>
    decreases 5 - i,
{
    if i >= 5 {
        Err(DecodeError::MalformedVarInt)
    } else if i >= s.len() {
        Err(DecodeError::Truncated)
    } else if s[i as int] < 128 {
        Ok(i + 1)
    } else {
        varint_span(s, i + 1)
    }
}

/// The sum of the first `n` groups of `s`, each with its weight.
pub open spec fn varint_sum(s: Seq<u8>, n: nat) -> nat
    decreases n,
{
    if n == 0 {
        0
    } else {
        varint_sum(s, (n - 1) as nat) + (s[n - 1] % 128) as nat * group_weight((n - 1) as nat)
    }
}

/// The value at the start of `s` and the number of bytes it takes. Groups
/// that reach past bit 31 are cut off; bytes after the value are ignored.
pub open spec fn spec_decode_varint(s: Seq<u8>) -> Result<(i32, nat), DecodeError> {
    match varint_span(s, 0) {
        Ok(n) => Ok((signed_value(varint_sum(s, n) % 0x1_0000_0000), n)),
        Err(e) => Err(e),
    }
}


proof fn lemma_group_weights()
    ensures
        group_weight(0) == 1,
        group_weight(1) == 128,
        group_weight(2) == 16384,
        group_weight(3) == 2097152,
        group_weight(4) == 268435456,
        group_weight(5) == 34359738368,
{
    reveal_with_fuel(group_weight, 6);
}

proof fn lemma_weight_grows(j: nat, k: nat)
    requires
        j <= k,
    ensures
        group_weight(j) <= group_weight(k),
    decreases k,
{
    if j < k {
        lemma_weight_grows(j, (k - 1) as nat);
    }
}

/// The sum of the first `n` groups looks at the first `n` bytes only.
proof fn lemma_sum_prefix(s: Seq<u8>, t: Seq<u8>, n: nat)
    requires
        n <= s.len(),
        n <= t.len(),
        forall|k: int| 0 <= k < n ==> s[k] == t[k],
    ensures
        varint_sum(s, n) == varint_sum(t, n),
    decreases n,
{
    if n > 0 {
        lemma_sum_prefix(s, t, (n - 1) as nat);
    }
}

/// `n` groups sum to less than the weight of group `n`.
proof fn lemma_sum_bound(s: Seq<u8>, n: nat)
    ensures
        varint_sum(s, n) < group_weight(n),
    decreases n,
{
    if n > 0 {
        let m = (n - 1) as nat;
        lemma_sum_bound(s, m);
        let g = (s[n - 1] % 128) as nat;
        let w = group_weight(m);
        assert(g * w <= 127 * w) by (nonlinear_arith)
            requires
                g <= 127,
        ;
    }
}

/// Putting a byte in front multiplies the weight of every group behind it.
proof fn lemma_sum_shift(b: u8, r: Seq<u8>, n: nat)
    requires
        n <= r.len(),
    ensures
        varint_sum(seq![b] + r, n + 1) == (b % 128) as nat + 128 * varint_sum(r, n),
    decreases n,
{
    let s = seq![b] + r;
    if n == 0 {
        assert(group_weight(0) == 1);
        assert(varint_sum(s, 1) == varint_sum(s, 0) + (s[0] % 128) as nat * group_weight(0));
    } else {
        let m = (n - 1) as nat;
        lemma_sum_shift(b, r, m);
        let g = (r[n - 1] % 128) as nat;
        let w = group_weight(m);
        assert(g * (128 * w) == 128 * (g * w)) by (nonlinear_arith);
    }
}

/// Where the first unflagged byte stands, the value ends.
proof fn lemma_span_found(s: Seq<u8>, i: nat, m: nat)
    requires
        i <= m < 5,
        m < s.len(),
        forall|k: int| i <= k < m ==> s[k] >= 128,
        s[m as int] < 128,
    ensures
        varint_span(s, i) == Ok::<nat, DecodeError>(m + 1),
    decreases m - i,
{
    if i < m {
        lemma_span_found(s, i + 1, m);
    }
}

/// What each outcome of the search says about the bytes from `i` on.
proof fn lemma_span_outcome(s: Seq<u8>, i: nat)
    requires
        i <= 5,
        i <= s.len(),
    ensures
        match varint_span(s, i) {
            Ok(n) => {
                &&& i < n <= 5
                &&& n <= s.len()
                &&& s[n - 1] < 128
                &&& forall|k: int| i <= k < n - 1 ==> s[k] >= 128
            },
            Err(DecodeError::MalformedVarInt) => {
                &&& s.len() >= 5
                &&& forall|k: int| i <= k < 5 ==> s[k] >= 128
            },
            Err(DecodeError::Truncated) => {
                &&& s.len() < 5
                &&& forall|k: int| i <= k < s.len() ==> s[k] >= 128
            },
            Err(DecodeError::InvalidUtf8) => false,
        },
    decreases 5 - i,
{
    if i < 5 && i < s.len() && s[i as int] >= 128 {
        lemma_span_outcome(s, i + 1);
    }
}

/// The shape of the groups of `u`: how they are flagged, what they sum to
/// and how their number follows from the size of `u`.
proof fn lemma_groups(u: nat)
    ensures
        varint_groups(u).len() >= 1,
        forall|k: int| 0 <= k < varint_groups(u).len() - 1 ==> varint_groups(u)[k] >= 128,
        varint_groups(u)[varint_groups(u).len() - 1] < 128,
        varint_sum(varint_groups(u), varint_groups(u).len()) == u,
        u < group_weight(varint_groups(u).len()),
        varint_groups(u).len() > 1 ==> u >= group_weight((varint_groups(u).len() - 1) as nat),
    decreases u,
{
    let g = varint_groups(u);
    if u < 128 {
        assert(group_weight(0) == 1);
        assert(varint_sum(g, 1) == varint_sum(g, 0) + (g[0] % 128) as nat * group_weight(0));
    } else {
        let b = (u % 128 + 128) as u8;
        let rest = varint_groups(u / 128);
        lemma_groups(u / 128);
        assert(g == seq![b] + rest);
        lemma_sum_shift(b, rest, rest.len());
        assert(varint_sum(g, g.len()) == u % 128 + 128 * (u / 128));
    }
}

/// Decoding what was encoded gives the value back, whatever bytes follow,
/// and takes exactly the bytes of the encoding. The encoding has the length
/// that `varint_size` names: one byte up to 127, two up to 16383, three up
/// to 2097151, four up to 268435455, five beyond that and below zero.
pub proof fn lemma_varint_round_trip(v: i32, rest: Seq<u8>)
    ensures
        spec_decode_varint(spec_encode_varint(v) + rest) == Ok::<(i32, nat), DecodeError>(
            (v, spec_encode_varint(v).len()),
        ),
        spec_encode_varint(v).len() == varint_size(v),
{
    let u = unsigned_bits(v);
    let g = varint_groups(u);
    let s = g + rest;
    let n = g.len();
    lemma_groups(u);
    lemma_group_weights();
    if n > 5 {
        lemma_weight_grows(5, (n - 1) as nat);
    }
    assert(n <= 5);
    lemma_span_found(s, 0, (n - 1) as nat);
    lemma_sum_prefix(s, g, n);
    assert(varint_sum(s, n) == u);
}

/// No run of bytes that decodes to `v` is shorter than the encoding of `v`.
pub proof fn lemma_varint_minimal(s: Seq<u8>, v: i32, n: nat)
    requires
        spec_decode_varint(s) == Ok::<(i32, nat), DecodeError>((v, n)),
    ensures
        spec_encode_varint(v).len() <= n,
{
    lemma_varint_round_trip(v, Seq::empty());
    lemma_span_outcome(s, 0);
    lemma_sum_bound(s, n);
    lemma_group_weights();
}

/// Five flagged bytes at the start are refused, whatever follows them: the
/// decoder never looks at a sixth byte.
pub proof fn lemma_varint_too_long(s: Seq<u8>)
    requires
        s.len() >= 5,
        forall|k: int| 0 <= k < 5 ==> s[k] >= 128,
    ensures
        spec_decode_varint(s) == Err::<(i32, nat), DecodeError>(DecodeError::MalformedVarInt),
{
    lemma_span_outcome(s, 0);
}

/// The outcome of decoding, said without recursion: the value ends at the
/// first unflagged byte among the first five; without one, the input is
/// malformed if it has five bytes and truncated if it has fewer.
pub proof fn lemma_varint_outcome(s: Seq<u8>)
    ensures
        match spec_decode_varint(s) {
            Ok((v, n)) => {
                &&& 1 <= n <= 5
                &&& n <= s.len()
                &&& s[n - 1] < 128
                &&& forall|k: int| 0 <= k < n - 1 ==> s[k] >= 128
                &&& v == signed_value(varint_sum(s, n) % 0x1_0000_0000)
            },
            Err(e) => {
                &&& forall|k: int| 0 <= k < s.len() && k < 5 ==> s[k] >= 128
                &&& e == DecodeError::MalformedVarInt <==> s.len() >= 5
                &&& e == DecodeError::Truncated <==> s.len() < 5
            },
        },
{
    lemma_span_outcome(s, 0);
}

fn bits_of(v: i32) -> (u: u32)
    ensures
        u == unsigned_bits(v),
{
    if v >= 0 {
        v as u32
    } else {
        (v as i64 + 0x1_0000_0000) as u32
    }
}

fn value_of(u: u32) -> (v: i32)
    ensures
        v == signed_value(u as nat),
{
    if u < 0x8000_0000 {
        u as i32
    } else {
        (u as i64 - 0x1_0000_0000) as i32
    }
}

/// Writes `v` as a variable-length integer.
pub fn encode_varint(v: i32) -> (out: Vec<u8>)
    ensures
        out@ == spec_encode_varint(v),
{
    let mut rest: u32 = bits_of(v);
    let mut out: Vec<u8> = Vec::new();
    while rest >= 128
        invariant
            out@ + varint_groups(rest as nat) == spec_encode_varint(v),
        decreases rest,
    {
        let b: u8 = (rest % 128 + 128) as u8;
        out.push(b);
        rest = rest / 128;
    }
    out.push(rest as u8);
    out
}

/// Reads the variable-length integer at the start of `bytes`. Returns the
/// value and the number of bytes it took.
pub fn decode_varint(bytes: &[u8]) -> (r: Result<(i32, usize), DecodeError>)
    ensures
        spec_decode_varint(bytes@) == match r {
            Ok((v, n)) => Ok::<(i32, nat), DecodeError>((v, n as nat)),
            Err(e) => Err(e),
        },
{
    let mut sum: u64 = 0;
    let mut weight: u64 = 1;
    let mut i: usize = 0;
    proof {
        lemma_group_weights();
    }
    while i < MAX_VARINT_LEN
        invariant
            i <= 5,
            weight == group_weight(i as nat),
            sum == varint_sum(bytes@, i as nat),
            varint_span(bytes@, 0) == varint_span(bytes@, i as nat),
        decreases 5 - i,
    {
        if i >= bytes.len() {
            return Err(DecodeError::Truncated);
        }
        let b: u8 = bytes[i];
        let group: u64 = (b % 128) as u64;
        proof {
            lemma_sum_bound(bytes@, i as nat);
            lemma_weight_grows(i as nat, 4);
            lemma_group_weights();
            assert(group * weight <= 127 * 268435456) by (nonlinear_arith)
                requires
                    group <= 127,
                    weight <= 268435456,
            ;
        }
        sum = sum + group * weight;
        weight = weight * 128;
        i = i + 1;
        if b < 128 {
            let low: u32 = (sum % 0x1_0000_0000) as u32;
            return Ok((value_of(low), i));
        }
    }
    Err(DecodeError::MalformedVarInt)
}

} // verus!
