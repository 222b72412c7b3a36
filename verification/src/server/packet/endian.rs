//! Fixed-width values in network byte order.

use vstd::prelude::*;

verus! {

/// The weight of the byte `k` places from the end: 256 to the power `k`.
pub open spec fn byte_weight(k: nat) -> nat
    decreases k,
{
    if k == 0 {
        1
    } else {
        256 * byte_weight((k - 1) as nat)
    }
}

/// The lowest `n` bytes of `v`, most significant first.
pub open spec fn be_bytes(v: nat, n: nat) -> Seq<u8>
    decreases n,
{
    if n == 0 {
        Seq::empty()
    } else {
        be_bytes(v / 256, (n - 1) as nat).push((v % 256) as u8)
    }
}

/// The number that `s` spells, most significant byte first.
pub open spec fn be_value(s: Seq<u8>) -> nat
    decreases s.len(),
{
    if s.len() == 0 {
        0
    } else {
        256 * be_value(s.drop_last()) + s.last() as nat
    }
}

/// A value that travels as `S` bytes, most significant first.
pub trait BigEndianNumeric<const S: usize>: Copy + Sized {
    /// The bytes of `self` on the wire.
    spec fn spec_to_be_bytes(self) -> Seq<u8>;

    /// The value that `b` stands for.
    spec fn spec_from_be_bytes(b: Seq<u8>) -> Self;

    /// Every value takes `S` bytes and comes back from them unchanged.
    proof fn lemma_be_round_trip(v: Self)
        ensures
            v.spec_to_be_bytes().len() == S,
            Self::spec_from_be_bytes(v.spec_to_be_bytes()) == v,
    ;

    fn _to_be_bytes(self) -> (b: [u8; S])
        ensures
            b@ == self.spec_to_be_bytes(),
    ;

    fn _from_be_bytes(b: [u8; S]) -> (v: Self)
        ensures
            v == Self::spec_from_be_bytes(b@),
    ;
}

/// Writing `n` bytes gives `n` bytes.
pub proof fn lemma_be_bytes_len(v: nat, n: nat)
    ensures
        be_bytes(v, n).len() == n,
    decreases n,
{
    if n > 0 {
        lemma_be_bytes_len(v / 256, (n - 1) as nat);
    }
}

/// What bytes spell is below the weight of the byte in front of them.
pub proof fn lemma_be_value_bound(s: Seq<u8>)
    ensures
        be_value(s) < byte_weight(s.len()),
    decreases s.len(),
{
    if s.len() > 0 {
        lemma_be_value_bound(s.drop_last());
    }
}

/// Reading `n` bytes of `v` back gives `v` without what lies above them.
proof fn lemma_be_value_of_bytes(v: nat, n: nat)
    ensures
        be_value(be_bytes(v, n)) == v % byte_weight(n),
    decreases n,
{
    if n > 0 {
        let m = (n - 1) as nat;
        let head = be_bytes(v / 256, m);
        let s = be_bytes(v, n);
        lemma_be_value_of_bytes(v / 256, m);
        assert(s.drop_last() == head);
        let w = byte_weight(m);
        lemma_be_bytes_len(v / 256, m);
        lemma_be_value_bound(head);
        vstd::arithmetic::div_mod::lemma_mod_breakdown(v as int, 256, w as int);
    }
}

/// Writing the number that `s` spells gives `s` back.
proof fn lemma_be_bytes_of_value(s: Seq<u8>)
    ensures
        be_bytes(be_value(s), s.len()) == s,
    decreases s.len(),
{
    if s.len() > 0 {
        lemma_be_bytes_of_value(s.drop_last());
        let v = be_value(s);
    }
}

/// A signed value read from bytes spells the same bytes when written.
pub proof fn lemma_signed_bytes_round_trip(s: Seq<u8>)
    ensures
        twos_complement(from_twos_complement(be_value(s), s.len()), s.len()) == be_value(s),
        be_bytes(be_value(s), s.len()) == s,
{
    lemma_be_value_bound(s);
    lemma_be_bytes_of_value(s);
}

/// The weights at the widths of the integer types.
pub proof fn lemma_byte_weights()
    ensures
        byte_weight(0) == 1,
        byte_weight(1) == 0x100,
        byte_weight(2) == 0x1_0000,
        byte_weight(4) == 0x1_0000_0000,
        byte_weight(8) == 0x1_0000_0000_0000_0000,
        byte_weight(16) == 0x1_0000_0000_0000_0000_0000_0000_0000_0000,
{
    reveal_with_fuel(byte_weight, 17);
}

proof fn lemma_byte_weight_grows(j: nat, k: nat)
    requires
        j <= k,
    ensures
        byte_weight(j) <= byte_weight(k),
    decreases k,
{
    if j < k {
        lemma_byte_weight_grows(j, (k - 1) as nat);
    }
}

/// The lowest `S` bytes of `x`, most significant first.
fn to_be_array<const S: usize>(x: u128) -> (out: [u8; S])
    ensures
        out@ == be_bytes(x as nat, S as nat),
{
    let mut out: [u8; S] = [0u8; S];
    let mut rest: u128 = x;
    let mut i: usize = S;
    while i > 0
        invariant
            i <= S,
            out@.len() == S,
            be_bytes(x as nat, S as nat) == be_bytes(rest as nat, i as nat) + out@.subrange(
                i as int,
                S as int,
            ),
        decreases i,
    {
        i = i - 1;
        out[i] = (rest % 256) as u8;
        rest = rest / 256;
    }
    out
}

/// The number that the bytes of `b` spell.
fn from_be_array<const S: usize>(b: &[u8; S]) -> (x: u128)
    requires
        S <= 16,
    ensures
        x == be_value(b@),
{
    let mut x: u128 = 0;
    let mut i: usize = 0;
    while i < S
        invariant
            i <= S <= 16,
            b@.len() == S,
            x == be_value(b@.subrange(0, i as int)),
        decreases S - i,
    {
        proof {
            let s = b@.subrange(0, i as int);
            lemma_be_value_bound(s);
            lemma_byte_weight_grows(i as nat, 15);
            reveal_with_fuel(byte_weight, 16);
            let t = b@.subrange(0, i + 1);
            assert(t.drop_last() == s);
        }
        x = x * 256 + b[i] as u128;
        i = i + 1;
    }
    proof {
        assert(b@.subrange(0, S as int) == b@);
    }
    x
}


/// The bit pattern of `v` in `n` bytes of two's complement, read as a
/// natural number.
pub open spec fn twos_complement(v: int, n: nat) -> nat {
    if v >= 0 {
        v as nat
    } else {
        (v + byte_weight(n)) as nat
    }
}

/// The signed value whose bit pattern in `n` bytes is `u`.
pub open spec fn from_twos_complement(u: nat, n: nat) -> int {
    if 2 * u < byte_weight(n) {
        u as int
    } else {
        u - byte_weight(n)
    }
}

proof fn lemma_fits_round_trip(v: nat, n: nat)
    requires
        v < byte_weight(n),
    ensures
        be_bytes(v, n).len() == n,
        be_value(be_bytes(v, n)) == v,
{
    lemma_be_bytes_len(v, n);
    lemma_be_value_of_bytes(v, n);
    vstd::arithmetic::div_mod::lemma_small_mod(v, byte_weight(n));
}

impl BigEndianNumeric<1> for bool {
    open spec fn spec_to_be_bytes(self) -> Seq<u8> {
        seq![if self { 1u8 } else { 0u8 }]
    }

    /// Any byte but zero stands for `true`.
    open spec fn spec_from_be_bytes(b: Seq<u8>) -> Self {
        b[0] != 0
    }

    proof fn lemma_be_round_trip(v: Self) {
    }

    fn _to_be_bytes(self) -> (b: [u8; 1]) {
        let x: u128 = if self { 1 } else { 0 };
        proof {
            reveal_with_fuel(be_bytes, 2);
        }
        to_be_array::<1>(x)
    }

    fn _from_be_bytes(b: [u8; 1]) -> (v: Self) {
        b[0] != 0
    }
}

impl BigEndianNumeric<1> for u8 {
    open spec fn spec_to_be_bytes(self) -> Seq<u8> {
        be_bytes(self as nat, 1)
    }

    open spec fn spec_from_be_bytes(b: Seq<u8>) -> Self {
        be_value(b) as u8
    }

    proof fn lemma_be_round_trip(v: Self) {
        lemma_byte_weights();
        lemma_fits_round_trip(v as nat, 1);
    }

    fn _to_be_bytes(self) -> (b: [u8; 1]) {
        to_be_array::<1>(self as u128)
    }

    fn _from_be_bytes(b: [u8; 1]) -> (v: Self) {
        proof {
            lemma_byte_weights();
            lemma_be_value_bound(b@);
        }
        let x: u128 = from_be_array::<1>(&b);
        x as u8
    }
}

impl BigEndianNumeric<2> for u16 {
    open spec fn spec_to_be_bytes(self) -> Seq<u8> {
        be_bytes(self as nat, 2)
    }

    open spec fn spec_from_be_bytes(b: Seq<u8>) -> Self {
        be_value(b) as u16
    }

    proof fn lemma_be_round_trip(v: Self) {
        lemma_byte_weights();
        lemma_fits_round_trip(v as nat, 2);
    }

    fn _to_be_bytes(self) -> (b: [u8; 2]) {
        to_be_array::<2>(self as u128)
    }

    fn _from_be_bytes(b: [u8; 2]) -> (v: Self) {
        proof {
            lemma_byte_weights();
            lemma_be_value_bound(b@);
        }
        let x: u128 = from_be_array::<2>(&b);
        x as u16
    }
}

impl BigEndianNumeric<4> for u32 {
    open spec fn spec_to_be_bytes(self) -> Seq<u8> {
        be_bytes(self as nat, 4)
    }

    open spec fn spec_from_be_bytes(b: Seq<u8>) -> Self {
        be_value(b) as u32
    }

    proof fn lemma_be_round_trip(v: Self) {
        lemma_byte_weights();
        lemma_fits_round_trip(v as nat, 4);
    }

    fn _to_be_bytes(self) -> (b: [u8; 4]) {
        to_be_array::<4>(self as u128)
    }

    fn _from_be_bytes(b: [u8; 4]) -> (v: Self) {
        proof {
            lemma_byte_weights();
            lemma_be_value_bound(b@);
        }
        let x: u128 = from_be_array::<4>(&b);
        x as u32
    }
}

impl BigEndianNumeric<8> for u64 {
    open spec fn spec_to_be_bytes(self) -> Seq<u8> {
        be_bytes(self as nat, 8)
    }

    open spec fn spec_from_be_bytes(b: Seq<u8>) -> Self {
        be_value(b) as u64
    }

    proof fn lemma_be_round_trip(v: Self) {
        lemma_byte_weights();
        lemma_fits_round_trip(v as nat, 8);
    }

    fn _to_be_bytes(self) -> (b: [u8; 8]) {
        to_be_array::<8>(self as u128)
    }

    fn _from_be_bytes(b: [u8; 8]) -> (v: Self) {
        proof {
            lemma_byte_weights();
            lemma_be_value_bound(b@);
        }
        let x: u128 = from_be_array::<8>(&b);
        x as u64
    }
}

impl BigEndianNumeric<16> for u128 {
    open spec fn spec_to_be_bytes(self) -> Seq<u8> {
        be_bytes(self as nat, 16)
    }

    open spec fn spec_from_be_bytes(b: Seq<u8>) -> Self {
        be_value(b) as u128
    }

    proof fn lemma_be_round_trip(v: Self) {
        lemma_byte_weights();
        lemma_fits_round_trip(v as nat, 16);
    }

    fn _to_be_bytes(self) -> (b: [u8; 16]) {
        to_be_array::<16>(self as u128)
    }

    fn _from_be_bytes(b: [u8; 16]) -> (v: Self) {
        proof {
            lemma_byte_weights();
            lemma_be_value_bound(b@);
        }
        let x: u128 = from_be_array::<16>(&b);
        x
    }
}

impl BigEndianNumeric<1> for i8 {
    open spec fn spec_to_be_bytes(self) -> Seq<u8> {
        be_bytes(twos_complement(self as int, 1), 1)
    }

    open spec fn spec_from_be_bytes(b: Seq<u8>) -> Self {
        from_twos_complement(be_value(b), 1) as i8
    }

    proof fn lemma_be_round_trip(v: Self) {
        lemma_byte_weights();
        lemma_fits_round_trip(twos_complement(v as int, 1), 1);
    }

    fn _to_be_bytes(self) -> (b: [u8; 1]) {
        proof {
            lemma_byte_weights();
        }
        let x: u128 = if self >= 0 {
            self as u128
        } else {
            (self as i128 + 0x100) as u128
        };
        to_be_array::<1>(x)
    }

    fn _from_be_bytes(b: [u8; 1]) -> (v: Self) {
        proof {
            lemma_byte_weights();
            lemma_be_value_bound(b@);
        }
        let x: u128 = from_be_array::<1>(&b);
        if x < 0x80 {
            x as i8
        } else {
            (x as i128 - 0x100) as i8
        }
    }
}

impl BigEndianNumeric<2> for i16 {
    open spec fn spec_to_be_bytes(self) -> Seq<u8> {
        be_bytes(twos_complement(self as int, 2), 2)
    }

    open spec fn spec_from_be_bytes(b: Seq<u8>) -> Self {
        from_twos_complement(be_value(b), 2) as i16
    }

    proof fn lemma_be_round_trip(v: Self) {
        lemma_byte_weights();
        lemma_fits_round_trip(twos_complement(v as int, 2), 2);
    }

    fn _to_be_bytes(self) -> (b: [u8; 2]) {
        proof {
            lemma_byte_weights();
        }
        let x: u128 = if self >= 0 {
            self as u128
        } else {
            (self as i128 + 0x1_0000) as u128
        };
        to_be_array::<2>(x)
    }

    fn _from_be_bytes(b: [u8; 2]) -> (v: Self) {
        proof {
            lemma_byte_weights();
            lemma_be_value_bound(b@);
        }
        let x: u128 = from_be_array::<2>(&b);
        if x < 0x8000 {
            x as i16
        } else {
            (x as i128 - 0x1_0000) as i16
        }
    }
}

impl BigEndianNumeric<4> for i32 {
    open spec fn spec_to_be_bytes(self) -> Seq<u8> {
        be_bytes(twos_complement(self as int, 4), 4)
    }

    open spec fn spec_from_be_bytes(b: Seq<u8>) -> Self {
        from_twos_complement(be_value(b), 4) as i32
    }

    proof fn lemma_be_round_trip(v: Self) {
        lemma_byte_weights();
        lemma_fits_round_trip(twos_complement(v as int, 4), 4);
    }

    fn _to_be_bytes(self) -> (b: [u8; 4]) {
        proof {
            lemma_byte_weights();
        }
        let x: u128 = if self >= 0 {
            self as u128
        } else {
            (self as i128 + 0x1_0000_0000) as u128
        };
        to_be_array::<4>(x)
    }

    fn _from_be_bytes(b: [u8; 4]) -> (v: Self) {
        proof {
            lemma_byte_weights();
            lemma_be_value_bound(b@);
        }
        let x: u128 = from_be_array::<4>(&b);
        if x < 0x8000_0000 {
            x as i32
        } else {
            (x as i128 - 0x1_0000_0000) as i32
        }
    }
}

impl BigEndianNumeric<8> for i64 {
    open spec fn spec_to_be_bytes(self) -> Seq<u8> {
        be_bytes(twos_complement(self as int, 8), 8)
    }

    open spec fn spec_from_be_bytes(b: Seq<u8>) -> Self {
        from_twos_complement(be_value(b), 8) as i64
    }

    proof fn lemma_be_round_trip(v: Self) {
        lemma_byte_weights();
        lemma_fits_round_trip(twos_complement(v as int, 8), 8);
    }

    fn _to_be_bytes(self) -> (b: [u8; 8]) {
        proof {
            lemma_byte_weights();
        }
        let x: u128 = if self >= 0 {
            self as u128
        } else {
            (self as i128 + 0x1_0000_0000_0000_0000) as u128
        };
        to_be_array::<8>(x)
    }

    fn _from_be_bytes(b: [u8; 8]) -> (v: Self) {
        proof {
            lemma_byte_weights();
            lemma_be_value_bound(b@);
        }
        let x: u128 = from_be_array::<8>(&b);
        if x < 0x8000_0000_0000_0000 {
            x as i64
        } else {
            (x as i128 - 0x1_0000_0000_0000_0000) as i64
        }
    }
}

impl BigEndianNumeric<16> for i128 {
    open spec fn spec_to_be_bytes(self) -> Seq<u8> {
        be_bytes(twos_complement(self as int, 16), 16)
    }

    open spec fn spec_from_be_bytes(b: Seq<u8>) -> Self {
        from_twos_complement(be_value(b), 16) as i128
    }

    proof fn lemma_be_round_trip(v: Self) {
        lemma_byte_weights();
        lemma_fits_round_trip(twos_complement(v as int, 16), 16);
    }

    fn _to_be_bytes(self) -> (b: [u8; 16]) {
        proof {
            lemma_byte_weights();
        }
        let x: u128 = if self >= 0 {
            self as u128
        } else {
            (self + 1 + i128::MAX) as u128 + 0x8000_0000_0000_0000_0000_0000_0000_0000
        };
        to_be_array::<16>(x)
    }

    fn _from_be_bytes(b: [u8; 16]) -> (v: Self) {
        proof {
            lemma_byte_weights();
            lemma_be_value_bound(b@);
        }
        let x: u128 = from_be_array::<16>(&b);
        if x < 0x8000_0000_0000_0000_0000_0000_0000_0000 {
            x as i128
        } else {
            (x - 0x8000_0000_0000_0000_0000_0000_0000_0000) as i128 + i128::MIN
        }
    }
}

} // verus!
