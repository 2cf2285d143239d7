//! The NAND primitive and the combinational gate library derived from it.
use vstd::prelude::*;

verus! {

use crate::logic::bit::{I, O};

/// A two-valued logic signal: `O` is false, `I` is true.
#[derive(Debug, Copy, Clone, Eq, PartialEq, Structural)]
pub enum bit {
    O,
    I,
}

/// Truth table of the primitive NAND gate: `O` only when both inputs are `I`.
pub open spec fn spec_nand(a: bit, b: bit) -> bit {
    if a == I && b == I {
        O
    } else {
        I
    }
}

/// Logical negation.
pub open spec fn spec_not(a: bit) -> bit {
    if a == I {
        O
    } else {
        I
    }
}

/// The sole primitive gate; every other gate is a composition of `Nand` calls.
pub fn Nand(a: bit, b: bit) -> (r: bit)
    ensures
        r == spec_nand(a, b),
{
    match a {
        O => match b {
            O => I,
            I => I,
        },
        I => match b {
            O => I,
            I => O,
        },
    }
}

/// Negation, derived as `Nand(a, a)`.
pub fn Not(a: bit) -> (r: bit)
    ensures
        r == spec_not(a),
{
    Nand(a, a)
}

/// Logical conjunction.
pub open spec fn spec_and(a: bit, b: bit) -> bit {
    if a == I && b == I {
        I
    } else {
        O
    }
}

/// Logical disjunction.
pub open spec fn spec_or(a: bit, b: bit) -> bit {
    if a == I || b == I {
        I
    } else {
        O
    }
}

/// Exclusive or: `I` exactly when the inputs differ.
pub open spec fn spec_xor(a: bit, b: bit) -> bit {
    if a != b {
        I
    } else {
        O
    }
}

/// Two-way selection: `a` when `sel` is `O`, `b` when `sel` is `I`.
pub open spec fn spec_mux(a: bit, b: bit, sel: bit) -> bit {
    if sel == I {
        b
    } else {
        a
    }
}

pub fn And(a: bit, b: bit) -> (r: bit)
    ensures
        r == spec_and(a, b),
{
    Nand(Nand(a, b), Nand(a, b))
}

pub fn Or(a: bit, b: bit) -> (r: bit)
    ensures
        r == spec_or(a, b),
{
    Nand(Nand(a, a), Nand(b, b))
}

pub fn Xor(a: bit, b: bit) -> (r: bit)
    ensures
        r == spec_xor(a, b),
{
    Or(And(a, Not(b)), And(b, Not(a)))
}

pub fn Mux(a: bit, b: bit, sel: bit) -> (r: bit)
    ensures
        r == spec_mux(a, b, sel),
{
    Or(And(a, Not(sel)), And(b, sel))
}

/// Routes `inc` to the output selected by `sel`; the other output is `O`.
pub fn DMux(inc: bit, sel: bit) -> (r: [bit; 2])
    ensures
        r@[0] == (if sel == O { inc } else { O }),
        r@[1] == (if sel == I { inc } else { O }),
{
    [And(inc, Not(sel)), And(inc, sel)]
}

/// Numeric weight of one bit: `I` counts 1, `O` counts 0.
pub open spec fn b2i(b: bit) -> int {
    if b == I {
        1
    } else {
        0
    }
}

/// An ordered, fixed-length sequence of exactly 16 bits, index 0 the
/// most-significant (sign) bit and index 15 the least-significant bit,
/// read as a two's-complement word.
#[derive(Debug, Copy, Clone, Eq, PartialEq)]
pub struct Word([bit; 16]);

impl View for Word {
    type V = Seq<bit>;

    closed spec fn view(&self) -> Seq<bit> {
        self.0@
    }
}

/// Every `Word` holds exactly 16 bits.
pub broadcast proof fn lemma_word_len(w: Word)
    ensures
        (#[trigger] w@).len() == 16,
{
}

impl Word {
    pub fn new(a: [bit; 16]) -> (r: Self)
        ensures
            r@ == a@,
    {
        Word(a)
    }

    /// The bits of the word, most significant first.
    pub fn to_slice(&self) -> (r: [bit; 16])
        ensures
            r@ == self@,
    {
        self.0
    }

    /// The bit at position `index`, position 0 being the sign bit.
    pub fn get(&self, index: usize) -> (r: bit)
        requires
            index < 16,
        ensures
            r == self@[index as int],
    {
        self.0[index]
    }
}

/// The unsigned value of a 16-bit sequence, most significant bit first.
pub open spec fn wval(s: Seq<bit>) -> int
    recommends
        s.len() == 16,
{
    32768 * b2i(s[0]) + 16384 * b2i(s[1]) + 8192 * b2i(s[2]) + 4096 * b2i(s[3]) + 2048 * b2i(s[4])
        + 1024 * b2i(s[5]) + 512 * b2i(s[6]) + 256 * b2i(s[7]) + 128 * b2i(s[8]) + 64 * b2i(s[9])
        + 32 * b2i(s[10]) + 16 * b2i(s[11]) + 8 * b2i(s[12]) + 4 * b2i(s[13]) + 2 * b2i(s[14])
        + b2i(s[15])
}

/// The binary digit of `n` at the place whose weight is `p`.
pub open spec fn bit_of(n: int, p: int) -> bit {
    if (n / p) % 2 == 1 {
        I
    } else {
        O
    }
}

/// The weight of bit position `i` in a 16-bit word: 2^(15 - i).
pub open spec fn place(i: int) -> int {
    if i == 0 {
        32768
    } else     if i == 1 {
        16384
    } else     if i == 2 {
        8192
    } else     if i == 3 {
        4096
    } else     if i == 4 {
        2048
    } else     if i == 5 {
        1024
    } else     if i == 6 {
        512
    } else     if i == 7 {
        256
    } else     if i == 8 {
        128
    } else     if i == 9 {
        64
    } else     if i == 10 {
        32
    } else     if i == 11 {
        16
    } else     if i == 12 {
        8
    } else     if i == 13 {
        4
    } else     if i == 14 {
        2
    } else {
        1
    }
}

/// The 16-bit sequence whose unsigned value is `n`, for `0 <= n < 65536`.
pub open spec fn wbits(n: int) -> Seq<bit> {
    Seq::new(16, |i: int| bit_of(n, place(i)))
}

/// The unsigned value of a 16-bit sequence lies below 2^16.
pub proof fn lemma_wval_bounds(s: Seq<bit>)
    requires
        s.len() == 16,
    ensures
        0 <= wval(s) < 65536,
{
}

/// Digit extraction: if `v` splits as `hi` double-places above `p`, the digit
/// `b` at place `p`, and a remainder below `p`, then dividing by the place
/// weight and reducing modulo 2 recovers the digit.
proof fn lemma_bit_extract(v: int, p: int, hi: int, b: int, lo: int)
    requires
        p >= 1,
        0 <= lo < p,
        0 <= b <= 1,
        hi >= 0,
        v == hi * (2 * p) + b * p + lo,
    ensures
        (v / p) % 2 == b,
{
    assert((2 * hi + b) * p + lo == hi * (2 * p) + b * p + lo) by (nonlinear_arith);
    vstd::arithmetic::div_mod::lemma_fundamental_div_mod_converse(v, p, 2 * hi + b, lo);
    vstd::arithmetic::div_mod::lemma_fundamental_div_mod_converse(2 * hi + b, 2, hi, b);
}

/// All 16 binary digits of a 16-digit sum, recovered by place value.
proof fn lemma_digits(
    v: int,
    n0: int,
    n1: int,
    n2: int,
    n3: int,
    n4: int,
    n5: int,
    n6: int,
    n7: int,
    n8: int,
    n9: int,
    n10: int,
    n11: int,
    n12: int,
    n13: int,
    n14: int,
    n15: int,
)
    requires
        0 <= n0 <= 1,
        0 <= n1 <= 1,
        0 <= n2 <= 1,
        0 <= n3 <= 1,
        0 <= n4 <= 1,
        0 <= n5 <= 1,
        0 <= n6 <= 1,
        0 <= n7 <= 1,
        0 <= n8 <= 1,
        0 <= n9 <= 1,
        0 <= n10 <= 1,
        0 <= n11 <= 1,
        0 <= n12 <= 1,
        0 <= n13 <= 1,
        0 <= n14 <= 1,
        0 <= n15 <= 1,
        v == 32768 * n0 + 16384 * n1 + 8192 * n2 + 4096 * n3 + 2048 * n4 + 1024 * n5 + 512 * n6 + 256 * n7 + 128 * n8 + 64 * n9 + 32 * n10 + 16 * n11 + 8 * n12 + 4 * n13 + 2 * n14 + n15,
    ensures
        (v / 32768) % 2 == n0,
        (v / 16384) % 2 == n1,
        (v / 8192) % 2 == n2,
        (v / 4096) % 2 == n3,
        (v / 2048) % 2 == n4,
        (v / 1024) % 2 == n5,
        (v / 512) % 2 == n6,
        (v / 256) % 2 == n7,
        (v / 128) % 2 == n8,
        (v / 64) % 2 == n9,
        (v / 32) % 2 == n10,
        (v / 16) % 2 == n11,
        (v / 8) % 2 == n12,
        (v / 4) % 2 == n13,
        (v / 2) % 2 == n14,
        (v / 1) % 2 == n15,
{
    lemma_bit_extract(v, 32768, 0, n0, 16384 * n1 + 8192 * n2 + 4096 * n3 + 2048 * n4 + 1024 * n5 + 512 * n6 + 256 * n7 + 128 * n8 + 64 * n9 + 32 * n10 + 16 * n11 + 8 * n12 + 4 * n13 + 2 * n14 + n15);
    lemma_bit_extract(v, 16384, n0, n1, 8192 * n2 + 4096 * n3 + 2048 * n4 + 1024 * n5 + 512 * n6 + 256 * n7 + 128 * n8 + 64 * n9 + 32 * n10 + 16 * n11 + 8 * n12 + 4 * n13 + 2 * n14 + n15);
    lemma_bit_extract(v, 8192, 2 * n0 + n1, n2, 4096 * n3 + 2048 * n4 + 1024 * n5 + 512 * n6 + 256 * n7 + 128 * n8 + 64 * n9 + 32 * n10 + 16 * n11 + 8 * n12 + 4 * n13 + 2 * n14 + n15);
    lemma_bit_extract(v, 4096, 4 * n0 + 2 * n1 + n2, n3, 2048 * n4 + 1024 * n5 + 512 * n6 + 256 * n7 + 128 * n8 + 64 * n9 + 32 * n10 + 16 * n11 + 8 * n12 + 4 * n13 + 2 * n14 + n15);
    lemma_bit_extract(v, 2048, 8 * n0 + 4 * n1 + 2 * n2 + n3, n4, 1024 * n5 + 512 * n6 + 256 * n7 + 128 * n8 + 64 * n9 + 32 * n10 + 16 * n11 + 8 * n12 + 4 * n13 + 2 * n14 + n15);
    lemma_bit_extract(v, 1024, 16 * n0 + 8 * n1 + 4 * n2 + 2 * n3 + n4, n5, 512 * n6 + 256 * n7 + 128 * n8 + 64 * n9 + 32 * n10 + 16 * n11 + 8 * n12 + 4 * n13 + 2 * n14 + n15);
    lemma_bit_extract(v, 512, 32 * n0 + 16 * n1 + 8 * n2 + 4 * n3 + 2 * n4 + n5, n6, 256 * n7 + 128 * n8 + 64 * n9 + 32 * n10 + 16 * n11 + 8 * n12 + 4 * n13 + 2 * n14 + n15);
    lemma_bit_extract(v, 256, 64 * n0 + 32 * n1 + 16 * n2 + 8 * n3 + 4 * n4 + 2 * n5 + n6, n7, 128 * n8 + 64 * n9 + 32 * n10 + 16 * n11 + 8 * n12 + 4 * n13 + 2 * n14 + n15);
    lemma_bit_extract(v, 128, 128 * n0 + 64 * n1 + 32 * n2 + 16 * n3 + 8 * n4 + 4 * n5 + 2 * n6 + n7, n8, 64 * n9 + 32 * n10 + 16 * n11 + 8 * n12 + 4 * n13 + 2 * n14 + n15);
    lemma_bit_extract(v, 64, 256 * n0 + 128 * n1 + 64 * n2 + 32 * n3 + 16 * n4 + 8 * n5 + 4 * n6 + 2 * n7 + n8, n9, 32 * n10 + 16 * n11 + 8 * n12 + 4 * n13 + 2 * n14 + n15);
    lemma_bit_extract(v, 32, 512 * n0 + 256 * n1 + 128 * n2 + 64 * n3 + 32 * n4 + 16 * n5 + 8 * n6 + 4 * n7 + 2 * n8 + n9, n10, 16 * n11 + 8 * n12 + 4 * n13 + 2 * n14 + n15);
    lemma_bit_extract(v, 16, 1024 * n0 + 512 * n1 + 256 * n2 + 128 * n3 + 64 * n4 + 32 * n5 + 16 * n6 + 8 * n7 + 4 * n8 + 2 * n9 + n10, n11, 8 * n12 + 4 * n13 + 2 * n14 + n15);
    lemma_bit_extract(v, 8, 2048 * n0 + 1024 * n1 + 512 * n2 + 256 * n3 + 128 * n4 + 64 * n5 + 32 * n6 + 16 * n7 + 8 * n8 + 4 * n9 + 2 * n10 + n11, n12, 4 * n13 + 2 * n14 + n15);
    lemma_bit_extract(v, 4, 4096 * n0 + 2048 * n1 + 1024 * n2 + 512 * n3 + 256 * n4 + 128 * n5 + 64 * n6 + 32 * n7 + 16 * n8 + 8 * n9 + 4 * n10 + 2 * n11 + n12, n13, 2 * n14 + n15);
    lemma_bit_extract(v, 2, 8192 * n0 + 4096 * n1 + 2048 * n2 + 1024 * n3 + 512 * n4 + 256 * n5 + 128 * n6 + 64 * n7 + 32 * n8 + 16 * n9 + 8 * n10 + 4 * n11 + 2 * n12 + n13, n14, n15);
    lemma_bit_extract(v, 1, 16384 * n0 + 8192 * n1 + 4096 * n2 + 2048 * n3 + 1024 * n4 + 512 * n5 + 256 * n6 + 128 * n7 + 64 * n8 + 32 * n9 + 16 * n10 + 8 * n11 + 4 * n12 + 2 * n13 + n14, n15, 0);
}

/// A 16-bit sequence is recovered, bit for bit, from its unsigned value:
/// the value determines the word.
#[verifier::rlimit(50)]
pub proof fn lemma_wbits_of_wval(s: Seq<bit>)
    requires
        s.len() == 16,
    ensures
        wbits(wval(s)) == s,
{
    let v = wval(s);
    lemma_digits(
        v,
        b2i(s[0]),
        b2i(s[1]),
        b2i(s[2]),
        b2i(s[3]),
        b2i(s[4]),
        b2i(s[5]),
        b2i(s[6]),
        b2i(s[7]),
        b2i(s[8]),
        b2i(s[9]),
        b2i(s[10]),
        b2i(s[11]),
        b2i(s[12]),
        b2i(s[13]),
        b2i(s[14]),
        b2i(s[15]),
    );
    assert(wbits(v) =~= s);
}

/// `Not(a)` agrees with `Nand(a, a)` on every input: negation needs no
/// primitive of its own.
pub proof fn lemma_not_is_nand(a: bit)
    ensures
        spec_not(a) == spec_nand(a, a),
{
}

/// `And` yields `I` exactly when both inputs are `I`.
pub proof fn lemma_and_exact(a: bit, b: bit)
    ensures
        spec_and(a, b) == I <==> (a == I && b == I),
{
}

/// `Or` yields `O` exactly when both inputs are `O`.
pub proof fn lemma_or_exact(a: bit, b: bit)
    ensures
        spec_or(a, b) == O <==> (a == O && b == O),
{
}

/// Lane-wise negation of a bit sequence.
pub open spec fn not16_s(s: Seq<bit>) -> Seq<bit> {
    Seq::new(s.len(), |i: int| spec_not(s[i]))
}

/// Lane-wise conjunction of two bit sequences of equal length.
pub open spec fn and16_s(a: Seq<bit>, b: Seq<bit>) -> Seq<bit> {
    Seq::new(a.len(), |i: int| spec_and(a[i], b[i]))
}

/// Lane-wise disjunction of two bit sequences of equal length.
pub open spec fn or16_s(a: Seq<bit>, b: Seq<bit>) -> Seq<bit> {
    Seq::new(a.len(), |i: int| spec_or(a[i], b[i]))
}

/// Applies `Not` independently at each of the 16 bit positions.
pub fn Not16(a: Word) -> (r: Word)
    ensures
        r@ == not16_s(a@),
{
    let mut out: [bit; 16] = [O; 16];
    let mut i: usize = 0;
    while i < 16
        invariant
            i <= 16,
            forall|j: int| 0 <= j < i ==> out@[j] == spec_not(a@[j]),
        decreases 16 - i,
    {
        out[i] = Not(a.get(i));
        i += 1;
    }
    let r = Word::new(out);
    proof {
        lemma_word_len(a);
        assert(r@ =~= not16_s(a@));
    }
    r
}

/// Applies `And` independently at each of the 16 bit positions.
pub fn And16(a: Word, b: Word) -> (r: Word)
    ensures
        r@ == and16_s(a@, b@),
{
    let mut out: [bit; 16] = [O; 16];
    let mut i: usize = 0;
    while i < 16
        invariant
            i <= 16,
            forall|j: int| 0 <= j < i ==> out@[j] == spec_and(a@[j], b@[j]),
        decreases 16 - i,
    {
        out[i] = And(a.get(i), b.get(i));
        i += 1;
    }
    let r = Word::new(out);
    proof {
        lemma_word_len(a);
        assert(r@ =~= and16_s(a@, b@));
    }
    r
}

/// Applies `Or` independently at each of the 16 bit positions.
pub fn Or16(a: Word, b: Word) -> (r: Word)
    ensures
        r@ == or16_s(a@, b@),
{
    let mut out: [bit; 16] = [O; 16];
    let mut i: usize = 0;
    while i < 16
        invariant
            i <= 16,
            forall|j: int| 0 <= j < i ==> out@[j] == spec_or(a@[j], b@[j]),
        decreases 16 - i,
    {
        out[i] = Or(a.get(i), b.get(i));
        i += 1;
    }
    let r = Word::new(out);
    proof {
        lemma_word_len(a);
        assert(r@ =~= or16_s(a@, b@));
    }
    r
}

/// Selects a whole word: `a` when `sel` is `O`, `b` when `sel` is `I`,
/// broadcasting the one selector bit to all 16 lanes.
pub fn Mux16(a: Word, b: Word, sel: bit) -> (r: Word)
    ensures
        r@ == (if sel == I {
            b@
        } else {
            a@
        }),
{
    let mut out: [bit; 16] = [O; 16];
    let mut i: usize = 0;
    while i < 16
        invariant
            i <= 16,
            forall|j: int| 0 <= j < i ==> out@[j] == spec_mux(a@[j], b@[j], sel),
        decreases 16 - i,
    {
        out[i] = Mux(a.get(i), b.get(i), sel);
        i += 1;
    }
    let r = Word::new(out);
    proof {
        lemma_word_len(a);
        lemma_word_len(b);
        if sel == I {
            assert(r@ =~= b@);
        } else {
            assert(r@ =~= a@);
        }
    }
    r
}

/// OR-reduction of 8 bits: `I` exactly when at least one input is `I`.
pub open spec fn or8_s(s: Seq<bit>) -> bit
    recommends
        s.len() == 8,
{
    if s[0] == I || s[1] == I || s[2] == I || s[3] == I || s[4] == I || s[5] == I || s[6] == I
        || s[7] == I {
        I
    } else {
        O
    }
}

/// OR-reduction of 8 bits over a balanced tree of `Or` gates.
pub fn Or8Way(a: [bit; 8]) -> (r: bit)
    ensures
        r == or8_s(a@),
{
    Or(Or(Or(a[0], a[1]), Or(a[2], a[3])), Or(Or(a[4], a[5]), Or(a[6], a[7])))
}

/// The number encoded by a 2-bit selector, most significant bit first.
pub open spec fn sel2_code(s0: bit, s1: bit) -> int {
    2 * b2i(s0) + b2i(s1)
}

/// The number encoded by a 3-bit selector, most significant bit first.
pub open spec fn sel3_code(s0: bit, s1: bit, s2: bit) -> int {
    4 * b2i(s0) + 2 * b2i(s1) + b2i(s2)
}

/// Four-way word selection by a 2-bit selector, most significant bit first.
pub open spec fn mux4_s(a: Seq<bit>, b: Seq<bit>, c: Seq<bit>, d: Seq<bit>, s0: bit, s1: bit) -> Seq<
    bit,
> {
    let k = sel2_code(s0, s1);
    if k == 0 {
        a
    } else if k == 1 {
        b
    } else if k == 2 {
        c
    } else {
        d
    }
}

/// Eight-way word selection by a 3-bit selector, most significant bit first.
pub open spec fn mux8_s(
    a: Seq<bit>,
    b: Seq<bit>,
    c: Seq<bit>,
    d: Seq<bit>,
    e: Seq<bit>,
    f: Seq<bit>,
    g: Seq<bit>,
    h: Seq<bit>,
    s0: bit,
    s1: bit,
    s2: bit,
) -> Seq<bit> {
    let k = sel3_code(s0, s1, s2);
    if k == 0 {
        a
    } else if k == 1 {
        b
    } else if k == 2 {
        c
    } else if k == 3 {
        d
    } else if k == 4 {
        e
    } else if k == 5 {
        f
    } else if k == 6 {
        g
    } else {
        h
    }
}

/// One lane of a four-way selection: a binary `Mux` tree, `s0` outermost.
fn mux2(a: bit, b: bit, c: bit, d: bit, s0: bit, s1: bit) -> (r: bit)
    ensures
        r == (if sel2_code(s0, s1) == 0 {
            a
        } else if sel2_code(s0, s1) == 1 {
            b
        } else if sel2_code(s0, s1) == 2 {
            c
        } else {
            d
        }),
{
    Mux(Mux(a, b, s1), Mux(c, d, s1), s0)
}

/// One lane of an eight-way selection: a binary `Mux` tree, `s0` outermost.
fn mux3(a: bit, b: bit, c: bit, d: bit, e: bit, f: bit, g: bit, h: bit, s0: bit, s1: bit, s2: bit) -> (r:
    bit)
    ensures
        r == (if sel3_code(s0, s1, s2) == 0 {
            a
        } else if sel3_code(s0, s1, s2) == 1 {
            b
        } else if sel3_code(s0, s1, s2) == 2 {
            c
        } else if sel3_code(s0, s1, s2) == 3 {
            d
        } else if sel3_code(s0, s1, s2) == 4 {
            e
        } else if sel3_code(s0, s1, s2) == 5 {
            f
        } else if sel3_code(s0, s1, s2) == 6 {
            g
        } else {
            h
        }),
{
    Mux(Mux(Mux(a, b, s2), Mux(c, d, s2), s1), Mux(Mux(e, f, s2), Mux(g, h, s2), s1), s0)
}

/// Selects exactly one of 4 words via a 2-bit selector, selector bits
/// ordered most-significant-first: `sel[0]` is the outermost choice.
pub fn Mux4Way16(a: Word, b: Word, c: Word, d: Word, sel: [bit; 2]) -> (r: Word)
    ensures
        r@ == mux4_s(a@, b@, c@, d@, sel@[0], sel@[1]),
{
    let mut out: [bit; 16] = [O; 16];
    let mut i: usize = 0;
    while i < 16
        invariant
            i <= 16,
            forall|j: int|
                0 <= j < i ==> out@[j] == (if sel2_code(sel@[0], sel@[1]) == 0 {
                    a@[j]
                } else if sel2_code(sel@[0], sel@[1]) == 1 {
                    b@[j]
                } else if sel2_code(sel@[0], sel@[1]) == 2 {
                    c@[j]
                } else {
                    d@[j]
                }),
        decreases 16 - i,
    {
        out[i] = mux2(a.get(i), b.get(i), c.get(i), d.get(i), sel[0], sel[1]);
        i += 1;
    }
    let r = Word::new(out);
    proof {
        lemma_word_len(a);
        lemma_word_len(b);
        lemma_word_len(c);
        lemma_word_len(d);
        let k = sel2_code(sel@[0], sel@[1]);
        if k == 0 {
            assert(r@ =~= a@);
        } else if k == 1 {
            assert(r@ =~= b@);
        } else if k == 2 {
            assert(r@ =~= c@);
        } else {
            assert(r@ =~= d@);
        }
    }
    r
}

/// Selects exactly one of 8 words via a 3-bit selector, selector bits
/// ordered most-significant-first: `s[0]` is the outermost choice.
pub fn Mux8Way16(
    a: Word,
    b: Word,
    c: Word,
    d: Word,
    e: Word,
    f: Word,
    g: Word,
    h: Word,
    s: [bit; 3],
) -> (r: Word)
    ensures
        r@ == mux8_s(a@, b@, c@, d@, e@, f@, g@, h@, s@[0], s@[1], s@[2]),
{
    let mut out: [bit; 16] = [O; 16];
    let mut i: usize = 0;
    while i < 16
        invariant
            i <= 16,
            forall|j: int|
                0 <= j < i ==> out@[j] == (if sel3_code(s@[0], s@[1], s@[2]) == 0 {
                    a@[j]
                } else if sel3_code(s@[0], s@[1], s@[2]) == 1 {
                    b@[j]
                } else if sel3_code(s@[0], s@[1], s@[2]) == 2 {
                    c@[j]
                } else if sel3_code(s@[0], s@[1], s@[2]) == 3 {
                    d@[j]
                } else if sel3_code(s@[0], s@[1], s@[2]) == 4 {
                    e@[j]
                } else if sel3_code(s@[0], s@[1], s@[2]) == 5 {
                    f@[j]
                } else if sel3_code(s@[0], s@[1], s@[2]) == 6 {
                    g@[j]
                } else {
                    h@[j]
                }),
        decreases 16 - i,
    {
        out[i] = mux3(
            a.get(i),
            b.get(i),
            c.get(i),
            d.get(i),
            e.get(i),
            f.get(i),
            g.get(i),
            h.get(i),
            s[0],
            s[1],
            s[2],
        );
        i += 1;
    }
    let r = Word::new(out);
    proof {
        lemma_word_len(a);
        lemma_word_len(b);
        lemma_word_len(c);
        lemma_word_len(d);
        lemma_word_len(e);
        lemma_word_len(f);
        lemma_word_len(g);
        lemma_word_len(h);
        let k = sel3_code(s@[0], s@[1], s@[2]);
        if k == 0 {
            assert(r@ =~= a@);
        } else if k == 1 {
            assert(r@ =~= b@);
        } else if k == 2 {
            assert(r@ =~= c@);
        } else if k == 3 {
            assert(r@ =~= d@);
        } else if k == 4 {
            assert(r@ =~= e@);
        } else if k == 5 {
            assert(r@ =~= f@);
        } else if k == 6 {
            assert(r@ =~= g@);
        } else {
            assert(r@ =~= h@);
        }
    }
    r
}

/// Output `k` of a four-way fan-out: the input where `k` is the selector's
/// number, `O` everywhere else.
pub open spec fn dmux4_s(inc: bit, s0: bit, s1: bit, k: int) -> bit {
    if k == sel2_code(s0, s1) {
        inc
    } else {
        O
    }
}

/// Output `k` of an eight-way fan-out: the input where `k` is the selector's
/// number, `O` everywhere else.
pub open spec fn dmux8_s(inc: bit, s0: bit, s1: bit, s2: bit, k: int) -> bit {
    if k == sel3_code(s0, s1, s2) {
        inc
    } else {
        O
    }
}

/// Fans `inc` out to exactly one of 4 outputs, selected by a 2-bit selector,
/// most significant bit first; every non-selected output is `O`.
pub fn DMux4Way(inc: bit, sel: [bit; 2]) -> (r: [bit; 4])
    ensures
        r@[0] == dmux4_s(inc, sel@[0], sel@[1], 0),
        r@[1] == dmux4_s(inc, sel@[0], sel@[1], 1),
        r@[2] == dmux4_s(inc, sel@[0], sel@[1], 2),
        r@[3] == dmux4_s(inc, sel@[0], sel@[1], 3),
{
    [
        And(Not(sel[0]), And(Not(sel[1]), inc)),
        And(Not(sel[0]), And(sel[1], inc)),
        And(sel[0], And(Not(sel[1]), inc)),
        And(sel[0], And(sel[1], inc)),
    ]
}

/// Fans `inc` out to exactly one of 8 outputs, selected by a 3-bit selector,
/// most significant bit first; every non-selected output is `O`.
pub fn DMux8Way(inc: bit, sel: [bit; 3]) -> (r: [bit; 8])
    ensures
        r@[0] == dmux8_s(inc, sel@[0], sel@[1], sel@[2], 0),
        r@[1] == dmux8_s(inc, sel@[0], sel@[1], sel@[2], 1),
        r@[2] == dmux8_s(inc, sel@[0], sel@[1], sel@[2], 2),
        r@[3] == dmux8_s(inc, sel@[0], sel@[1], sel@[2], 3),
        r@[4] == dmux8_s(inc, sel@[0], sel@[1], sel@[2], 4),
        r@[5] == dmux8_s(inc, sel@[0], sel@[1], sel@[2], 5),
        r@[6] == dmux8_s(inc, sel@[0], sel@[1], sel@[2], 6),
        r@[7] == dmux8_s(inc, sel@[0], sel@[1], sel@[2], 7),
{
    [
        And(And(Not(sel[0]), Not(sel[1])), And(Not(sel[2]), inc)),
        And(And(Not(sel[0]), Not(sel[1])), And(sel[2], inc)),
        And(And(Not(sel[0]), sel[1]), And(Not(sel[2]), inc)),
        And(And(Not(sel[0]), sel[1]), And(sel[2], inc)),
        And(And(sel[0], Not(sel[1])), And(Not(sel[2]), inc)),
        And(And(sel[0], Not(sel[1])), And(sel[2], inc)),
        And(And(sel[0], sel[1]), And(Not(sel[2]), inc)),
        And(And(sel[0], sel[1]), And(sel[2], inc)),
    ]
}

/// For every 2-bit selector, the selected four-way output carries the input
/// bit unchanged and every other output is `O`.
pub proof fn lemma_dmux4_routes(inc: bit, s0: bit, s1: bit)
    ensures
        0 <= sel2_code(s0, s1) < 4,
        dmux4_s(inc, s0, s1, sel2_code(s0, s1)) == inc,
        forall|k: int|
            0 <= k < 4 && k != sel2_code(s0, s1) ==> #[trigger] dmux4_s(inc, s0, s1, k) == O,
{
}

/// For every 3-bit selector, the selected eight-way output carries the input
/// bit unchanged and every other output is `O`.
pub proof fn lemma_dmux8_routes(inc: bit, s0: bit, s1: bit, s2: bit)
    ensures
        0 <= sel3_code(s0, s1, s2) < 8,
        dmux8_s(inc, s0, s1, s2, sel3_code(s0, s1, s2)) == inc,
        forall|k: int|
            0 <= k < 8 && k != sel3_code(s0, s1, s2) ==> #[trigger] dmux8_s(inc, s0, s1, s2, k)
                == O,
{
}

/// A byte of the textual form of a word: the digit `0` or `1`.
pub open spec fn is_bit_byte(b: u8) -> bool {
    b == 48 || b == 49
}

/// The bit a textual digit stands for.
pub open spec fn byte_bit(b: u8) -> bit {
    if b == 49 {
        I
    } else {
        O
    }
}

/// The byte sequence with every blank removed.
pub open spec fn strip_blanks(s: Seq<u8>) -> Seq<u8>
    decreases s.len(),
{
    if s.len() == 0 {
        Seq::empty()
    } else if s.last() == 32 {
        strip_blanks(s.drop_last())
    } else {
        strip_blanks(s.drop_last()).push(s.last())
    }
}

/// The bits that a sequence of digit bytes stands for.
pub open spec fn bits_of_bytes(t: Seq<u8>) -> Seq<bit> {
    Seq::new(t.len(), |i: int| byte_bit(t[i]))
}

/// Whether a byte sequence is a well-formed textual word: after blanks are
/// removed, exactly 16 tokens remain and every token is `0` or `1`.
pub open spec fn parse_ok(s: Seq<u8>) -> bool {
    strip_blanks(s).len() == 16 && (forall|i: int| 0 <= i < 16 ==> is_bit_byte(strip_blanks(s)[i]))
}

/// Removing blanks distributes over concatenation.
proof fn lemma_strip_blanks_append(a: Seq<u8>, b: Seq<u8>)
    ensures
        strip_blanks(a + b) == strip_blanks(a) + strip_blanks(b),
    decreases b.len(),
{
    if b.len() == 0 {
        assert(a + b =~= a);
        assert(strip_blanks(a) + strip_blanks(b) =~= strip_blanks(a));
    } else {
        assert((a + b).drop_last() =~= a + b.drop_last());
        lemma_strip_blanks_append(a, b.drop_last());
        if b.last() != 32 {
            assert(strip_blanks(a) + strip_blanks(b.drop_last()).push(b.last()) =~= (strip_blanks(
                a,
            ) + strip_blanks(b.drop_last())).push(b.last()));
        }
    }
}

impl Word {
    /// Builds a word from its textual form: 16 tokens, each the digit `0`
    /// or `1`, with blanks ignored. Returns nothing when the token count is
    /// not exactly 16 or any token is not a binary digit.
    pub fn from_bytes(s: &[u8]) -> (r: Option<Word>)
        ensures
            r is Some <==> parse_ok(s@),
            r matches Some(w) ==> w@ == bits_of_bytes(strip_blanks(s@)),
    {
        let mut arr: [bit; 16] = [O; 16];
        let mut n: usize = 0;
        let mut i: usize = 0;
        while i < s.len()
            invariant
                i <= s@.len(),
                n <= 16,
                n == strip_blanks(s@.take(i as int)).len(),
                forall|j: int| 0 <= j < n ==> is_bit_byte(#[trigger] strip_blanks(s@.take(i as int))[j]),
                forall|j: int|
                    0 <= j < n ==> arr@[j] == byte_bit(strip_blanks(s@.take(i as int))[j]),
            decreases s@.len() - i,
        {
            let c: u8 = s[i];
            proof {
                assert(s@.take(i as int + 1).drop_last() =~= s@.take(i as int));
                assert(s@ =~= s@.take(i as int + 1) + s@.skip(i as int + 1));
            }
            if c == 32 {
                // a blank: the stripped prefix is unchanged
            } else if c == 48 || c == 49 {
                if n == 16 {
                    // a 17th token: the input holds too many digits
                    proof {
                        lemma_strip_blanks_append(s@.take(i as int + 1), s@.skip(i as int + 1));
                        assert(strip_blanks(s@).len() >= 17);
                    }
                    return None;
                }
                arr[n] = if c == 49 {
                    I
                } else {
                    O
                };
                n = n + 1;
            } else {
                // neither a digit nor a blank: the input is malformed
                proof {
                    lemma_strip_blanks_append(s@.take(i as int + 1), s@.skip(i as int + 1));
                    assert(strip_blanks(s@)[n as int] == c);
                    assert(strip_blanks(s@).len() >= n + 1);
                }
                return None;
            }
            i = i + 1;
        }
        proof {
            assert(s@.take(i as int) =~= s@);
        }
        if n == 16 {
            let r = Word::new(arr);
            proof {
                assert(r@ =~= bits_of_bytes(strip_blanks(s@)));
            }
            Some(r)
        } else {
            None
        }
    }
}

impl bit {
    /// The conventional one-letter text for the signal: `I` or `O`.
    pub fn show(&self) -> (r: String)
        ensures
            *self == I ==> r@ == "I"@,
            *self == O ==> r@ == "O"@,
    {
        match self {
            I => "I",
            O => "O",
        }.to_owned()
    }
}

} // verus!
