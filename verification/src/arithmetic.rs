//! Ripple-carry word arithmetic and the ALU, composed from the gates.
use vstd::prelude::*;

verus! {

use crate::logic::bit::{I, O};
use crate::logic::{
    and16_s, b2i, bit, lemma_wbits_of_wval, lemma_word_len, not16_s, place, spec_and, spec_xor,
    wbits, wval, And, And16, Mux16, Not, Not16, Or, Or8Way, Word, Xor,
};

/// The all-`O` word.
pub open spec fn zero16_s() -> Seq<bit> {
    Seq::new(16, |i: int| O)
}

/// Whether every bit of a 16-bit sequence is `O`.
pub open spec fn is_zero16(s: Seq<bit>) -> bool {
    forall|i: int| 0 <= i < 16 ==> s[i] == O
}

/// The sum of two 16-bit words, wrapping modulo 2^16.
pub open spec fn add16_s(a: Seq<bit>, b: Seq<bit>) -> Seq<bit> {
    wbits((wval(a) + wval(b)) % 65536)
}

/// The value of the suffix of a 16-bit sequence that starts at position `k`:
/// the low `16 - k` places of the word.
pub open spec fn wval_from(s: Seq<bit>, k: int) -> int
    decreases 16 - k,
{
    if k < 0 || k >= 16 {
        0
    } else {
        place(k) * b2i(s[k]) + wval_from(s, k + 1)
    }
}

/// The whole-word suffix value is the word value.
proof fn lemma_wval_from_is_wval(s: Seq<bit>)
    requires
        s.len() == 16,
    ensures
        wval_from(s, 0) == wval(s),
{
    reveal_with_fuel(wval_from, 17);
}

/// The suffix value reads only the positions from `k` up.
proof fn lemma_wval_from_congruence(s: Seq<bit>, t: Seq<bit>, k: int)
    requires
        forall|j: int| k <= j < 16 ==> s[j] == t[j],
    ensures
        wval_from(s, k) == wval_from(t, k),
    decreases 16 - k,
{
    if 0 <= k < 16 {
        lemma_wval_from_congruence(s, t, k + 1);
    }
}

/// Adds two bits: `r[0]` is the carry, `r[1]` the sum.
pub fn HalfAdder(a: bit, b: bit) -> (r: [bit; 2])
    ensures
        r@[0] == spec_and(a, b),
        r@[1] == spec_xor(a, b),
        2 * b2i(r@[0]) + b2i(r@[1]) == b2i(a) + b2i(b),
{
    [And(a, b), Xor(a, b)]
}

/// Adds two bits and a carry-in: `r[0]` is the carry-out, `r[1]` the sum.
pub fn FullAdder(a: bit, b: bit, c: bit) -> (r: [bit; 2])
    ensures
        2 * b2i(r@[0]) + b2i(r@[1]) == b2i(a) + b2i(b) + b2i(c),
{
    let res1 = HalfAdder(a, b);
    let res2 = HalfAdder(c, res1[1]);
    [Or(res1[0], res2[0]), res2[1]]
}

/// 16-bit ripple-carry addition: the carry starts at bit index 15 (least
/// significant) and propagates toward index 0; overflow silently wraps
/// modulo 2^16, and no overflow flag is produced.
pub fn Add16(a: Word, b: Word) -> (r: Word)
    ensures
        r@ == add16_s(a@, b@),
        wval(r@) == (wval(a@) + wval(b@)) % 65536,
{
    let mut out: [bit; 16] = [O; 16];
    let mut carry: bit = O;
    let mut k: usize = 16;
    proof {
        lemma_word_len(a);
        lemma_word_len(b);
    }
    while k > 0
        invariant
            k <= 16,
            a@.len() == 16,
            b@.len() == 16,
            k == 16 ==> carry == O,
            wval_from(a@, k as int) + wval_from(b@, k as int) == wval_from(out@, k as int) + (
            if k < 16 {
                2 * place(k as int)
            } else {
                1
            }) * b2i(carry),
        decreases k,
    {
        k = k - 1;
        let ghost out0 = out@;
        let ghost c_in = b2i(carry);
        let res = FullAdder(a.get(k), b.get(k), carry);
        out[k] = res[1];
        carry = res[0];
        proof {
            let ki = k as int;
            let p = place(ki);
            let na = b2i(a@[ki]);
            let nb = b2i(b@[ki]);
            let ns = b2i(res@[1]);
            let nc = b2i(res@[0]);
            lemma_wval_from_congruence(out@, out0, ki + 1);
            // the carry weight of the previous iteration is this bit's place
            assert((if ki + 1 < 16 {
                2 * place(ki + 1)
            } else {
                1
            }) == p);
            assert(p * na + wval_from(a@, ki + 1) + (p * nb + wval_from(b@, ki + 1)) == (p * ns
                + wval_from(out@, ki + 1)) + 2 * p * nc) by (nonlinear_arith)
                requires
                    wval_from(a@, ki + 1) + wval_from(b@, ki + 1) == wval_from(out@, ki + 1) + p
                        * c_in,
                    2 * nc + ns == na + nb + c_in,
            ;
        }
    }
    let r = Word::new(out);
    proof {
        lemma_wval_from_is_wval(a@);
        lemma_wval_from_is_wval(b@);
        lemma_wval_from_is_wval(out@);
        crate::logic::lemma_wval_bounds(out@);
        assert(place(0) == 32768);
        assert(2 * place(0) * b2i(carry) == b2i(carry) * 65536) by (nonlinear_arith)
            requires
                place(0) == 32768,
        ;
        assert(wval(a@) + wval(b@) == b2i(carry) * 65536 + wval(out@));
        vstd::arithmetic::div_mod::lemma_fundamental_div_mod_converse(
            wval(a@) + wval(b@),
            65536,
            b2i(carry),
            wval(out@),
        );
        lemma_wbits_of_wval(out@);
    }
    r
}

/// The 16-bit word whose value is 1.
fn one16() -> (r: Word)
    ensures
        wval(r@) == 1,
{
    let mut arr: [bit; 16] = [O; 16];
    arr[15] = I;
    Word::new(arr)
}

/// Adds one to a 16-bit word, wrapping modulo 2^16.
pub fn Inc16(a: Word) -> (r: Word)
    ensures
        r@ == inc16_s(a@),
        wval(r@) == (wval(a@) + 1) % 65536,
{
    Add16(a, one16())
}

/// The word one greater, modulo 2^16.
pub open spec fn inc16_s(s: Seq<bit>) -> Seq<bit> {
    wbits((wval(s) + 1) % 65536)
}

/// The word the ALU produces under a 6-bit control code: `zx`/`zy` zero an
/// operand, `nx`/`ny` negate one, `f` chooses addition over conjunction, and
/// `no` negates the result.
pub open spec fn alu_s(
    x: Seq<bit>,
    y: Seq<bit>,
    zx: bit,
    nx: bit,
    zy: bit,
    ny: bit,
    f: bit,
    no: bit,
) -> Seq<bit> {
    let x1 = if zx == I {
        zero16_s()
    } else {
        x
    };
    let x2 = if nx == I {
        not16_s(x1)
    } else {
        x1
    };
    let y1 = if zy == I {
        zero16_s()
    } else {
        y
    };
    let y2 = if ny == I {
        not16_s(y1)
    } else {
        y1
    };
    let pre = if f == I {
        add16_s(x2, y2)
    } else {
        and16_s(x2, y2)
    };
    if no == I {
        not16_s(pre)
    } else {
        pre
    }
}

/// The arithmetic-logic unit. Deterministic, total, and free of side
/// effects: the result word follows the control-code pipeline, `zr` is `I`
/// exactly when every bit of the result is `O`, and `ng` is the sign bit.
#[verifier::rlimit(50)]
pub fn ALU(x: Word, y: Word, zx: bit, nx: bit, zy: bit, ny: bit, f: bit, no: bit) -> (r: (
    Word,
    bit,
    bit,
))
    ensures
        r.0@ == alu_s(x@, y@, zx, nx, zy, ny, f, no),
        r.1 == (if is_zero16(r.0@) {
            I
        } else {
            O
        }),
        r.2 == r.0@[0],
{
    proof {
        lemma_word_len(x);
        lemma_word_len(y);
    }
    let zero = Word::new([O;16]);
    proof {
        assert(zero@ =~= zero16_s());
    }
    let x1 = Mux16(x, zero, zx);
    let x2 = Mux16(x1, Not16(x1), nx);
    let y1 = Mux16(y, zero, zy);
    let y2 = Mux16(y1, Not16(y1), ny);
    let f_res = Mux16(And16(x2, y2), Add16(x2, y2), f);
    let out = Mux16(f_res, Not16(f_res), no);
    let lo = Or8Way(
        [
            out.get(0),
            out.get(1),
            out.get(2),
            out.get(3),
            out.get(4),
            out.get(5),
            out.get(6),
            out.get(7),
        ],
    );
    let hi = Or8Way(
        [
            out.get(8),
            out.get(9),
            out.get(10),
            out.get(11),
            out.get(12),
            out.get(13),
            out.get(14),
            out.get(15),
        ],
    );
    let zr = Not(Or(lo, hi));
    let ng = out.get(0);
    proof {
        lemma_word_len(out);
        if is_zero16(out@) {
            assert(zr == I);
        } else {
            let i = choose|i: int| 0 <= i < 16 && out@[i] != O;
            assert(out@[i] == I);
            assert(zr == O);
        }
    }
    (out, zr, ng)
}

/// Adding the zero word returns the word unchanged: the additive identity.
pub proof fn lemma_add16_identity(x: Seq<bit>)
    requires
        x.len() == 16,
    ensures
        add16_s(x, zero16_s()) == x,
{
    assert(wval(zero16_s()) == 0);
    crate::logic::lemma_wval_bounds(x);
    vstd::arithmetic::div_mod::lemma_fundamental_div_mod_converse(wval(x), 65536, 0, wval(x));
    lemma_wbits_of_wval(x);
}

/// Addition of 16-bit words is commutative.
pub proof fn lemma_add16_commutative(a: Seq<bit>, b: Seq<bit>)
    requires
        a.len() == 16,
        b.len() == 16,
    ensures
        add16_s(a, b) == add16_s(b, a),
{
}

/// The all-`I` word.
pub open spec fn ones16_s() -> Seq<bit> {
    Seq::new(16, |i: int| I)
}

/// The zero word is the 16-bit rendering of the value 0.
proof fn lemma_wbits_zero()
    ensures
        wbits(0) == zero16_s(),
{
    assert(wbits(0) =~= zero16_s()) by {
        assert forall|i: int| 0 <= i < 16 implies wbits(0)[i] == O by {
            assert(place(i) >= 1);
            assert(0int / place(i) == 0) by {
                vstd::arithmetic::div_mod::lemma_fundamental_div_mod_converse(0, place(i), 0, 0);
            }
        }
    }
}

/// Incrementing the all-`I` word wraps around to the all-`O` word.
pub proof fn lemma_inc16_wraparound()
    ensures
        inc16_s(ones16_s()) == zero16_s(),
{
    assert(wval(ones16_s()) == 65535);
    vstd::arithmetic::div_mod::lemma_fundamental_div_mod_converse(65536, 65536, 1, 0);
    lemma_wbits_zero();
}

/// Under the control code `zx=I, nx=O, zy=I, ny=O, f=I, no=O` the ALU
/// computes the constant zero word, for any operands: both inputs are
/// zeroed and added, so the result is all `O`, with `zr` owed `I` and the
/// sign bit `O`.
pub proof fn lemma_alu_constant_zero(x: Seq<bit>, y: Seq<bit>)
    requires
        x.len() == 16,
        y.len() == 16,
    ensures
        alu_s(x, y, I, O, I, O, I, O) == zero16_s(),
        is_zero16(alu_s(x, y, I, O, I, O, I, O)),
        alu_s(x, y, I, O, I, O, I, O)[0] == O,
{
    assert(wval(zero16_s()) == 0);
    vstd::arithmetic::div_mod::lemma_fundamental_div_mod_converse(0, 65536, 0, 0);
    lemma_wbits_zero();
}

/// Under the control code `zx=O, nx=O, zy=I, ny=I, f=O, no=O` the ALU
/// returns `x` unchanged: `y` is zeroed then negated to all `I`, and the
/// conjunction with all `I` leaves every bit of `x` as it was. `zr` is then
/// owed `I` exactly when `x` is the zero word, and the sign bit is `x[0]`.
pub proof fn lemma_alu_identity_x(x: Seq<bit>, y: Seq<bit>)
    requires
        x.len() == 16,
        y.len() == 16,
    ensures
        alu_s(x, y, O, O, I, I, O, O) == x,
        is_zero16(alu_s(x, y, O, O, I, I, O, O)) <==> is_zero16(x),
        alu_s(x, y, O, O, I, I, O, O)[0] == x[0],
{
    assert(and16_s(x, not16_s(zero16_s())) =~= x);
}

} // verus!
