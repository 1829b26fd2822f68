//! Scalars of the curve's group: 32 bytes, most significant byte first, read as a
//! natural number and reckoned modulo the group order.

use vstd::prelude::*;

verus! {

/// 256 raised to the power `n`.
pub open spec fn pow256(n: nat) -> nat
    decreases n,
{
    if n == 0 {
        1
    } else {
        256 * pow256((n - 1) as nat)
    }
}

/// The number that `bytes` spell, most significant byte first.
pub open spec fn be_value(bytes: Seq<u8>) -> nat
    decreases bytes.len(),
{
    if bytes.len() == 0 {
        0
    } else {
        be_value(bytes.drop_last()) * 256 + bytes.last() as nat
    }
}

/// The order of the group that the base point of secp256k1 generates.
pub open spec fn group_order() -> nat {
    0xFFFFFFFFFFFFFFFFFFFFFFFFFFFFFFFEBAAEDCE6AF48A03BBFD25E8CD0364141nat
}

/// Two to the power 128: the weight of the upper half of a scalar.
pub open spec fn half_weight() -> nat {
    0x100000000000000000000000000000000nat
}

/// Whether `bytes` are a private key: 32 bytes whose value is neither zero nor
/// reaches the group order.
pub open spec fn is_private_key(bytes: Seq<u8>) -> bool {
    bytes.len() == 32 && 0 < be_value(bytes) < group_order()
}

/// The `len` bytes that spell `value`, most significant byte first.
pub open spec fn be_bytes(value: nat, len: nat) -> Seq<u8>
    decreases len,
{
    if len == 0 {
        Seq::empty()
    } else {
        be_bytes(value / 256, (len - 1) as nat).push((value % 256) as u8)
    }
}

/// The 32 bytes of the scalar `value`.
pub open spec fn scalar_bytes(value: nat) -> Seq<u8> {
    be_bytes(value, 32)
}

/// Sixteen bytes weigh two to the power 128.
pub proof fn lemma_pow256_sixteen()
    ensures
        pow256(16) == half_weight(),
{
    reveal_with_fuel(pow256, 17);
}

/// A sequence of `n` bytes spells a number below `256^n`.
pub proof fn lemma_be_value_bound(bytes: Seq<u8>)
    ensures
        be_value(bytes) < pow256(bytes.len()),
    decreases bytes.len(),
{
    if bytes.len() > 0 {
        lemma_be_value_bound(bytes.drop_last());
    }
}

/// The value of a concatenation: the front part is shifted by the length of the
/// back part.
pub proof fn lemma_be_value_concat(front: Seq<u8>, back: Seq<u8>)
    ensures
        be_value(front + back) == be_value(front) * pow256(back.len()) + be_value(back),
    decreases back.len(),
{
    if back.len() == 0 {
        assert(front + back =~= front);
        assert(pow256(back.len()) == 1);
        assert(be_value(back) == 0);
    } else {
        let shorter = back.drop_last();
        lemma_be_value_concat(front, shorter);
        assert((front + back).drop_last() =~= front + shorter);
        assert((front + back).last() == back.last());
        let f = be_value(front);
        let p = pow256(shorter.len());
        let whole = front + back;
        assert(be_value(whole) == be_value(whole.drop_last()) * 256 + whole.last() as nat);
        assert(be_value(whole) == (f * p + be_value(shorter)) * 256 + back.last() as nat);
        assert(pow256(back.len()) == 256 * p);
        assert((f * p + be_value(shorter)) * 256 == f * (256 * p) + be_value(shorter) * 256)
            by (nonlinear_arith);
        assert(f * pow256(back.len()) == f * (256 * p));
    }
}

/// Two byte sequences of one length that spell the same number are equal.
pub proof fn lemma_be_value_injective(a: Seq<u8>, b: Seq<u8>)
    requires
        a.len() == b.len(),
        be_value(a) == be_value(b),
    ensures
        a == b,
    decreases a.len(),
{
    if a.len() > 0 {
        lemma_be_value_injective(a.drop_last(), b.drop_last());
        assert(a =~= a.drop_last().push(a.last()));
        assert(b =~= b.drop_last().push(b.last()));
    } else {
        assert(a =~= b);
    }
}

/// Writing a number with `len` bytes gives `len` bytes, and they spell the
/// number where it is below `256^len`.
pub proof fn lemma_be_bytes_value(value: nat, len: nat)
    ensures
        be_bytes(value, len).len() == len,
        value < pow256(len) ==> be_value(be_bytes(value, len)) == value,
    decreases len,
{
    if len > 0 {
        lemma_be_bytes_value(value / 256, (len - 1) as nat);
        let written = be_bytes(value, len);
        assert(written.drop_last() =~= be_bytes(value / 256, (len - 1) as nat));
        assert(written.last() == (value % 256) as u8);
    }
}

/// A scalar below the group order is written with 32 bytes that spell it, and
/// no other 32 bytes do.
pub proof fn lemma_scalar_bytes_unique(bytes: Seq<u8>, value: nat)
    requires
        bytes.len() == 32,
        be_value(bytes) == value,
    ensures
        bytes == scalar_bytes(value),
{
    lemma_be_value_bound(bytes);
    lemma_be_bytes_value(value, 32);
    lemma_be_value_injective(bytes, scalar_bytes(value));
}

/// A 256-bit number in two halves, the form in which scalars are reckoned.
#[derive(Clone, Copy)]
struct Wide {
    hi: u128,
    lo: u128,
}

impl Wide {
    /// The number that the two halves stand for.
    closed spec fn value(self) -> nat {
        self.hi as nat * half_weight() + self.lo as nat
    }

    /// Whether `self` is at least `other`.
    fn reaches(self, other: Wide) -> (r: bool)
        ensures
            r == (self.value() >= other.value()),
    {
        self.hi > other.hi || (self.hi == other.hi && self.lo >= other.lo)
    }

    /// The difference of two numbers, the smaller taken from the larger.
    fn minus(self, other: Wide) -> (r: Wide)
        requires
            self.value() >= other.value(),
        ensures
            r.value() == self.value() - other.value(),
    {
        if self.lo >= other.lo {
            Wide { hi: self.hi - other.hi, lo: self.lo - other.lo }
        } else {
            Wide { hi: self.hi - other.hi - 1, lo: self.lo + (u128::MAX - other.lo) + 1 }
        }
    }

    /// The sum of two numbers that stays below two to the power 256.
    fn plus(self, other: Wide) -> (r: Wide)
        requires
            self.value() + other.value() < half_weight() * half_weight(),
        ensures
            r.value() == self.value() + other.value(),
    {
        if self.lo > u128::MAX - other.lo {
            Wide { hi: self.hi + other.hi + 1, lo: self.lo - (u128::MAX - other.lo) - 1 }
        } else {
            Wide { hi: self.hi + other.hi, lo: self.lo + other.lo }
        }
    }
}

/// The group order in two halves.
fn order_wide() -> (r: Wide)
    ensures
        r.value() == group_order(),
{
    Wide { hi: 0xFFFFFFFFFFFFFFFFFFFFFFFFFFFFFFFE, lo: 0xBAAEDCE6AF48A03BBFD25E8CD0364141 }
}

/// Reads the sixteen bytes of `bytes` that start at `start` as one number.
fn load_half(bytes: &[u8; 32], start: usize) -> (r: u128)
    requires
        start + 16 <= 32,
    ensures
        r as nat == be_value(bytes@.subrange(start as int, start + 16)),
{
    let mut acc: u128 = 0;
    let mut i: usize = 0;
    proof {
        lemma_pow256_sixteen();
    }
    while i < 16
        invariant
            i <= 16,
            start + 16 <= 32,
            pow256(16) == half_weight(),
            acc as nat == be_value(bytes@.subrange(start as int, start + i)),
            (acc as nat) < pow256(i as nat),
        decreases 16 - i,
    {
        let ghost before = bytes@.subrange(start as int, start + i);
        let ghost after = bytes@.subrange(start as int, start + i + 1);
        proof {
            assert(after.drop_last() =~= before);
            assert(after.last() == bytes@[start + i]);
            lemma_pow256_step_bound(i as nat, 16);
        }
        acc = acc * 256 + bytes[start + i] as u128;
        i += 1;
    }
    acc
}

/// Below the exponent `top`, one more byte still fits under `256^top`.
proof fn lemma_pow256_step_bound(n: nat, top: nat)
    requires
        n < top,
    ensures
        256 * pow256(n) <= pow256(top),
    decreases top,
{
    if n + 1 < top {
        lemma_pow256_step_bound(n, (top - 1) as nat);
    }
}

/// Reads 32 bytes as a number in two halves.
fn load(bytes: &[u8; 32]) -> (r: Wide)
    ensures
        r.value() == be_value(bytes@),
{
    let hi: u128 = load_half(bytes, 0);
    let lo: u128 = load_half(bytes, 16);
    proof {
        let front = bytes@.subrange(0, 16);
        let back = bytes@.subrange(16, 32);
        assert(bytes@ =~= front + back);
        lemma_be_value_concat(front, back);
        lemma_pow256_sixteen();
    }
    Wide { hi, lo }
}

/// A single byte spells itself.
proof fn lemma_be_value_single(byte: u8)
    ensures
        be_value(seq![byte]) == byte as nat,
{
    let one = seq![byte];
    assert(one.drop_last() =~= Seq::<u8>::empty());
    assert(be_value(one.drop_last()) == 0);
    assert(one.last() == byte);
}

/// Writes `value` into the sixteen bytes of `bytes` that start at `start`.
fn store_half(bytes: [u8; 32], start: usize, value: u128) -> (r: [u8; 32])
    requires
        start + 16 <= 32,
    ensures
        be_value(r@.subrange(start as int, start + 16)) == value as nat,
        forall|j: int| 0 <= j < 32 && !(start <= j < start + 16) ==> r@[j] == bytes@[j],
{
    let mut out = bytes;
    let mut rest: u128 = value;
    let mut i: usize = 0;
    proof {
        assert(out@.subrange(start + 16, start + 16) =~= Seq::<u8>::empty());
        assert(be_value(out@.subrange(start + 16, start + 16)) == 0);
        assert(pow256(0) == 1);
    }
    while i < 16
        invariant
            i <= 16,
            start + 16 <= 32,
            be_value(out@.subrange(start + 16 - i, start + 16)) + rest as nat * pow256(i as nat)
                == value as nat,
            forall|j: int| 0 <= j < 32 && !(start <= j < start + 16) ==> out@[j] == bytes@[j],
        decreases 16 - i,
    {
        let low: u8 = (rest % 256) as u8;
        let higher: u128 = rest / 256;
        let ghost tail = out@.subrange(start + 16 - i, start + 16);
        out[start + 15 - i] = low;
        proof {
            let grown = out@.subrange(start + 15 - i, start + 16);
            assert(grown =~= seq![low] + tail);
            lemma_be_value_concat(seq![low], tail);
            lemma_be_value_single(low);
            let p = pow256(i as nat);
            assert(pow256((i + 1) as nat) == 256 * p);
            assert(rest as nat == 256 * higher as nat + low as nat);
            assert((256 * higher as nat + low as nat) * p == higher as nat * (256 * p) + low as nat
                * p) by (nonlinear_arith);
        }
        rest = higher;
        i += 1;
    }
    proof {
        lemma_pow256_sixteen();
        let weight = pow256(16);
        assert(rest == 0) by (nonlinear_arith)
            requires
                rest as nat * weight <= value as nat,
                weight == 0x100000000000000000000000000000000nat,
                value <= 0xFFFFFFFFFFFFFFFFFFFFFFFFFFFFFFFF,
        ;
    }
    out
}

/// Writes a number in two halves as 32 bytes.
fn store(number: Wide) -> (r: [u8; 32])
    ensures
        be_value(r@) == number.value(),
{
    let zeros: [u8; 32] = [0u8; 32];
    let upper = store_half(zeros, 0, number.hi);
    let both = store_half(upper, 16, number.lo);
    proof {
        let front = both@.subrange(0, 16);
        let back = both@.subrange(16, 32);
        assert(front =~= upper@.subrange(0, 16));
        assert(both@ =~= front + back);
        lemma_be_value_concat(front, back);
        lemma_pow256_sixteen();
    }
    both
}

/// A number below two to the power 256, brought below the group order.
fn reduce_wide(number: Wide) -> (r: Wide)
    ensures
        r.value() == number.value() % group_order(),
        r.value() < group_order(),
{
    let order = order_wide();
    if number.reaches(order) {
        let r = number.minus(order);
        assert(r.value() == number.value() % group_order()) by {
            lemma_mod_after_one_step(number.value(), r.value());
        }
        r
    } else {
        assert(number.value() == number.value() % group_order()) by {
            lemma_mod_of_small(number.value());
        }
        number
    }
}

/// A number below the group order is its own remainder.
proof fn lemma_mod_of_small(v: nat)
    requires
        v < group_order(),
    ensures
        v % group_order() == v,
{
    vstd::arithmetic::div_mod::lemma_small_mod(v, group_order());
}

/// Taking the group order away once leaves the remainder, where the rest is
/// below the order.
proof fn lemma_mod_after_one_step(v: nat, rest: nat)
    requires
        v == rest + group_order(),
        rest < group_order(),
    ensures
        v % group_order() == rest,
{
    let n = group_order() as int;
    vstd::arithmetic::div_mod::lemma_mod_add_multiples_vanish(rest as int, n);
    vstd::arithmetic::div_mod::lemma_small_mod(rest, group_order());
}

/// Whether `key` is a private key: not zero and below the group order.
pub fn is_valid_private_key(key: &[u8; 32]) -> (r: bool)
    ensures
        r == is_private_key(key@),
{
    let number = load(key);
    let is_zero = number.hi == 0 && number.lo == 0;
    !is_zero && !number.reaches(order_wide())
}

/// The remainder of `bytes`, read as a number, on division by the group order.
pub fn reduce_scalar(bytes: &[u8; 32]) -> (r: [u8; 32])
    ensures
        r@ == scalar_bytes(be_value(bytes@) % group_order()),
        be_value(r@) == be_value(bytes@) % group_order(),
{
    let r: [u8; 32] = store(reduce_wide(load(bytes)));
    proof {
        lemma_scalar_bytes_unique(r@, be_value(bytes@) % group_order());
    }
    r
}

/// The sum of two scalars modulo the group order.
pub fn add_scalars(a: &[u8; 32], b: &[u8; 32]) -> (r: [u8; 32])
    ensures
        r@ == scalar_bytes((be_value(a@) + be_value(b@)) % group_order()),
        be_value(r@) == (be_value(a@) + be_value(b@)) % group_order(),
{
    let x = reduce_wide(load(a));
    let y = reduce_wide(load(b));
    let gap = order_wide().minus(y);
    let sum = if x.reaches(gap) {
        x.minus(gap)
    } else {
        x.plus(y)
    };
    proof {
        let n = group_order();
        let total = be_value(a@) + be_value(b@);
        assert(sum.value() == (x.value() + y.value()) % n) by {
            if x.value() >= gap.value() {
                lemma_mod_after_one_step(x.value() + y.value(), sum.value());
            } else {
                lemma_mod_of_small(x.value() + y.value());
            }
        }
        vstd::arithmetic::div_mod::lemma_add_mod_noop(
            be_value(a@) as int,
            be_value(b@) as int,
            n as int,
        );
    }
    let r: [u8; 32] = store(sum);
    proof {
        lemma_scalar_bytes_unique(r@, (be_value(a@) + be_value(b@)) % group_order());
    }
    r
}

} // verus!
