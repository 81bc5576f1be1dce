//! Byte-level encodings used by the value interpreter: big-endian unsigned
//! values, minimal two's-complement signed values, and digit strings.
use vstd::prelude::*;

verus! {

/// Value of a big-endian byte sequence read as an unsigned integer.
pub open spec fn be_val(b: Seq<u8>) -> nat
    decreases b.len(),
{
    if b.len() == 0 {
        0
    } else {
        be_val(b.drop_last()) * 256 + b.last() as nat
    }
}

/// 256 raised to the power `k`: the number of values of a `k`-byte sequence.
pub open spec fn pow256(k: nat) -> nat
    decreases k,
{
    if k == 0 {
        1
    } else {
        256 * pow256((k - 1) as nat)
    }
}

/// Minimal big-endian encoding of `n`: no leading zero byte, and zero encodes
/// to the empty sequence.
pub open spec fn min_be(n: nat) -> Seq<u8>
    decreases n,
{
    if n == 0 {
        Seq::empty()
    } else {
        min_be(n / 256).push((n % 256) as u8)
    }
}

/// Big-endian encoding of `n` in exactly `k` bytes, padded with leading zeros.
pub open spec fn be_fixed(n: nat, k: nat) -> Seq<u8>
    decreases k,
{
    if k == 0 {
        Seq::empty()
    } else {
        be_fixed(n / 256, (k - 1) as nat).push((n % 256) as u8)
    }
}

/// Value of a big-endian byte sequence read as a two's-complement signed
/// integer; the empty sequence stands for zero.
pub open spec fn signed_val(b: Seq<u8>) -> int {
    if b.len() == 0 {
        0
    } else if b[0] >= 0x80 {
        be_val(b) - pow256(b.len())
    } else {
        be_val(b) as int
    }
}

/// Signed encoding of a positive value: the minimal unsigned bytes, with one
/// leading zero byte exactly when their top bit is set.
pub open spec fn plus_bytes(v: nat) -> Seq<u8>
    recommends
        v > 0,
{
    let m = min_be(v);
    if m[0] >= 0x80 {
        seq![0u8] + m
    } else {
        m
    }
}

/// Signed encoding of a negative value `-v`: the shortest two's-complement
/// big-endian byte sequence whose signed value is `-v`.
pub open spec fn neg_bytes(v: nat) -> Seq<u8>
    recommends
        v > 0,
{
    let k = min_be(v).len();
    if v <= 128 * pow256((k - 1) as nat) {
        be_fixed((pow256(k) - v) as nat, k)
    } else {
        be_fixed((pow256((k + 1) as nat) - v) as nat, (k + 1) as nat)
    }
}

/// Minimal two's-complement signed encoding of any integer; zero encodes to
/// the empty sequence.
pub open spec fn signed_bytes(i: int) -> Seq<u8> {
    if i == 0 {
        Seq::empty()
    } else if i > 0 {
        plus_bytes(i as nat)
    } else {
        neg_bytes((-i) as nat)
    }
}

pub proof fn lemma_be_val_empty()
    ensures
        be_val(Seq::<u8>::empty()) == 0,
{
}

pub proof fn lemma_be_val_single(x: u8)
    ensures
        be_val(seq![x]) == x,
{
    lemma_be_val_empty();
    assert(seq![x].drop_last() =~= Seq::<u8>::empty());
    assert(seq![x].last() == x);
}

pub proof fn lemma_be_val_concat(a: Seq<u8>, b: Seq<u8>)
    ensures
        be_val(a + b) == be_val(a) * pow256(b.len()) + be_val(b),
    decreases b.len(),
{
    if b.len() == 0 {
        assert(a + b =~= a);
        lemma_be_val_empty();
        assert(pow256(0) == 1);
    } else {
        let bl = b.drop_last();
        let last = b.last();
        lemma_be_val_concat(a, bl);
        assert((a + b).drop_last() =~= a + bl);
        assert((a + b).last() == last);
        assert(be_val(a + b) == be_val(a + bl) * 256 + last as nat);
        assert(be_val(b) == be_val(bl) * 256 + last as nat);
        assert(bl.len() == b.len() - 1);
        assert(pow256(b.len()) == 256 * pow256(bl.len()));
        assert((be_val(a) * pow256(bl.len()) + be_val(bl)) * 256 == be_val(a) * (256 * pow256(
            bl.len(),
        )) + be_val(bl) * 256) by (nonlinear_arith);
    }
}

pub proof fn lemma_min_be_ok(n: nat)
    ensures
        be_val(min_be(n)) == n,
        n == 0 <==> min_be(n).len() == 0,
        n > 0 ==> min_be(n)[0] != 0,
    decreases n,
{
    if n > 0 {
        lemma_min_be_ok(n / 256);
        let m = min_be(n);
        assert(m == min_be(n / 256).push((n % 256) as u8));
        assert(m.drop_last() =~= min_be(n / 256));
        assert(m.last() == (n % 256) as u8);
        vstd::arithmetic::div_mod::lemma_fundamental_div_mod(n as int, 256);
        if n / 256 == 0 {
            assert(m.len() == 1);
            assert(n < 256);
            assert(m[0] == n % 256);
        } else {
            assert(m[0] == min_be(n / 256)[0]);
        }
    }
}

pub proof fn lemma_pow256_pos(k: nat)
    ensures
        pow256(k) >= 1,
    decreases k,
{
    if k > 0 {
        lemma_pow256_pos((k - 1) as nat);
    }
}

/// The length of the minimal encoding is at most `k` exactly when the value
/// fits in `k` bytes.
pub proof fn lemma_min_be_len(n: nat, k: nat)
    ensures
        n < pow256(k) <==> min_be(n).len() <= k,
    decreases k,
{
    if n == 0 {
        lemma_pow256_pos(k);
    } else if k == 0 {
        assert(min_be(n).len() > 0);
    } else {
        lemma_min_be_len(n / 256, (k - 1) as nat);
        vstd::arithmetic::div_mod::lemma_fundamental_div_mod(n as int, 256);
        assert(min_be(n).len() == min_be(n / 256).len() + 1);
        lemma_pow256_pos((k - 1) as nat);
        let p = pow256((k - 1) as nat);
        assert(pow256(k) == 256 * p);
        assert(n / 256 < p <==> n < 256 * p) by (nonlinear_arith)
            requires
                p >= 1,
                n == 256 * (n / 256) + n % 256,
                0 <= n % 256 < 256,
        ;
    }
}

pub proof fn lemma_be_fixed(n: nat, k: nat)
    requires
        n < pow256(k),
    ensures
        be_fixed(n, k).len() == k,
        be_val(be_fixed(n, k)) == n,
    decreases k,
{
    if k == 0 {
    } else {
        let p = pow256((k - 1) as nat);
        vstd::arithmetic::div_mod::lemma_fundamental_div_mod(n as int, 256);
        assert(n / 256 < p) by (nonlinear_arith)
            requires
                n < 256 * p,
                n == 256 * (n / 256) + n % 256,
                0 <= n % 256 < 256,
                p >= 1,
        ;
        lemma_be_fixed(n / 256, (k - 1) as nat);
        let b = be_fixed(n, k);
        assert(b.drop_last() =~= be_fixed(n / 256, (k - 1) as nat));
        assert(b.last() == (n % 256) as u8);
    }
}

/// The first byte of a fixed-width encoding is the value's top radix-256 digit.
pub proof fn lemma_be_fixed_first(n: nat, k: nat)
    requires
        k >= 1,
        n < pow256(k),
    ensures
        be_fixed(n, k).len() == k,
        be_fixed(n, k)[0] == n / pow256((k - 1) as nat),
    decreases k,
{
    lemma_be_fixed(n, k);
    if k == 1 {
        assert(pow256(0) == 1);
        assert(pow256(1) == 256);
        assert(be_fixed(n, k)[0] == (n % 256) as u8);
        vstd::arithmetic::div_mod::lemma_small_mod(n, 256);
        assert(n / 1 == n) by (nonlinear_arith);
    } else {
        let p = pow256((k - 2) as nat);
        vstd::arithmetic::div_mod::lemma_fundamental_div_mod(n as int, 256);
        assert(n / 256 < pow256((k - 1) as nat)) by {
            lemma_min_be_len(n, k);
            lemma_min_be_len(n / 256, (k - 1) as nat);
            assert(min_be(n / 256).len() <= k - 1) by {
                if n == 0 {
                } else {
                    assert(min_be(n).len() == min_be(n / 256).len() + 1);
                }
            }
        }
        lemma_be_fixed_first(n / 256, (k - 1) as nat);
        assert(be_fixed(n, k)[0] == be_fixed(n / 256, (k - 1) as nat)[0]);
        assert((n / 256) / p == n / (256 * p)) by {
            vstd::arithmetic::div_mod::lemma_div_denominator(n as int, 256, p as int);
            lemma_pow256_pos((k - 2) as nat);
        }
        assert(pow256((k - 1) as nat) == 256 * p);
    }
}

/// Signed encoding and signed decoding are mutually inverse: reading back the
/// signed encoding of any integer yields that integer.
pub proof fn lemma_signed_round_trip(i: int)
    ensures
        signed_val(signed_bytes(i)) == i,
{
    if i == 0 {
    } else if i > 0 {
        let v = i as nat;
        lemma_min_be_ok(v);
        let m = min_be(v);
        if m[0] >= 0x80 {
            let b = seq![0u8] + m;
            assert(b[0] == 0);
            lemma_be_val_concat(seq![0u8], m);
            lemma_be_val_single(0);
            assert(be_val(b) == v);
        }
    } else {
        let v = (-i) as nat;
        lemma_min_be_ok(v);
        let k0 = min_be(v).len();
        lemma_min_be_len(v, k0);
        assert(v < pow256(k0));
        lemma_pow256_pos((k0 - 1) as nat);
        let half = 128 * pow256((k0 - 1) as nat);
        if v <= half {
            let x = (pow256(k0) - v) as nat;
            assert(pow256(k0) == 256 * pow256((k0 - 1) as nat));
            assert(x >= half) by {
                assert(pow256(k0) - v >= 256 * pow256((k0 - 1) as nat) - 128 * pow256(
                    (k0 - 1) as nat,
                ));
            }
            lemma_be_fixed_first(x, k0);
            let b = be_fixed(x, k0);
            assert(b[0] >= 0x80) by {
                assert(x / pow256((k0 - 1) as nat) >= 128) by (nonlinear_arith)
                    requires
                        x >= 128 * pow256((k0 - 1) as nat),
                        pow256((k0 - 1) as nat) >= 1,
                ;
            }
            lemma_be_fixed(x, k0);
            assert(signed_val(b) == x - pow256(k0));
        } else {
            let k = (k0 + 1) as nat;
            let x = (pow256(k) - v) as nat;
            assert(pow256(k) == 256 * pow256(k0));
            lemma_pow256_pos(k0);
            assert(x < pow256(k));
            assert(x >= 128 * pow256(k0)) by {
                assert(pow256(k) - v >= 256 * pow256(k0) - pow256(k0));
                assert(255 * pow256(k0) >= 128 * pow256(k0)) by (nonlinear_arith)
                    requires
                        pow256(k0) >= 1,
                ;
            }
            lemma_be_fixed_first(x, k);
            let b = be_fixed(x, k);
            assert(b[0] >= 0x80) by {
                assert(x / pow256(k0) >= 128) by (nonlinear_arith)
                    requires
                        x >= 128 * pow256(k0),
                        pow256(k0) >= 1,
                ;
            }
            lemma_be_fixed(x, k);
            assert(signed_val(b) == x - pow256(k));
        }
    }
}

pub proof fn lemma_be_val_bound(b: Seq<u8>)
    ensures
        be_val(b) < pow256(b.len()),
    decreases b.len(),
{
    if b.len() == 0 {
    } else {
        lemma_be_val_bound(b.drop_last());
        assert(be_val(b.drop_last()) <= pow256((b.len() - 1) as nat) - 1);
        assert(be_val(b.drop_last()) * 256 <= (pow256((b.len() - 1) as nat) - 1) * 256)
            by (nonlinear_arith)
            requires
                be_val(b.drop_last()) <= pow256((b.len() - 1) as nat) - 1,
        ;
        assert(b.last() < 256);
    }
}

pub proof fn lemma_pow256_mono(j: nat, k: nat)
    requires
        j <= k,
    ensures
        pow256(j) <= pow256(k),
    decreases k,
{
    if j < k {
        lemma_pow256_mono(j, (k - 1) as nat);
        lemma_pow256_pos((k - 1) as nat);
    }
}

/// A non-empty sequence decomposes into its first byte, weighted by the
/// width of the rest, plus the value of the rest.
pub proof fn lemma_be_val_first_byte(b: Seq<u8>)
    requires
        b.len() > 0,
    ensures
        be_val(b) == b[0] * pow256((b.len() - 1) as nat) + be_val(b.drop_first()),
        be_val(b.drop_first()) < pow256((b.len() - 1) as nat),
{
    assert(b =~= seq![b[0]] + b.drop_first());
    lemma_be_val_concat(seq![b[0]], b.drop_first());
    lemma_be_val_single(b[0]);
    lemma_be_val_bound(b.drop_first());
}

/// The unsigned encoding is minimal: no byte sequence reading back as the
/// same value is shorter than `min_be` of that value.
pub proof fn lemma_min_be_shortest(b: Seq<u8>)
    ensures
        min_be(be_val(b)).len() <= b.len(),
{
    lemma_be_val_bound(b);
    lemma_min_be_len(be_val(b), b.len());
}

/// The signed encoding is minimal: no byte sequence reading back as the
/// same two's-complement value is shorter than `signed_bytes` of that value.
pub proof fn lemma_signed_bytes_shortest(b: Seq<u8>)
    ensures
        signed_bytes(signed_val(b)).len() <= b.len(),
{
    let i = signed_val(b);
    if i == 0 {
    } else if i > 0 {
        let v = i as nat;
        lemma_be_val_bound(b);
        assert(b.len() > 0);
        assert(b[0] < 0x80);
        assert(be_val(b) == v);
        lemma_min_be_ok(v);
        lemma_min_be_shortest(b);
        let k0 = min_be(v).len();
        if min_be(v)[0] >= 0x80 {
            assert(plus_bytes(v).len() == k0 + 1);
            lemma_be_val_first_byte(min_be(v));
            lemma_pow256_pos((k0 - 1) as nat);
            assert(v >= 128 * pow256((k0 - 1) as nat)) by (nonlinear_arith)
                requires
                    v == min_be(v)[0] * pow256((k0 - 1) as nat) + be_val(min_be(v).drop_first()),
                    min_be(v)[0] >= 128,
                    pow256((k0 - 1) as nat) >= 1,
            ;
            if b.len() == k0 {
                lemma_be_val_first_byte(b);
                assert(be_val(b) < 128 * pow256((k0 - 1) as nat)) by (nonlinear_arith)
                    requires
                        be_val(b) == b[0] * pow256((k0 - 1) as nat) + be_val(b.drop_first()),
                        be_val(b.drop_first()) < pow256((k0 - 1) as nat),
                        b[0] < 128,
                ;
                assert(false);
            }
        } else {
            assert(plus_bytes(v).len() == k0);
        }
    } else {
        let v = (-i) as nat;
        lemma_be_val_bound(b);
        assert(b.len() > 0);
        assert(b[0] >= 0x80);
        let len = b.len();
        lemma_be_val_first_byte(b);
        lemma_pow256_pos((len - 1) as nat);
        assert(be_val(b) >= 128 * pow256((len - 1) as nat)) by (nonlinear_arith)
            requires
                be_val(b) == b[0] * pow256((len - 1) as nat) + be_val(b.drop_first()),
                b[0] >= 128,
                pow256((len - 1) as nat) >= 1,
        ;
        assert(pow256(len) == 256 * pow256((len - 1) as nat));
        assert(v <= 128 * pow256((len - 1) as nat));
        lemma_min_be_ok(v);
        let k0 = min_be(v).len();
        assert(k0 >= 1);
        assert(v >= pow256((k0 - 1) as nat)) by {
            lemma_min_be_len(v, (k0 - 1) as nat);
        }
        let half0 = 128 * pow256((k0 - 1) as nat);
        if v <= half0 {
            assert(neg_bytes(v).len() == k0) by {
                lemma_min_be_len(v, k0);
                lemma_pow256_pos(k0);
                lemma_be_fixed((pow256(k0) - v) as nat, k0);
            }
            if len < k0 {
                assert(128 * pow256((len - 1) as nat) < pow256((k0 - 1) as nat)) by {
                    lemma_pow256_mono(len, (k0 - 1) as nat);
                    assert(pow256(len) == 256 * pow256((len - 1) as nat));
                    assert(128 * pow256((len - 1) as nat) < pow256(len));
                }
                assert(false);
            }
        } else {
            assert(neg_bytes(v).len() == k0 + 1) by {
                lemma_min_be_len(v, k0);
                lemma_pow256_pos((k0 + 1) as nat);
                assert(pow256((k0 + 1) as nat) == 256 * pow256(k0));
                lemma_be_fixed((pow256((k0 + 1) as nat) - v) as nat, (k0 + 1) as nat);
            }
            if len < k0 + 1 {
                assert(128 * pow256((len - 1) as nat) <= half0) by {
                    lemma_pow256_mono((len - 1) as nat, (k0 - 1) as nat);
                }
                assert(false);
            }
        }
    }
}

/// Numeric value of one ASCII digit character, for radixes up to 36; any
/// other byte maps to a value no radix accepts.
pub open spec fn digit_val(b: u8) -> nat {
    if 0x30 <= b <= 0x39 {
        (b - 0x30) as nat
    } else if 0x61 <= b <= 0x7a {
        (b - 0x61 + 10) as nat
    } else if 0x41 <= b <= 0x5a {
        (b - 0x41 + 10) as nat
    } else {
        99
    }
}

pub open spec fn is_radix_digit(b: u8, radix: nat) -> bool {
    digit_val(b) < radix
}

/// Value of a big-endian digit string in the given radix.
pub open spec fn digits_val(d: Seq<u8>, radix: nat) -> nat
    decreases d.len(),
{
    if d.len() == 0 {
        0
    } else {
        digits_val(d.drop_last(), radix) * radix + digit_val(d.last())
    }
}

/// One leading `+` is dropped before digit parsing, unless a second `+`
/// follows it.
pub open spec fn strip_plus(d: Seq<u8>) -> Seq<u8> {
    if d.len() >= 1 && d[0] == 0x2b && !(d.len() >= 2 && d[1] == 0x2b) {
        d.drop_first()
    } else {
        d
    }
}

/// A digit string parses in the given radix when, after dropping one leading
/// `+`, it is non-empty and made of digits of that radix alone.
pub open spec fn radix_ok(d: Seq<u8>, radix: nat) -> bool {
    let body = strip_plus(d);
    body.len() > 0 && forall|i: int| 0 <= i < body.len() ==> is_radix_digit(body[i], radix)
}

pub open spec fn radix_val(d: Seq<u8>, radix: nat) -> nat {
    digits_val(strip_plus(d), radix)
}

/// Big-endian bytes of a parsed magnitude as the bignum library hands them
/// out: a single zero byte for zero, the minimal encoding otherwise.
pub open spec fn raw_be(v: nat) -> Seq<u8> {
    if v == 0 {
        seq![0u8]
    } else {
        min_be(v)
    }
}

/// The ASCII decimal digits of `n`, most significant first.
pub open spec fn dec_digits(n: nat) -> Seq<u8>
    decreases n,
{
    if n < 10 {
        seq![(0x30 + n) as u8]
    } else {
        dec_digits(n / 10).push((0x30 + n % 10) as u8)
    }
}

pub proof fn lemma_dec_digits(n: nat)
    ensures
        dec_digits(n).len() >= 1,
        forall|i: int| 0 <= i < dec_digits(n).len() ==> 0x30 <= #[trigger] dec_digits(n)[i]
            <= 0x39,
        digits_val(dec_digits(n), 10) == n,
    decreases n,
{
    if n < 10 {
        let d = dec_digits(n);
        assert(d.drop_last() =~= Seq::<u8>::empty());
        assert(digits_val(Seq::<u8>::empty(), 10) == 0);
        assert(digits_val(d, 10) == digit_val(d.last()));
    } else {
        lemma_dec_digits(n / 10);
        let d = dec_digits(n);
        assert(d.drop_last() =~= dec_digits(n / 10));
        assert(d.last() == (0x30 + n % 10) as u8);
        assert(digit_val(d.last()) == n % 10);
        vstd::arithmetic::div_mod::lemma_fundamental_div_mod(n as int, 10);
        assert(forall|i: int|
            0 <= i < d.len() - 1 ==> 0x30 <= #[trigger] d[i] <= 0x39) by {
            assert(forall|i: int| 0 <= i < d.len() - 1 ==> d[i] == dec_digits(n / 10)[i]);
        }
    }
}

} // verus!
