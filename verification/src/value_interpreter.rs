//! The value interpreter: the mini-language embedded in every scenario
//! string, decoding each string to a canonical byte sequence.
//!
//! The rules, in order of precedence: the empty string; concatenation on
//! `|`; the booleans; the string-literal prefixes `str:`, ` `` `, `''`; the
//! `address:` prefix; the `file:` prefix; the reserved numeric prefixes;
//! explicit-sign integers; and, last, unsigned integers in hexadecimal,
//! binary or decimal notation.
use super::bigint::{negative_signed_bytes_be, parse_radix_bytes};
use super::context::{CtxView, InterpreterContext, lookup_file};
use super::encoding::{lemma_min_be_ok, min_be, radix_ok, radix_val, raw_be, signed_bytes};
use super::errors::{ErrorKind, InterpretError};
use super::value_raw::{ValueSubTree, entries_key_sorted, lemma_key_sorted_entries_unique};
use vstd::prelude::*;
use vstd::utf8::encode_utf8;

verus! {

/// `p` is a prefix of `s`.
pub open spec fn has_prefix(s: Seq<u8>, p: Seq<u8>) -> bool {
    p.len() <= s.len() && forall|i: int| 0 <= i < p.len() ==> s[i] == p[i]
}

/// The UTF-8 bytes of `"true"`.
pub open spec fn true_bytes() -> Seq<u8> {
    seq![0x74u8, 0x72, 0x75, 0x65]
}

/// The UTF-8 bytes of `"false"`.
pub open spec fn false_bytes() -> Seq<u8> {
    seq![0x66u8, 0x61, 0x6c, 0x73, 0x65]
}

/// `"str:"`
pub open spec fn str_prefix() -> Seq<u8> {
    seq![0x73u8, 0x74, 0x72, 0x3a]
}

/// Two backquotes.
pub open spec fn backtick_prefix() -> Seq<u8> {
    seq![0x60u8, 0x60]
}

/// Two apostrophes.
pub open spec fn apostrophe_prefix() -> Seq<u8> {
    seq![0x27u8, 0x27]
}

/// `"address:"`
pub open spec fn address_prefix() -> Seq<u8> {
    seq![0x61u8, 0x64, 0x64, 0x72, 0x65, 0x73, 0x73, 0x3a]
}

/// `"file:"`
pub open spec fn file_prefix() -> Seq<u8> {
    seq![0x66u8, 0x69, 0x6c, 0x65, 0x3a]
}

/// `"keccak256:"`
pub open spec fn keccak_prefix() -> Seq<u8> {
    seq![0x6bu8, 0x65, 0x63, 0x63, 0x61, 0x6b, 0x32, 0x35, 0x36, 0x3a]
}

/// The reserved fixed-width numeric prefixes `u64:` down to `i8:`.
pub open spec fn width_prefixes() -> Seq<Seq<u8>> {
    seq![
        seq![0x75u8, 0x36, 0x34, 0x3a],
        seq![0x75u8, 0x33, 0x32, 0x3a],
        seq![0x75u8, 0x31, 0x36, 0x3a],
        seq![0x75u8, 0x38, 0x3a],
        seq![0x69u8, 0x36, 0x34, 0x3a],
        seq![0x69u8, 0x33, 0x32, 0x3a],
        seq![0x69u8, 0x31, 0x36, 0x3a],
        seq![0x69u8, 0x38, 0x3a],
    ]
}

/// A reserved prefix: recognised, but with no collaborator behind it.
pub open spec fn is_reserved(s: Seq<u8>) -> bool {
    has_prefix(s, keccak_prefix()) || exists|i: int|
        0 <= i < width_prefixes().len() && has_prefix(s, width_prefixes()[i])
}

/// `"0x"`, `"0X"`, `"0b"`, `"0B"`.
pub open spec fn hex_prefix() -> Seq<u8> {
    seq![0x30u8, 0x78]
}

pub open spec fn hex_prefix_uc() -> Seq<u8> {
    seq![0x30u8, 0x58]
}

pub open spec fn bin_prefix() -> Seq<u8> {
    seq![0x30u8, 0x62]
}

pub open spec fn bin_prefix_uc() -> Seq<u8> {
    seq![0x30u8, 0x42]
}

/// The separators an integer notation may carry anywhere: `_` and `,`.
pub open spec fn is_sep(b: u8) -> bool {
    b == 0x5f || b == 0x2c
}

/// The string with all separators removed.
pub open spec fn clean_seq(s: Seq<u8>) -> Seq<u8>
    decreases s.len(),
{
    if s.len() == 0 {
        Seq::empty()
    } else if is_sep(s.last()) {
        clean_seq(s.drop_last())
    } else {
        clean_seq(s.drop_last()).push(s.last())
    }
}

/// The magnitude an unsigned integer notation denotes: separators removed,
/// base chosen by prefix, an empty body after a base prefix denoting zero.
/// `None` when the digits do not parse.
pub open spec fn parse_unsigned_val(s: Seq<u8>) -> Option<nat> {
    let c = clean_seq(s);
    if has_prefix(c, hex_prefix()) || has_prefix(c, hex_prefix_uc()) {
        let body = c.skip(2);
        if body.len() == 0 {
            Option::Some(0 as nat)
        } else if radix_ok(body, 16) {
            Option::Some(radix_val(body, 16))
        } else {
            Option::None
        }
    } else if has_prefix(c, bin_prefix()) || has_prefix(c, bin_prefix_uc()) {
        let body = c.skip(2);
        if body.len() == 0 {
            Option::Some(0 as nat)
        } else if radix_ok(body, 2) {
            Option::Some(radix_val(body, 2))
        } else {
            Option::None
        }
    } else {
        if radix_ok(c, 10) {
            Option::Some(radix_val(c, 10))
        } else {
            Option::None
        }
    }
}

/// The bytes of an unsigned integer value string: minimal big-endian, zero
/// encoding to nothing.
pub open spec fn interp_unsigned(s: Seq<u8>) -> Result<Seq<u8>, ErrorKind> {
    match parse_unsigned_val(s) {
        Option::Some(v) => Result::Ok(min_be(v)),
        Option::None => Result::Err(ErrorKind::BadLiteral),
    }
}

/// The bytes of an explicit-sign integer value string: minimal
/// two's-complement, zero encoding to nothing whatever its sign.
pub open spec fn interp_signed(negative: bool, s: Seq<u8>) -> Result<Seq<u8>, ErrorKind> {
    match parse_unsigned_val(s) {
        Option::Some(v) => Result::Ok(
            signed_bytes(
                if negative {
                    -(v as int)
                } else {
                    v as int
                },
            ),
        ),
        Option::None => Result::Err(ErrorKind::BadLiteral),
    }
}

/// The `address:` payload: its UTF-8 bytes, truncated to 32 bytes when
/// longer, right-padded with `_` (0x5F) to 32 bytes when shorter.
pub open spec fn addr_bytes(p: Seq<u8>) -> Seq<u8> {
    if p.len() > 32 {
        p.subrange(0, 32)
    } else {
        p + Seq::new((32 - p.len()) as nat, |i: int| 0x5fu8)
    }
}

/// One value string with no `|` in it, interpreted by the prefix rules.
pub open spec fn interp_atom(s: Seq<u8>, ctx: CtxView) -> Result<Seq<u8>, ErrorKind> {
    if s.len() == 0 {
        Result::Ok(Seq::empty())
    } else if s == true_bytes() {
        Result::Ok(seq![1u8])
    } else if s == false_bytes() {
        Result::Ok(Seq::empty())
    } else if has_prefix(s, str_prefix()) {
        Result::Ok(s.skip(4))
    } else if has_prefix(s, backtick_prefix()) {
        Result::Ok(s.skip(2))
    } else if has_prefix(s, apostrophe_prefix()) {
        Result::Ok(s.skip(2))
    } else if has_prefix(s, address_prefix()) {
        Result::Ok(addr_bytes(s.skip(8)))
    } else if has_prefix(s, file_prefix()) {
        match ctx.files {
            Option::None => Result::Err(ErrorKind::Unsupported),
            Option::Some(files) => match lookup_file(files, s.skip(5)) {
                Option::Some(contents) => Result::Ok(contents),
                Option::None => Result::Err(ErrorKind::External),
            },
        }
    } else if is_reserved(s) {
        Result::Err(ErrorKind::Unsupported)
    } else if s[0] == 0x2b {
        interp_signed(false, s.drop_first())
    } else if s[0] == 0x2d {
        interp_signed(true, s.drop_first())
    } else {
        interp_unsigned(s)
    }
}

/// The position of the first `|`, if any.
pub open spec fn find_pipe(s: Seq<u8>) -> Option<int>
    decreases s.len(),
{
    if s.len() == 0 {
        Option::None
    } else if s[0] == 0x7c {
        Option::Some(0)
    } else {
        match find_pipe(s.drop_first()) {
            Option::Some(i) => Option::Some(i + 1),
            Option::None => Option::None,
        }
    }
}

/// The first `|` lies within the string, after a pipe-free prefix; and a
/// `None` means the string is pipe-free.
pub proof fn lemma_find_pipe(s: Seq<u8>)
    ensures
        match find_pipe(s) {
            Option::Some(i) => 0 <= i < s.len() && s[i] == 0x7c && forall|j: int|
                0 <= j < i ==> s[j] != 0x7c,
            Option::None => forall|j: int| 0 <= j < s.len() ==> s[j] != 0x7c,
        },
    decreases s.len(),
{
    if s.len() == 0 {
    } else if s[0] == 0x7c {
    } else {
        lemma_find_pipe(s.drop_first());
        match find_pipe(s.drop_first()) {
            Option::Some(ip) => {
                assert(s[ip + 1] == s.drop_first()[ip]);
                assert forall|j: int| 0 <= j < ip + 1 implies s[j] != 0x7c by {
                    if j > 0 {
                        assert(s[j] == s.drop_first()[j - 1]);
                    }
                }
            },
            Option::None => {
                assert forall|j: int| 0 <= j < s.len() implies s[j] != 0x7c by {
                    if j > 0 {
                        assert(s[j] == s.drop_first()[j - 1]);
                    }
                }
            },
        }
    }
}

/// The parts of a string split on every `|`; a string without `|` is one
/// part, and each part carries no `|`.
pub open spec fn split_pipe(s: Seq<u8>) -> Seq<Seq<u8>>
    decreases s.len(),
    via split_pipe_decreases
{
    match find_pipe(s) {
        Option::None => seq![s],
        Option::Some(i) => seq![s.subrange(0, i)] + split_pipe(s.skip(i + 1)),
    }
}

#[via_fn]
proof fn split_pipe_decreases(s: Seq<u8>) {
    lemma_find_pipe(s);
}

/// Each part interpreted on its own and the results concatenated in order;
/// the first failing part decides the error.
pub open spec fn interp_parts(parts: Seq<Seq<u8>>, ctx: CtxView) -> Result<Seq<u8>, ErrorKind>
    decreases parts.len(),
{
    if parts.len() == 0 {
        Result::Ok(Seq::empty())
    } else {
        match interp_atom(parts[0], ctx) {
            Result::Err(e) => Result::Err(e),
            Result::Ok(b) => match interp_parts(parts.drop_first(), ctx) {
                Result::Err(e) => Result::Err(e),
                Result::Ok(rest) => Result::Ok(b + rest),
            },
        }
    }
}

/// What a value string denotes, over its UTF-8 bytes: splitting on `|` comes
/// before every other rule, so each part is an atom.
pub open spec fn interp_str(s: Seq<u8>, ctx: CtxView) -> Result<Seq<u8>, ErrorKind> {
    if s.len() == 0 {
        Result::Ok(Seq::empty())
    } else if find_pipe(s) is Some {
        interp_parts(split_pipe(s), ctx)
    } else {
        interp_atom(s, ctx)
    }
}

/// What a raw value tree denotes: leaves by `interp_str`, lists and maps by
/// concatenation of their members' bytes in entry order; map keys contribute
/// nothing.
pub open spec fn interp_subtree(t: ValueSubTree, ctx: CtxView) -> Result<Seq<u8>, ErrorKind>
    decreases t,
{
    match t {
        ValueSubTree::Str(s) => interp_str(encode_utf8(s@), ctx),
        ValueSubTree::List(l) => interp_list(l@, ctx),
        ValueSubTree::Object(m) => interp_entries(m@, ctx),
    }
}

/// The members of a list, interpreted and concatenated in order.
pub open spec fn interp_list(ts: Seq<ValueSubTree>, ctx: CtxView) -> Result<Seq<u8>, ErrorKind>
    decreases ts,
{
    if ts.len() == 0 {
        Result::Ok(Seq::empty())
    } else {
        match interp_subtree(ts[0], ctx) {
            Result::Err(e) => Result::Err(e),
            Result::Ok(b) => match interp_list(ts.drop_first(), ctx) {
                Result::Err(e) => Result::Err(e),
                Result::Ok(rest) => Result::Ok(b + rest),
            },
        }
    }
}

/// The values of a map's entries, interpreted and concatenated in entry
/// order; in a well-formed tree the entries stand in lexicographic key
/// order, so the bytes are a pure function of the map's content.
pub open spec fn interp_entries(es: Seq<(String, ValueSubTree)>, ctx: CtxView) -> Result<
    Seq<u8>,
    ErrorKind,
>
    decreases es,
{
    if es.len() == 0 {
        Result::Ok(Seq::empty())
    } else {
        match interp_subtree(es[0].1, ctx) {
            Result::Err(e) => Result::Err(e),
            Result::Ok(b) => match interp_entries(es.drop_first(), ctx) {
                Result::Err(e) => Result::Err(e),
                Result::Ok(rest) => Result::Ok(b + rest),
            },
        }
    }
}

/// `p` read element-wise as a prefix of `s`.
fn starts_with_p(s: &[u8], p: &[u8]) -> (r: bool)
    ensures
        r == has_prefix(s@, p@),
{
    if p.len() > s.len() {
        return false;
    }
    let mut i: usize = 0;
    while i < p.len()
        invariant
            0 <= i <= p@.len(),
            p@.len() <= s@.len(),
            forall|j: int| 0 <= j < i ==> s@[j] == p@[j],
        decreases p@.len() - i,
    {
        if s[i] != p[i] {
            return false;
        }
        i += 1;
    }
    true
}

/// Element-wise equality of two byte slices.
pub(crate) fn bytes_eq(a: &[u8], b: &[u8]) -> (r: bool)
    ensures
        r == (a@ == b@),
{
    if a.len() != b.len() {
        return false;
    }
    let r = starts_with_p(a, b);
    proof {
        if has_prefix(a@, b@) {
            assert(a@ =~= b@);
        }
    }
    r
}

/// No separator survives cleaning.
proof fn lemma_clean_no_sep(s: Seq<u8>)
    ensures
        forall|i: int| 0 <= i < clean_seq(s).len() ==> !is_sep(#[trigger] clean_seq(s)[i]),
    decreases s.len(),
{
    if s.len() > 0 {
        lemma_clean_no_sep(s.drop_last());
        let c = clean_seq(s);
        if !is_sep(s.last()) {
            assert forall|i: int| 0 <= i < c.len() implies !is_sep(c[i]) by {
                if i < c.len() - 1 {
                    assert(c[i] == clean_seq(s.drop_last())[i]);
                } else {
                    assert(c[i] == s.last());
                }
            }
        }
    }
}

/// The string with every `_` and `,` removed.
fn clean_bytes(s: &[u8]) -> (r: Vec<u8>)
    ensures
        r@ == clean_seq(s@),
{
    let mut out: Vec<u8> = Vec::new();
    let mut i: usize = 0;
    while i < s.len()
        invariant
            i <= s@.len(),
            out@ == clean_seq(s@.subrange(0, i as int)),
        decreases s@.len() - i,
    {
        proof {
            assert(s@.subrange(0, i + 1).drop_last() =~= s@.subrange(0, i as int));
            assert(s@.subrange(0, i + 1).last() == s@[i as int]);
        }
        let b = s[i];
        if !(b == 0x5f || b == 0x2c) {
            out.push(b);
        }
        i += 1;
    }
    proof {
        assert(s@.subrange(0, s@.len() as int) =~= s@);
    }
    out
}

/// Scan for the first `|`.
fn find_pipe_pos(s: &[u8]) -> (r: Option<usize>)
    ensures
        match r {
            Option::Some(i) => find_pipe(s@) == Option::Some(i as int),
            Option::None => find_pipe(s@) is None,
        },
{
    let mut i: usize = 0;
    while i < s.len()
        invariant
            i <= s@.len(),
            forall|j: int| 0 <= j < i ==> s@[j] != 0x7c,
        decreases s@.len() - i,
    {
        if s[i] == 0x7c {
            proof {
                lemma_find_pipe(s@);
            }
            return Option::Some(i);
        }
        i += 1;
    }
    proof {
        lemma_find_pipe(s@);
    }
    Option::None
}

/// The `address:` payload as exactly 32 bytes: truncated, or padded with `_`.
fn address(payload: &[u8]) -> (r: Vec<u8>)
    ensures
        r@ == addr_bytes(payload@),
{
    if payload.len() > 32 {
        let r = vstd::slice::slice_to_vec(vstd::slice::slice_subrange(payload, 0, 32));
        return r;
    }
    let mut out = vstd::slice::slice_to_vec(payload);
    while out.len() < 32
        invariant
            payload@.len() <= 32,
            payload@.len() <= out@.len() <= 32,
            out@.subrange(0, payload@.len() as int) == payload@,
            forall|j: int| payload@.len() <= j < out@.len() ==> out@[j] == 0x5f,
        decreases 32 - out@.len(),
    {
        let ghost before = out@;
        out.push(0x5f);
        proof {
            assert(out@.subrange(0, payload@.len() as int) =~= before.subrange(
                0,
                payload@.len() as int,
            ));
        }
    }
    proof {
        assert(out@ =~= addr_bytes(payload@));
    }
    out
}

/// Look a path up in the injected file table; first match wins.
fn lookup_file_bytes(files: &Vec<super::context::FileEntry>, path: &[u8]) -> (r: Option<Vec<u8>>)
    ensures
        ({
            let v = files@.map_values(|e: super::context::FileEntry| (e.path@, e.contents@));
            match r {
                Option::Some(c) => lookup_file(v, path@) == Option::Some(c@),
                Option::None => lookup_file(v, path@) is None,
            }
        }),
{
    let ghost v = files@.map_values(|e: super::context::FileEntry| (e.path@, e.contents@));
    proof {
        assert(v.skip(0) =~= v);
    }
    let mut i: usize = 0;
    while i < files.len()
        invariant
            i <= files@.len(),
            v == files@.map_values(|e: super::context::FileEntry| (e.path@, e.contents@)),
            v.len() == files@.len(),
            lookup_file(v, path@) == lookup_file(v.skip(i as int), path@),
        decreases files@.len() - i,
    {
        proof {
            assert(v.skip(i as int)[0] == v[i as int]);
            assert(v.skip(i as int).drop_first() =~= v.skip(i + 1));
        }
        if bytes_eq(files[i].path.as_slice(), path) {
            let r = vstd::slice::slice_to_vec(files[i].contents.as_slice());
            return Option::Some(r);
        }
        i += 1;
    }
    proof {
        assert(v.skip(files@.len() as int) =~= Seq::<(Seq<u8>, Seq<u8>)>::empty());
    }
    Option::None
}

/// One reserved prefix stands at the front of `s`.
fn is_reserved_exec(s: &[u8]) -> (r: bool)
    ensures
        r == is_reserved(s@),
{
    let k: [u8; 10] = [0x6b, 0x65, 0x63, 0x63, 0x61, 0x6b, 0x32, 0x35, 0x36, 0x3a];
    proof {
        assert(k@ =~= keccak_prefix());
    }
    if starts_with_p(s, k.as_slice()) {
        return true;
    }
    let p0: [u8; 4] = [0x75, 0x36, 0x34, 0x3a];
    let p1: [u8; 4] = [0x75, 0x33, 0x32, 0x3a];
    let p2: [u8; 4] = [0x75, 0x31, 0x36, 0x3a];
    let p3: [u8; 3] = [0x75, 0x38, 0x3a];
    let p4: [u8; 4] = [0x69, 0x36, 0x34, 0x3a];
    let p5: [u8; 4] = [0x69, 0x33, 0x32, 0x3a];
    let p6: [u8; 4] = [0x69, 0x31, 0x36, 0x3a];
    let p7: [u8; 3] = [0x69, 0x38, 0x3a];
    proof {
        assert(width_prefixes()[0] =~= p0@);
        assert(width_prefixes()[1] =~= p1@);
        assert(width_prefixes()[2] =~= p2@);
        assert(width_prefixes()[3] =~= p3@);
        assert(width_prefixes()[4] =~= p4@);
        assert(width_prefixes()[5] =~= p5@);
        assert(width_prefixes()[6] =~= p6@);
        assert(width_prefixes()[7] =~= p7@);
    }
    let r = starts_with_p(s, p0.as_slice()) || starts_with_p(s, p1.as_slice()) || starts_with_p(
        s,
        p2.as_slice(),
    ) || starts_with_p(s, p3.as_slice()) || starts_with_p(s, p4.as_slice()) || starts_with_p(
        s,
        p5.as_slice(),
    ) || starts_with_p(s, p6.as_slice()) || starts_with_p(s, p7.as_slice());
    proof {
        if r {
            assert(is_reserved(s@));
        } else {
            assert forall|i: int| 0 <= i < width_prefixes().len() implies !has_prefix(
                s@,
                width_prefixes()[i],
            ) by {
                assert(width_prefixes().len() == 8);
            }
        }
    }
    r
}

/// The magnitude of an unsigned integer notation, in the raw byte form the
/// parser hands out: a single zero byte for zero, minimal bytes otherwise.
fn parse_unsigned_raw(s: &[u8]) -> (r: Result<Vec<u8>, InterpretError>)
    ensures
        r is Ok <==> parse_unsigned_val(s@) is Some,
        r is Ok ==> r->Ok_0@ == raw_be(parse_unsigned_val(s@)->0),
        r is Err ==> r->Err_0.kind == ErrorKind::BadLiteral,
{
    let clean = clean_bytes(s);
    proof {
        lemma_clean_no_sep(s@);
    }
    let hx: [u8; 2] = [0x30, 0x78];
    let hxu: [u8; 2] = [0x30, 0x58];
    let bn: [u8; 2] = [0x30, 0x62];
    let bnu: [u8; 2] = [0x30, 0x42];
    proof {
        assert(hx@ =~= hex_prefix());
        assert(hxu@ =~= hex_prefix_uc());
        assert(bn@ =~= bin_prefix());
        assert(bnu@ =~= bin_prefix_uc());
    }
    let is_hex = starts_with_p(clean.as_slice(), hx.as_slice()) || starts_with_p(
        clean.as_slice(),
        hxu.as_slice(),
    );
    let is_bin = !is_hex && (starts_with_p(clean.as_slice(), bn.as_slice()) || starts_with_p(
        clean.as_slice(),
        bnu.as_slice(),
    ));
    if is_hex || is_bin {
        if clean.len() == 2 {
            let mut z: Vec<u8> = Vec::new();
            z.push(0u8);
            proof {
                assert(clean_seq(s@).skip(2) =~= Seq::<u8>::empty());
                assert(z@ =~= raw_be(0));
            }
            return Result::Ok(z);
        }
        let body = vstd::slice::slice_subrange(clean.as_slice(), 2, clean.len());
        proof {
            assert(body@ =~= clean_seq(s@).skip(2));
        }
        let radix: u32 = if is_hex {
            16
        } else {
            2
        };
        match parse_radix_bytes(body, radix) {
            Option::Some(raw) => Result::Ok(raw),
            Option::None => Result::Err(InterpretError::new(ErrorKind::BadLiteral)),
        }
    } else {
        match parse_radix_bytes(clean.as_slice(), 10) {
            Option::Some(raw) => Result::Ok(raw),
            Option::None => Result::Err(InterpretError::new(ErrorKind::BadLiteral)),
        }
    }
}

/// An explicit-sign integer: the magnitude through the unsigned rules, then
/// the minimal two's-complement encoding.
fn interpret_signed_ex(negative: bool, rest: &[u8]) -> (r: Result<Vec<u8>, InterpretError>)
    ensures
        r is Ok <==> interp_signed(negative, rest@) is Ok,
        r is Ok ==> r->Ok_0@ == interp_signed(negative, rest@)->Ok_0,
        r is Err ==> r->Err_0.kind == interp_signed(negative, rest@)->Err_0,
{
    let raw = match parse_unsigned_raw(rest) {
        Result::Ok(v) => v,
        Result::Err(e) => {
            return Result::Err(e);
        },
    };
    let ghost v = parse_unsigned_val(rest@)->0;
    proof {
        lemma_min_be_ok(v);
    }
    if raw[0] == 0 {
        return Result::Ok(Vec::new());
    }
    if negative {
        let out = negative_signed_bytes_be(raw.as_slice());
        proof {
            lemma_min_be_ok(v);
        }
        Result::Ok(out)
    } else {
        if raw[0] >= 0x80 {
            let mut out: Vec<u8> = Vec::new();
            out.push(0u8);
            let mut tail = raw;
            out.append(&mut tail);
            proof {
                assert(out@ =~= seq![0u8] + min_be(v));
            }
            Result::Ok(out)
        } else {
            Result::Ok(raw)
        }
    }
}

/// An unsigned integer: minimal big-endian bytes, zero encoding to nothing.
fn interpret_unsigned_ex(s: &[u8]) -> (r: Result<Vec<u8>, InterpretError>)
    ensures
        r is Ok <==> interp_unsigned(s@) is Ok,
        r is Ok ==> r->Ok_0@ == interp_unsigned(s@)->Ok_0,
        r is Err ==> r->Err_0.kind == interp_unsigned(s@)->Err_0,
{
    let raw = match parse_unsigned_raw(s) {
        Result::Ok(v) => v,
        Result::Err(e) => {
            return Result::Err(e);
        },
    };
    let ghost v = parse_unsigned_val(s@)->0;
    proof {
        lemma_min_be_ok(v);
    }
    if raw[0] == 0 {
        Result::Ok(Vec::new())
    } else {
        Result::Ok(raw)
    }
}

/// One pipe-free value string, by the prefix rules in their order.
fn interpret_atom_ex(s: &[u8], context: &InterpreterContext) -> (r: Result<
    Vec<u8>,
    InterpretError,
>)
    ensures
        r is Ok <==> interp_atom(s@, context@) is Ok,
        r is Ok ==> r->Ok_0@ == interp_atom(s@, context@)->Ok_0,
        r is Err ==> r->Err_0.kind == interp_atom(s@, context@)->Err_0,
{
    if s.len() == 0 {
        return Result::Ok(Vec::new());
    }
    let t: [u8; 4] = [0x74, 0x72, 0x75, 0x65];
    proof {
        assert(t@ =~= true_bytes());
    }
    if bytes_eq(s, t.as_slice()) {
        let mut one: Vec<u8> = Vec::new();
        one.push(1u8);
        proof {
            assert(one@ =~= seq![1u8]);
        }
        return Result::Ok(one);
    }
    let f: [u8; 5] = [0x66, 0x61, 0x6c, 0x73, 0x65];
    proof {
        assert(f@ =~= false_bytes());
    }
    if bytes_eq(s, f.as_slice()) {
        return Result::Ok(Vec::new());
    }
    let sp: [u8; 4] = [0x73, 0x74, 0x72, 0x3a];
    proof {
        assert(sp@ =~= str_prefix());
    }
    if starts_with_p(s, sp.as_slice()) {
        let rest = vstd::slice::slice_subrange(s, 4, s.len());
        proof {
            assert(rest@ =~= s@.skip(4));
        }
        return Result::Ok(vstd::slice::slice_to_vec(rest));
    }
    let bt: [u8; 2] = [0x60, 0x60];
    proof {
        assert(bt@ =~= backtick_prefix());
    }
    if starts_with_p(s, bt.as_slice()) {
        let rest = vstd::slice::slice_subrange(s, 2, s.len());
        proof {
            assert(rest@ =~= s@.skip(2));
        }
        return Result::Ok(vstd::slice::slice_to_vec(rest));
    }
    let ap: [u8; 2] = [0x27, 0x27];
    proof {
        assert(ap@ =~= apostrophe_prefix());
    }
    if starts_with_p(s, ap.as_slice()) {
        let rest = vstd::slice::slice_subrange(s, 2, s.len());
        proof {
            assert(rest@ =~= s@.skip(2));
        }
        return Result::Ok(vstd::slice::slice_to_vec(rest));
    }
    let ad: [u8; 8] = [0x61, 0x64, 0x64, 0x72, 0x65, 0x73, 0x73, 0x3a];
    proof {
        assert(ad@ =~= address_prefix());
    }
    if starts_with_p(s, ad.as_slice()) {
        let rest = vstd::slice::slice_subrange(s, 8, s.len());
        proof {
            assert(rest@ =~= s@.skip(8));
        }
        return Result::Ok(address(rest));
    }
    let fp: [u8; 5] = [0x66, 0x69, 0x6c, 0x65, 0x3a];
    proof {
        assert(fp@ =~= file_prefix());
    }
    if starts_with_p(s, fp.as_slice()) {
        let rest = vstd::slice::slice_subrange(s, 5, s.len());
        proof {
            assert(rest@ =~= s@.skip(5));
        }
        match &context.files {
            Option::None => {
                return Result::Err(InterpretError::new(ErrorKind::Unsupported));
            },
            Option::Some(files) => {
                match lookup_file_bytes(files, rest) {
                    Option::Some(c) => {
                        return Result::Ok(c);
                    },
                    Option::None => {
                        return Result::Err(InterpretError::new(ErrorKind::External));
                    },
                }
            },
        }
    }
    if is_reserved_exec(s) {
        return Result::Err(InterpretError::new(ErrorKind::Unsupported));
    }
    if s[0] == 0x2b {
        let rest = vstd::slice::slice_subrange(s, 1, s.len());
        proof {
            assert(rest@ =~= s@.drop_first());
        }
        return interpret_signed_ex(false, rest);
    }
    if s[0] == 0x2d {
        let rest = vstd::slice::slice_subrange(s, 1, s.len());
        proof {
            assert(rest@ =~= s@.drop_first());
        }
        return interpret_signed_ex(true, rest);
    }
    interpret_unsigned_ex(s)
}

/// Splitting on the first `|` and interpreting head and tail separately
/// agrees with splitting on every `|` at once.
pub proof fn lemma_interp_parts_of_split(s: Seq<u8>, ctx: CtxView)
    ensures
        interp_parts(split_pipe(s), ctx) == interp_str(s, ctx),
{
    lemma_find_pipe(s);
    match find_pipe(s) {
        Option::None => {
            assert(split_pipe(s) == seq![s]);
            assert(split_pipe(s).drop_first() =~= Seq::<Seq<u8>>::empty());
            assert(interp_parts(Seq::<Seq<u8>>::empty(), ctx) == Result::Ok::<Seq<u8>, ErrorKind>(
                Seq::<u8>::empty(),
            ));
            match interp_atom(s, ctx) {
                Result::Ok(b) => {
                    assert(b + Seq::<u8>::empty() =~= b);
                },
                Result::Err(e) => {},
            }
            if s.len() == 0 {
                assert(interp_atom(s, ctx) == Result::Ok::<Seq<u8>, ErrorKind>(Seq::<u8>::empty()));
            }
        },
        Option::Some(i) => {
        },
    }
}

pub proof fn lemma_interp_str_step(s: Seq<u8>, i: int, ctx: CtxView)
    requires
        find_pipe(s) == Option::Some(i),
    ensures
        0 <= i < s.len(),
        interp_str(s, ctx) == (match interp_atom(s.subrange(0, i), ctx) {
            Result::Err(e) => Result::Err::<Seq<u8>, ErrorKind>(e),
            Result::Ok(b) => match interp_str(s.skip(i + 1), ctx) {
                Result::Err(e) => Result::Err(e),
                Result::Ok(rest) => Result::Ok(b + rest),
            },
        }),
{
    lemma_find_pipe(s);
    let head = s.subrange(0, i);
    let tail = s.skip(i + 1);
    let parts = split_pipe(s);
    assert(parts == seq![head] + split_pipe(tail));
    assert(parts[0] == head);
    assert(parts.drop_first() =~= split_pipe(tail));
    lemma_interp_parts_of_split(tail, ctx);
}

/// A whole value string over its UTF-8 bytes: split on `|` first, then each
/// part by the prefix rules.
fn interpret_bytes(s: &[u8], context: &InterpreterContext) -> (r: Result<Vec<u8>, InterpretError>)
    ensures
        r is Ok <==> interp_str(s@, context@) is Ok,
        r is Ok ==> r->Ok_0@ == interp_str(s@, context@)->Ok_0,
        r is Err ==> r->Err_0.kind == interp_str(s@, context@)->Err_0,
    decreases s@.len(),
{
    match find_pipe_pos(s) {
        Option::None => interpret_atom_ex(s, context),
        Option::Some(i) => {
            proof {
                lemma_interp_str_step(s@, i as int, context@);
            }
            let head = vstd::slice::slice_subrange(s, 0, i);
            let mut acc = match interpret_atom_ex(head, context) {
                Result::Ok(v) => v,
                Result::Err(e) => {
                    return Result::Err(e);
                },
            };
            let n = s.len();
            let tail = vstd::slice::slice_subrange(s, i + 1, n);
            let mut rest = match interpret_bytes(tail, context) {
                Result::Ok(v) => v,
                Result::Err(e) => {
                    return Result::Err(e);
                },
            };
            acc.append(&mut rest);
            Result::Ok(acc)
        },
    }
}

/// Interpret one value string of the mini-language to its canonical bytes.
/// The result is a pure function of the string's characters and the
/// context's view, as the contract states.
pub fn interpret_string(s: &str, context: &InterpreterContext) -> (r: Result<
    Vec<u8>,
    InterpretError,
>)
    ensures
        r is Ok <==> interp_str(encode_utf8(s@), context@) is Ok,
        r is Ok ==> r->Ok_0@ == interp_str(encode_utf8(s@), context@)->Ok_0,
        r is Err ==> r->Err_0.kind == interp_str(encode_utf8(s@), context@)->Err_0,
{
    interpret_bytes(s.as_bytes(), context)
}

/// Interpret a raw value tree: leaves through `interpret_string`, lists and
/// maps by concatenating their members' bytes in entry order. A failure
/// carries the path of the offending leaf.
#[verifier::loop_isolation(false)]
#[verifier::rlimit(60)]
pub fn interpret_subtree(vst: &ValueSubTree, context: &InterpreterContext) -> (r: Result<
    Vec<u8>,
    InterpretError,
>)
    ensures
        r is Ok <==> interp_subtree(*vst, context@) is Ok,
        r is Ok ==> r->Ok_0@ == interp_subtree(*vst, context@)->Ok_0,
        r is Err ==> r->Err_0.kind == interp_subtree(*vst, context@)->Err_0,
    decreases *vst,
{
    match vst {
        ValueSubTree::Str(s) => interpret_string(s.as_str(), context),
        ValueSubTree::List(l) => {
            let ghost ctx = context@;
            let mut acc: Vec<u8> = Vec::new();
            let mut i: usize = 0;
            proof {
                assert(l@.skip(0) =~= l@);
                match interp_list(l@, ctx) {
                    Result::Ok(rest) => {
                        assert(Seq::<u8>::empty() + rest =~= rest);
                    },
                    Result::Err(e) => {},
                }
            }
            while i < l.len()
                invariant
                    i <= l@.len(),
                    ctx == context@,
                    interp_list(l@, ctx) == (match interp_list(l@.skip(i as int), ctx) {
                        Result::Ok(rest) => Result::Ok::<Seq<u8>, ErrorKind>(acc@ + rest),
                        Result::Err(e) => Result::Err::<Seq<u8>, ErrorKind>(e),
                    }),
                decreases l@.len() - i,
            {
                proof {
                    assert(l@.skip(i as int)[0] == l@[i as int]);
                    assert(l@.skip(i as int).drop_first() =~= l@.skip(i + 1));
                    assert(decreases_to!(*l => l@));
                    assert(decreases_to!(l@ => l@[i as int]));
                }
                match interpret_subtree(&l[i], context) {
                    Result::Ok(mut b) => {
                        let ghost before = acc@;
                        let ghost piece = b@;
                        acc.append(&mut b);
                        proof {
                            match interp_list(l@.skip(i + 1), ctx) {
                                Result::Ok(rest) => {
                                    assert(before + (piece + rest) =~= acc@ + rest);
                                },
                                Result::Err(e) => {},
                            }
                        }
                    },
                    Result::Err(e) => {
                        proof {
                            assert(interp_subtree(l@[i as int], ctx) is Err);
                            assert(interp_list(l@.skip(i as int), ctx) is Err);
                            assert(interp_list(l@, ctx) is Err);
                        }
                        return Result::Err(e.within(super::errors::PathSeg::Index(i)));
                    },
                }
                i += 1;
            }
            proof {
                assert(l@.skip(l@.len() as int) =~= Seq::<ValueSubTree>::empty());
                match interp_list(l@, ctx) {
                    Result::Ok(rest) => {
                        assert(acc@ + Seq::<u8>::empty() =~= acc@);
                    },
                    Result::Err(e) => {},
                }
            }
            Result::Ok(acc)
        },
        ValueSubTree::Object(m) => {
            let ghost ctx = context@;
            let mut acc: Vec<u8> = Vec::new();
            let mut i: usize = 0;
            proof {
                assert(m@.skip(0) =~= m@);
                match interp_entries(m@, ctx) {
                    Result::Ok(rest) => {
                        assert(Seq::<u8>::empty() + rest =~= rest);
                    },
                    Result::Err(e) => {},
                }
            }
            while i < m.len()
                invariant
                    i <= m@.len(),
                    ctx == context@,
                    interp_entries(m@, ctx) == (match interp_entries(m@.skip(i as int), ctx) {
                        Result::Ok(rest) => Result::Ok::<Seq<u8>, ErrorKind>(acc@ + rest),
                        Result::Err(e) => Result::Err::<Seq<u8>, ErrorKind>(e),
                    }),
                decreases m@.len() - i,
            {
                proof {
                    assert(m@.skip(i as int)[0] == m@[i as int]);
                    assert(m@.skip(i as int).drop_first() =~= m@.skip(i + 1));
                    assert(decreases_to!(*m => m@));
                    assert(decreases_to!(m@ => m@[i as int]));
                    assert(decreases_to!(m@[i as int] => m@[i as int].1));
                }
                match interpret_subtree(&m[i].1, context) {
                    Result::Ok(mut b) => {
                        let ghost before = acc@;
                        let ghost piece = b@;
                        acc.append(&mut b);
                        proof {
                            match interp_entries(m@.skip(i + 1), ctx) {
                                Result::Ok(rest) => {
                                    assert(before + (piece + rest) =~= acc@ + rest);
                                },
                                Result::Err(e) => {},
                            }
                        }
                    },
                    Result::Err(e) => {
                        proof {
                            assert(interp_subtree(m@[i as int].1, ctx) is Err);
                            assert(interp_entries(m@.skip(i as int), ctx) is Err);
                            assert(interp_entries(m@, ctx) is Err);
                        }
                        let key = m[i].0.clone();
                        return Result::Err(e.within(super::errors::PathSeg::Field(key)));
                    },
                }
                i += 1;
            }
            proof {
                assert(m@.skip(m@.len() as int) =~= Seq::<(String, ValueSubTree)>::empty());
                match interp_entries(m@, ctx) {
                    Result::Ok(rest) => {
                        assert(acc@ + Seq::<u8>::empty() =~= acc@);
                    },
                    Result::Err(e) => {},
                }
            }
            Result::Ok(acc)
        },
    }
}

/// A string with no separator in it is unchanged by cleaning.
proof fn lemma_clean_id(s: Seq<u8>)
    requires
        forall|i: int| 0 <= i < s.len() ==> !is_sep(#[trigger] s[i]),
    ensures
        clean_seq(s) == s,
    decreases s.len(),
{
    if s.len() > 0 {
        lemma_clean_id(s.drop_last());
        assert(clean_seq(s.drop_last()).push(s.last()) =~= s);
    }
}

/// The decimal notation of any value interprets to its minimal big-endian
/// bytes; zero interprets to the empty sequence. This holds in every
/// context.
pub proof fn lemma_interp_decimal(n: nat, ctx: CtxView)
    ensures
        interp_str(super::encoding::dec_digits(n), ctx) == Result::Ok::<Seq<u8>, ErrorKind>(
            min_be(n),
        ),
{
    let d = super::encoding::dec_digits(n);
    super::encoding::lemma_dec_digits(n);
    lemma_find_pipe(d);
    if find_pipe(d) is Some {
        let i = find_pipe(d)->0;
        assert(0x30 <= d[i] <= 0x39);
        assert(false);
    }
    assert(forall|i: int| 0 <= i < d.len() ==> !is_sep(#[trigger] d[i]));
    lemma_clean_id(d);
    assert(d[0] != 0x2b && d[0] != 0x2d);
    assert(!(d == true_bytes())) by {
        if d == true_bytes() {
            assert(d[0] == 0x74);
        }
    }
    assert(!(d == false_bytes())) by {
        if d == false_bytes() {
            assert(d[0] == 0x66);
        }
    }
    assert(!has_prefix(d, str_prefix())) by {
        if has_prefix(d, str_prefix()) {
            assert(d[0] == 0x73);
        }
    }
    assert(!has_prefix(d, backtick_prefix())) by {
        if has_prefix(d, backtick_prefix()) {
            assert(d[0] == 0x60);
        }
    }
    assert(!has_prefix(d, apostrophe_prefix())) by {
        if has_prefix(d, apostrophe_prefix()) {
            assert(d[0] == 0x27);
        }
    }
    assert(!has_prefix(d, address_prefix())) by {
        if has_prefix(d, address_prefix()) {
            assert(d[0] == 0x61);
        }
    }
    assert(!has_prefix(d, file_prefix())) by {
        if has_prefix(d, file_prefix()) {
            assert(d[0] == 0x66);
        }
    }
    assert(!is_reserved(d)) by {
        if has_prefix(d, keccak_prefix()) {
            assert(d[0] == 0x6b);
        }
        if exists|i: int| 0 <= i < width_prefixes().len() && has_prefix(d, width_prefixes()[i]) {
            let i = choose|i: int|
                0 <= i < width_prefixes().len() && has_prefix(d, width_prefixes()[i]);
            assert(width_prefixes()[i][0] == 0x75 || width_prefixes()[i][0] == 0x69) by {
                assert(width_prefixes()[0][0] == 0x75);
                assert(width_prefixes()[1][0] == 0x75);
                assert(width_prefixes()[2][0] == 0x75);
                assert(width_prefixes()[3][0] == 0x75);
                assert(width_prefixes()[4][0] == 0x69);
                assert(width_prefixes()[5][0] == 0x69);
                assert(width_prefixes()[6][0] == 0x69);
                assert(width_prefixes()[7][0] == 0x69);
            }
            assert(d[0] == width_prefixes()[i][0]);
        }
    }
    assert(!has_prefix(d, hex_prefix())) by {
        if has_prefix(d, hex_prefix()) {
            assert(d[1] == 0x78);
        }
    }
    assert(!has_prefix(d, hex_prefix_uc())) by {
        if has_prefix(d, hex_prefix_uc()) {
            assert(d[1] == 0x58);
        }
    }
    assert(!has_prefix(d, bin_prefix())) by {
        if has_prefix(d, bin_prefix()) {
            assert(d[1] == 0x62);
        }
    }
    assert(!has_prefix(d, bin_prefix_uc())) by {
        if has_prefix(d, bin_prefix_uc()) {
            assert(d[1] == 0x42);
        }
    }
    assert(super::encoding::strip_plus(d) == d);
    assert(radix_ok(d, 10)) by {
        assert(forall|i: int|
            0 <= i < d.len() ==> super::encoding::is_radix_digit(#[trigger] d[i], 10));
    }
    assert(radix_val(d, 10) == n);
    assert(parse_unsigned_val(d) == Option::Some(n));
}

/// Reading the bytes of an explicit-sign value string back as a
/// two's-complement signed number yields the signed magnitude the string
/// denotes.
pub proof fn lemma_interp_signed_value(negative: bool, s: Seq<u8>)
    requires
        parse_unsigned_val(s) is Some,
    ensures
        ({
            let v = parse_unsigned_val(s)->0;
            let i = if negative {
                -(v as int)
            } else {
                v as int
            };
            interp_signed(negative, s) == Result::Ok::<Seq<u8>, ErrorKind>(signed_bytes(i))
                && super::encoding::signed_val(signed_bytes(i)) == i
        }),
{
    let v = parse_unsigned_val(s)->0;
    if negative {
        super::encoding::lemma_signed_round_trip(-(v as int));
    } else {
        super::encoding::lemma_signed_round_trip(v as int);
    }
}

/// The leaf strings of a value tree, in document order for lists and entry
/// order for maps, as UTF-8 bytes.
pub open spec fn leaves(t: ValueSubTree) -> Seq<Seq<u8>>
    decreases t,
{
    match t {
        ValueSubTree::Str(s) => seq![encode_utf8(s@)],
        ValueSubTree::List(l) => leaves_of_list(l@),
        ValueSubTree::Object(m) => leaves_of_entries(m@),
    }
}

pub open spec fn leaves_of_list(ts: Seq<ValueSubTree>) -> Seq<Seq<u8>>
    decreases ts,
{
    if ts.len() == 0 {
        Seq::empty()
    } else {
        leaves(ts[0]) + leaves_of_list(ts.drop_first())
    }
}

pub open spec fn leaves_of_entries(es: Seq<(String, ValueSubTree)>) -> Seq<Seq<u8>>
    decreases es,
{
    if es.len() == 0 {
        Seq::empty()
    } else {
        leaves(es[0].1) + leaves_of_entries(es.drop_first())
    }
}

/// Each leaf interpreted as one value string, the results concatenated in
/// order; the first failing leaf decides the error.
pub open spec fn concat_interp(ls: Seq<Seq<u8>>, ctx: CtxView) -> Result<Seq<u8>, ErrorKind>
    decreases ls.len(),
{
    if ls.len() == 0 {
        Result::Ok(Seq::empty())
    } else {
        match interp_str(ls[0], ctx) {
            Result::Err(e) => Result::Err(e),
            Result::Ok(b) => match concat_interp(ls.drop_first(), ctx) {
                Result::Err(e) => Result::Err(e),
                Result::Ok(rest) => Result::Ok(b + rest),
            },
        }
    }
}

proof fn lemma_concat_interp_append(a: Seq<Seq<u8>>, b: Seq<Seq<u8>>, ctx: CtxView)
    ensures
        concat_interp(a + b, ctx) == (match concat_interp(a, ctx) {
            Result::Err(e) => Result::Err::<Seq<u8>, ErrorKind>(e),
            Result::Ok(x) => match concat_interp(b, ctx) {
                Result::Err(e) => Result::Err::<Seq<u8>, ErrorKind>(e),
                Result::Ok(y) => Result::Ok::<Seq<u8>, ErrorKind>(x + y),
            },
        }),
    decreases a.len(),
{
    if a.len() == 0 {
        assert(a + b =~= b);
        match concat_interp(b, ctx) {
            Result::Ok(y) => {
                assert(Seq::<u8>::empty() + y =~= y);
            },
            Result::Err(e) => {},
        }
    } else {
        lemma_concat_interp_append(a.drop_first(), b, ctx);
        assert((a + b)[0] == a[0]);
        assert((a + b).drop_first() =~= a.drop_first() + b);
        match interp_str(a[0], ctx) {
            Result::Err(e) => {},
            Result::Ok(h) => {
                match concat_interp(a.drop_first(), ctx) {
                    Result::Err(e) => {},
                    Result::Ok(x) => {
                        match concat_interp(b, ctx) {
                            Result::Err(e) => {},
                            Result::Ok(y) => {
                                assert(h + (x + y) =~= (h + x) + y);
                            },
                        }
                    },
                }
            },
        }
    }
}

/// Interpreting a value tree is interpreting its leaf strings in document
/// and entry order and concatenating their bytes: structure contributes
/// nothing but the order.
pub proof fn lemma_subtree_concat_of_leaves(t: ValueSubTree, ctx: CtxView)
    ensures
        interp_subtree(t, ctx) == concat_interp(leaves(t), ctx),
    decreases t,
{
    match t {
        ValueSubTree::Str(s) => {
            let bs = encode_utf8(s@);
            assert(seq![bs][0] == bs);
            assert(seq![bs].drop_first() =~= Seq::<Seq<u8>>::empty());
            assert(concat_interp(Seq::<Seq<u8>>::empty(), ctx) == Result::Ok::<Seq<u8>, ErrorKind>(
                Seq::<u8>::empty(),
            ));
            match interp_str(bs, ctx) {
                Result::Ok(b) => {
                    assert(b + Seq::<u8>::empty() =~= b);
                },
                Result::Err(e) => {},
            }
        },
        ValueSubTree::List(l) => {
            lemma_list_concat_of_leaves(l@, ctx);
        },
        ValueSubTree::Object(m) => {
            lemma_entries_concat_of_leaves(m@, ctx);
        },
    }
}

proof fn lemma_list_concat_of_leaves(ts: Seq<ValueSubTree>, ctx: CtxView)
    ensures
        interp_list(ts, ctx) == concat_interp(leaves_of_list(ts), ctx),
    decreases ts,
{
    if ts.len() == 0 {
    } else {
        lemma_subtree_concat_of_leaves(ts[0], ctx);
        lemma_list_concat_of_leaves(ts.drop_first(), ctx);
        lemma_concat_interp_append(leaves(ts[0]), leaves_of_list(ts.drop_first()), ctx);
    }
}

proof fn lemma_entries_concat_of_leaves(es: Seq<(String, ValueSubTree)>, ctx: CtxView)
    ensures
        interp_entries(es, ctx) == concat_interp(leaves_of_entries(es), ctx),
    decreases es,
{
    if es.len() == 0 {
    } else {
        lemma_subtree_concat_of_leaves(es[0].1, ctx);
        lemma_entries_concat_of_leaves(es.drop_first(), ctx);
        lemma_concat_interp_append(leaves(es[0].1), leaves_of_entries(es.drop_first()), ctx);
    }
}

/// For well-formed maps the byte output is a pure function of the map's
/// content: two key-sorted maps holding the same entries interpret to the
/// same result, however their entries were assembled.
pub proof fn lemma_interp_entries_content(
    m1: Seq<(String, ValueSubTree)>,
    m2: Seq<(String, ValueSubTree)>,
    ctx: CtxView,
)
    requires
        entries_key_sorted(m1),
        entries_key_sorted(m2),
        forall|e: (String, ValueSubTree)| #[trigger] m1.contains(e) <==> #[trigger] m2.contains(
            e,
        ),
    ensures
        interp_entries(m1, ctx) == interp_entries(m2, ctx),
{
    lemma_key_sorted_entries_unique(m1, m2);
}

} // verus!

