//! Interpreted values: each pairs the raw tree it came from with its decoded
//! bytes, and the numeric kinds with a decoded magnitude.
use super::bigint::be_bytes_to_u64;
use super::context::{CtxView, InterpreterContext};
use super::encoding::be_val;
use super::errors::{ErrorKind, InterpretError};
use super::value_interpreter::{interp_subtree, interpret_subtree};
use super::value_raw::ValueSubTree;
use vstd::prelude::*;
use vstd::string::StrSliceExecFns;

verus! {

/// Lowering: building an interpreted value out of a raw one under a context.
/// The three spec functions pin the behaviour of `interpret_from`: when it
/// succeeds, what the result is, and which failure it reports otherwise.
pub trait InterpretableFrom<T>: Sized {
    /// The lowering succeeds on this raw value.
    spec fn lower_ok(from: T, ctx: CtxView) -> bool;

    /// The kind of the failure when it does not.
    spec fn lower_err(from: T, ctx: CtxView) -> ErrorKind;

    /// The result stands for the raw value; for each raw value and context
    /// this pins the result.
    spec fn is_lowered(&self, from: T, ctx: CtxView) -> bool;

    fn interpret_from(from: T, context: &InterpreterContext) -> (r: Result<Self, InterpretError>)
        ensures
            r is Ok <==> Self::lower_ok(from, context@),
            r is Ok ==> r->Ok_0.is_lowered(from, context@),
            r is Err ==> r->Err_0.kind == Self::lower_err(from, context@),
    ;
}

/// A raw tree with its canonical bytes.
#[derive(Debug)]
pub struct BytesValue {
    pub value: Vec<u8>,
    pub original: ValueSubTree,
}

impl InterpretableFrom<ValueSubTree> for BytesValue {
    open spec fn lower_ok(from: ValueSubTree, ctx: CtxView) -> bool {
        interp_subtree(from, ctx) is Ok
    }

    open spec fn lower_err(from: ValueSubTree, ctx: CtxView) -> ErrorKind {
        interp_subtree(from, ctx)->Err_0
    }

    open spec fn is_lowered(&self, from: ValueSubTree, ctx: CtxView) -> bool {
        &&& self.original == from
        &&& interp_subtree(from, ctx) == Result::Ok::<Seq<u8>, ErrorKind>(self.value@)
    }

    fn interpret_from(from: ValueSubTree, context: &InterpreterContext) -> (r: Result<
        Self,
        InterpretError,
    >) {
        match interpret_subtree(&from, context) {
            Result::Ok(value) => Result::Ok(BytesValue { value, original: from }),
            Result::Err(e) => Result::Err(e),
        }
    }
}

/// A raw tree with its canonical bytes, read as an unbounded non-negative
/// big-endian magnitude. The magnitude and the bytes agree by construction:
/// the one is the big-endian-unsigned reading of the other.
#[derive(Debug)]
pub struct BigUintValue {
    pub value: Vec<u8>,
    pub original: ValueSubTree,
}

impl BigUintValue {
    /// The non-negative integer the bytes denote.
    pub open spec fn magnitude(&self) -> nat {
        be_val(self.value@)
    }
}

impl InterpretableFrom<ValueSubTree> for BigUintValue {
    open spec fn lower_ok(from: ValueSubTree, ctx: CtxView) -> bool {
        interp_subtree(from, ctx) is Ok
    }

    open spec fn lower_err(from: ValueSubTree, ctx: CtxView) -> ErrorKind {
        interp_subtree(from, ctx)->Err_0
    }

    open spec fn is_lowered(&self, from: ValueSubTree, ctx: CtxView) -> bool {
        &&& self.original == from
        &&& interp_subtree(from, ctx) == Result::Ok::<Seq<u8>, ErrorKind>(self.value@)
    }

    fn interpret_from(from: ValueSubTree, context: &InterpreterContext) -> (r: Result<
        Self,
        InterpretError,
    >) {
        match interpret_subtree(&from, context) {
            Result::Ok(value) => Result::Ok(BigUintValue { value, original: from }),
            Result::Err(e) => Result::Err(e),
        }
    }
}

/// A raw tree whose canonical bytes fit a 64-bit unsigned value; wider
/// values fail with `NumericOverflow`.
#[derive(Debug)]
pub struct U64Value {
    pub value: u64,
    pub original: ValueSubTree,
}

impl InterpretableFrom<ValueSubTree> for U64Value {
    open spec fn lower_ok(from: ValueSubTree, ctx: CtxView) -> bool {
        interp_subtree(from, ctx) matches Result::Ok(b) && be_val(b) <= u64::MAX
    }

    open spec fn lower_err(from: ValueSubTree, ctx: CtxView) -> ErrorKind {
        if interp_subtree(from, ctx) is Err {
            interp_subtree(from, ctx)->Err_0
        } else {
            ErrorKind::NumericOverflow
        }
    }

    open spec fn is_lowered(&self, from: ValueSubTree, ctx: CtxView) -> bool {
        &&& self.original == from
        &&& interp_subtree(from, ctx) matches Result::Ok(b) && self.value == be_val(b)
    }

    fn interpret_from(from: ValueSubTree, context: &InterpreterContext) -> (r: Result<
        Self,
        InterpretError,
    >) {
        let bytes = match interpret_subtree(&from, context) {
            Result::Ok(b) => b,
            Result::Err(e) => {
                return Result::Err(e);
            },
        };
        match be_bytes_to_u64(bytes.as_slice()) {
            Option::Some(value) => Result::Ok(U64Value { value, original: from }),
            Option::None => Result::Err(InterpretError::new(ErrorKind::NumericOverflow)),
        }
    }
}

/// A wildcard assertion: absent (`DefaultStar`), the explicit `"*"`
/// (`Star`), or a concrete expected value. The two wildcard forms match
/// anything alike; they stay distinct only so serialisation can omit absent
/// fields.
#[derive(Debug)]
pub enum CheckValue<T> {
    DefaultStar,
    Star,
    Equal(T),
}

impl<T> CheckValue<T> {
    /// Both wildcard forms match anything; an equality constraint does not.
    pub fn is_star(&self) -> (r: bool)
        ensures
            r == (self is DefaultStar || self is Star),
    {
        match self {
            CheckValue::DefaultStar => true,
            CheckValue::Star => true,
            CheckValue::Equal(_) => false,
        }
    }

    /// The wildcard that stands for an absent field.
    pub fn is_default_star(&self) -> (r: bool)
        ensures
            r == (self is DefaultStar),
    {
        match self {
            CheckValue::DefaultStar => true,
            _ => false,
        }
    }
}

impl<T> Default for CheckValue<T> {
    /// An absent field checks as a wildcard.
    fn default() -> (r: Self)
        ensures
            r is DefaultStar,
    {
        CheckValue::DefaultStar
    }
}

impl<T: InterpretableFrom<ValueSubTree>> InterpretableFrom<ValueSubTree> for CheckValue<T> {
    open spec fn lower_ok(from: ValueSubTree, ctx: CtxView) -> bool {
        from.is_empty_str() || from.is_star_str() || T::lower_ok(from, ctx)
    }

    open spec fn lower_err(from: ValueSubTree, ctx: CtxView) -> ErrorKind {
        T::lower_err(from, ctx)
    }

    open spec fn is_lowered(&self, from: ValueSubTree, ctx: CtxView) -> bool {
        if from.is_empty_str() {
            self is DefaultStar
        } else if from.is_star_str() {
            self is Star
        } else {
            self matches CheckValue::Equal(v) && v.is_lowered(from, ctx)
        }
    }

    /// Only the root scalar decides between the wildcards and a concrete
    /// value: the empty string marks an absent field, `"*"` the explicit
    /// wildcard, anything else an expected value.
    fn interpret_from(from: ValueSubTree, context: &InterpreterContext) -> (r: Result<
        Self,
        InterpretError,
    >) {
        match &from {
            ValueSubTree::Str(s) => {
                let n = s.as_str().unicode_len();
                if n == 0 {
                    return Result::Ok(CheckValue::DefaultStar);
                }
                if n == 1 && s.as_str().get_char(0) == '*' {
                    proof {
                        assert(s@ =~= seq!['*']);
                    }
                    return Result::Ok(CheckValue::Star);
                }
            },
            _ => {},
        }
        match T::interpret_from(from, context) {
            Result::Ok(v) => Result::Ok(CheckValue::Equal(v)),
            Result::Err(e) => Result::Err(e),
        }
    }
}

pub type CheckBytesValue = CheckValue<BytesValue>;

pub type CheckBigUintValue = CheckValue<BigUintValue>;

pub type CheckU64Value = CheckValue<U64Value>;

/// A lowered value keeps the raw tree it was built from, so re-serialising
/// its `original` reproduces the input document, structure and all.
pub proof fn lemma_lowering_retains_original(v: BytesValue, t: ValueSubTree, ctx: CtxView)
    requires
        v.is_lowered(t, ctx),
    ensures
        v.original == t,
{
}

/// A storage or account key: the interpreted bytes of its raw string,
/// beside the string itself. The bytes, not the string, are the key's
/// identity.
#[derive(Debug)]
pub struct BytesKey {
    pub value: Vec<u8>,
    pub original: String,
}

impl InterpretableFrom<String> for BytesKey {
    open spec fn lower_ok(from: String, ctx: CtxView) -> bool {
        super::value_interpreter::interp_str(vstd::utf8::encode_utf8(from@), ctx) is Ok
    }

    open spec fn lower_err(from: String, ctx: CtxView) -> ErrorKind {
        super::value_interpreter::interp_str(vstd::utf8::encode_utf8(from@), ctx)->Err_0
    }

    open spec fn is_lowered(&self, from: String, ctx: CtxView) -> bool {
        &&& self.original == from
        &&& super::value_interpreter::interp_str(vstd::utf8::encode_utf8(from@), ctx)
            == Result::Ok::<Seq<u8>, ErrorKind>(self.value@)
    }

    fn interpret_from(from: String, context: &InterpreterContext) -> (r: Result<
        Self,
        InterpretError,
    >) {
        match super::value_interpreter::interpret_string(from.as_str(), context) {
            Result::Ok(value) => Result::Ok(BytesKey { value, original: from }),
            Result::Err(e) => Result::Err(e),
        }
    }
}

/// An account's identity: the interpreted bytes of its address string.
pub type AddressKey = BytesKey;

/// Every member of the sequence lowers.
pub open spec fn vec_lower_ok<RV, T: InterpretableFrom<RV>>(ts: Seq<RV>, ctx: CtxView) -> bool {
    forall|i: int| 0 <= i < ts.len() ==> T::lower_ok(#[trigger] ts[i], ctx)
}

/// The failure of the first member that does not lower.
pub open spec fn vec_lower_err<RV, T: InterpretableFrom<RV>>(ts: Seq<RV>, ctx: CtxView) -> ErrorKind
    decreases ts.len(),
{
    if ts.len() == 0 {
        ErrorKind::BadLiteral
    } else if !T::lower_ok(ts[0], ctx) {
        T::lower_err(ts[0], ctx)
    } else {
        vec_lower_err::<RV, T>(ts.drop_first(), ctx)
    }
}

/// Member `i` of the result stands for member `i` of the raw list.
pub open spec fn vec_is_lowered<RV, T: InterpretableFrom<RV>>(
    vs: Seq<T>,
    ts: Seq<RV>,
    ctx: CtxView,
) -> bool {
    &&& vs.len() == ts.len()
    &&& forall|i: int| 0 <= i < ts.len() ==> (#[trigger] vs[i]).is_lowered(ts[i], ctx)
}

proof fn lemma_vec_lower_err_at<RV, T: InterpretableFrom<RV>>(
    ts: Seq<RV>,
    i: int,
    ctx: CtxView,
)
    requires
        0 <= i < ts.len(),
        forall|j: int| 0 <= j < i ==> T::lower_ok(#[trigger] ts[j], ctx),
        !T::lower_ok(ts[i], ctx),
    ensures
        vec_lower_err::<RV, T>(ts, ctx) == T::lower_err(ts[i], ctx),
    decreases i,
{
    if i > 0 {
        assert(forall|j: int| 0 <= j < i - 1 ==> ts.drop_first()[j] == ts[j + 1]);
        lemma_vec_lower_err_at::<RV, T>(ts.drop_first(), i - 1, ctx);
    }
}

/// Lower a raw list member by member, in document order; the first failure
/// aborts, reported under its index.
#[verifier::loop_isolation(false)]
pub fn lower_vec<RV, T: InterpretableFrom<RV>>(
    from: Vec<RV>,
    context: &InterpreterContext,
) -> (r: Result<Vec<T>, InterpretError>)
    ensures
        r is Ok <==> vec_lower_ok::<RV, T>(from@, context@),
        r is Ok ==> vec_is_lowered(r->Ok_0@, from@, context@),
        r is Err ==> r->Err_0.kind == vec_lower_err::<RV, T>(from@, context@),
{
    let ghost orig = from@;
    let ghost ctx = context@;
    let mut rest = from;
    let mut out: Vec<T> = Vec::new();
    proof {
        assert(orig.skip(0) =~= orig);
    }
    while rest.len() > 0
        invariant
            out@.len() + rest@.len() == orig.len(),
            rest@ == orig.skip(out@.len() as int),
            vec_is_lowered(out@, orig.take(out@.len() as int), ctx),
            forall|j: int| 0 <= j < out@.len() ==> T::lower_ok(#[trigger] orig[j], ctx),
        decreases rest@.len(),
    {
        let idx = out.len();
        proof {
            assert(orig.skip(idx as int)[0] == orig[idx as int]);
            assert(orig.skip(idx as int).drop_first() =~= orig.skip(idx + 1));
        }
        let t = rest.remove(0);
        match T::interpret_from(t, context) {
            Result::Ok(v) => {
                out.push(v);
                proof {
                    assert(orig.take(idx + 1).drop_last() =~= orig.take(idx as int));
                    assert(orig.take(idx + 1)[idx as int] == orig[idx as int]);
                    assert(vec_is_lowered(out@, orig.take(out@.len() as int), ctx)) by {
                        assert(forall|i: int|
                            0 <= i < idx ==> orig.take(idx + 1)[i] == orig.take(idx as int)[i]);
                        assert(forall|i: int| 0 <= i < idx ==> out@[i] == out@.drop_last()[i]);
                    }
                }
            },
            Result::Err(e) => {
                proof {
                    lemma_vec_lower_err_at::<RV, T>(orig, idx as int, ctx);
                }
                return Result::Err(e.within(super::errors::PathSeg::Index(idx)));
            },
        }
    }
    proof {
        assert(orig.take(orig.len() as int) =~= orig);
    }
    Result::Ok(out)
}

/// The bytes each lowered key contributes to the set of keys already taken.
pub open spec fn key_bytes_of<V>(entries: Seq<(BytesKey, V)>) -> Seq<Seq<u8>> {
    entries.map_values(|e: (BytesKey, V)| e.0.value@)
}

/// A raw keyed map lowers when every key string and every value lowers and
/// no two keys lower to the same bytes; `seen` carries the key bytes taken
/// so far.
pub open spec fn entries_lower_ok<RV, V: InterpretableFrom<RV>>(
    raw: Seq<(String, RV)>,
    seen: Seq<Seq<u8>>,
    ctx: CtxView,
) -> bool
    decreases raw.len(),
{
    if raw.len() == 0 {
        true
    } else {
        let kb = super::value_interpreter::interp_str(vstd::utf8::encode_utf8(raw[0].0@), ctx);
        &&& kb is Ok
        &&& V::lower_ok(raw[0].1, ctx)
        &&& !seen.contains(kb->Ok_0)
        &&& entries_lower_ok::<RV, V>(raw.drop_first(), seen.push(kb->Ok_0), ctx)
    }
}

/// The first failure of a raw keyed map, in entry order: a key that does
/// not interpret, a value that does not lower, or a key already taken.
pub open spec fn entries_lower_err<RV, V: InterpretableFrom<RV>>(
    raw: Seq<(String, RV)>,
    seen: Seq<Seq<u8>>,
    ctx: CtxView,
) -> ErrorKind
    decreases raw.len(),
{
    if raw.len() == 0 {
        ErrorKind::DuplicateEntry
    } else {
        let kb = super::value_interpreter::interp_str(vstd::utf8::encode_utf8(raw[0].0@), ctx);
        if kb is Err {
            kb->Err_0
        } else if !V::lower_ok(raw[0].1, ctx) {
            V::lower_err(raw[0].1, ctx)
        } else if seen.contains(kb->Ok_0) {
            ErrorKind::DuplicateEntry
        } else {
            entries_lower_err::<RV, V>(raw.drop_first(), seen.push(kb->Ok_0), ctx)
        }
    }
}

/// Entry `i` of the result stands for entry `i` of the raw map, key and
/// value both; document order is kept.
pub open spec fn entries_is_lowered<RV, V: InterpretableFrom<RV>>(
    entries: Seq<(BytesKey, V)>,
    raw: Seq<(String, RV)>,
    ctx: CtxView,
) -> bool {
    &&& entries.len() == raw.len()
    &&& forall|i: int|
        0 <= i < raw.len() ==> (#[trigger] entries[i]).0.is_lowered(raw[i].0, ctx)
            && entries[i].1.is_lowered(raw[i].1, ctx)
}

/// Whether some lowered entry already took these key bytes.
fn contains_key_bytes<V>(entries: &Vec<(BytesKey, V)>, kb: &Vec<u8>) -> (r: bool)
    ensures
        r == key_bytes_of(entries@).contains(kb@),
{
    let mut i: usize = 0;
    while i < entries.len()
        invariant
            i <= entries@.len(),
            forall|j: int| 0 <= j < i ==> key_bytes_of(entries@)[j] != kb@,
        decreases entries@.len() - i,
    {
        if super::value_interpreter::bytes_eq(entries[i].0.value.as_slice(), kb.as_slice()) {
            proof {
                assert(key_bytes_of(entries@)[i as int] == kb@);
            }
            return true;
        }
        i += 1;
    }
    proof {
        if key_bytes_of(entries@).contains(kb@) {
            let j = choose|j: int|
                0 <= j < key_bytes_of(entries@).len() && key_bytes_of(entries@)[j] == kb@;
            assert(key_bytes_of(entries@)[j] != kb@);
        }
    }
    false
}

/// Lower a raw keyed map entry by entry, in document order: each key
/// through the value interpreter, each value by its own lowering, and a
/// key's bytes taken twice fail with `DuplicateEntry`.
#[verifier::loop_isolation(false)]
pub fn lower_entries<RV, V: InterpretableFrom<RV>>(
    from: Vec<(String, RV)>,
    context: &InterpreterContext,
) -> (r: Result<Vec<(BytesKey, V)>, InterpretError>)
    ensures
        r is Ok <==> entries_lower_ok::<RV, V>(from@, Seq::empty(), context@),
        r is Ok ==> entries_is_lowered(r->Ok_0@, from@, context@),
        r is Err ==> r->Err_0.kind == entries_lower_err::<RV, V>(from@, Seq::empty(), context@),
{
    let ghost orig = from@;
    let ghost ctx = context@;
    let mut rest = from;
    let mut out: Vec<(BytesKey, V)> = Vec::new();
    proof {
        assert(orig.skip(0) =~= orig);
        assert(key_bytes_of(out@) =~= Seq::<Seq<u8>>::empty());
    }
    while rest.len() > 0
        invariant
            out@.len() + rest@.len() == orig.len(),
            rest@ == orig.skip(out@.len() as int),
            entries_is_lowered(out@, orig.take(out@.len() as int), ctx),
            entries_lower_ok::<RV, V>(orig, Seq::empty(), ctx) == entries_lower_ok::<RV, V>(
                rest@,
                key_bytes_of(out@),
                ctx,
            ),
            entries_lower_err::<RV, V>(orig, Seq::empty(), ctx) == entries_lower_err::<RV, V>(
                rest@,
                key_bytes_of(out@),
                ctx,
            ),
        decreases rest@.len(),
    {
        let idx = out.len();
        proof {
            assert(orig.skip(idx as int)[0] == orig[idx as int]);
            assert(orig.skip(idx as int).drop_first() =~= orig.skip(idx + 1));
        }
        let (k_raw, v_raw) = rest.remove(0);
        let k_disp = k_raw.clone();
        let key = match BytesKey::interpret_from(k_raw, context) {
            Result::Ok(k) => k,
            Result::Err(e) => {
                return Result::Err(e.within(super::errors::PathSeg::Field(k_disp)));
            },
        };
        let value = match V::interpret_from(v_raw, context) {
            Result::Ok(v) => v,
            Result::Err(e) => {
                return Result::Err(e.within(super::errors::PathSeg::Field(k_disp)));
            },
        };
        if contains_key_bytes(&out, &key.value) {
            return Result::Err(InterpretError::new(ErrorKind::DuplicateEntry));
        }
        let ghost out_before = out@;
        out.push((key, value));
        proof {
            assert(orig.take(idx + 1).drop_last() =~= orig.take(idx as int));
            assert(orig.take(idx + 1)[idx as int] == orig[idx as int]);
            assert(entries_is_lowered(out@, orig.take(out@.len() as int), ctx)) by {
                assert(forall|i: int|
                    0 <= i < idx ==> orig.take(idx + 1)[i] == orig.take(idx as int)[i]);
                assert(forall|i: int| 0 <= i < idx ==> out@[i] == out_before[i]);
            }
            assert(key_bytes_of(out@) =~= key_bytes_of(out_before).push(out@.last().0.value@));
        }
    }
    proof {
        assert(orig.take(orig.len() as int) =~= orig);
    }
    Result::Ok(out)
}

/// A lowered keyed map has pairwise-distinct key bytes: the interpreted
/// bytes are each entry's identity, and no two entries share one; nor does
/// any entry reuse bytes already taken by `seen`.
pub proof fn lemma_entries_distinct_keys<RV, V: InterpretableFrom<RV>>(
    entries: Seq<(BytesKey, V)>,
    raw: Seq<(String, RV)>,
    seen: Seq<Seq<u8>>,
    ctx: CtxView,
)
    requires
        entries_lower_ok::<RV, V>(raw, seen, ctx),
        entries_is_lowered(entries, raw, ctx),
    ensures
        forall|i: int, j: int|
            0 <= i < j < entries.len() ==> (#[trigger] entries[i]).0.value@ != (
            #[trigger] entries[j]).0.value@,
        forall|i: int| 0 <= i < entries.len() ==> !seen.contains((#[trigger] entries[i]).0.value@),
    decreases raw.len(),
{
    if raw.len() == 0 {
    } else {
        let kb = super::value_interpreter::interp_str(vstd::utf8::encode_utf8(raw[0].0@), ctx);
        assert(entries[0].0.is_lowered(raw[0].0, ctx));
        assert(kb->Ok_0 == entries[0].0.value@);
        assert(entries_is_lowered(entries.drop_first(), raw.drop_first(), ctx)) by {
            assert(forall|i: int|
                0 <= i < raw.len() - 1 ==> entries.drop_first()[i] == entries[i + 1]
                    && raw.drop_first()[i] == raw[i + 1]);
        }
        lemma_entries_distinct_keys::<RV, V>(
            entries.drop_first(),
            raw.drop_first(),
            seen.push(kb->Ok_0),
            ctx,
        );
        assert forall|i: int, j: int|
            0 <= i < j < entries.len() implies (#[trigger] entries[i]).0.value@ != (
        #[trigger] entries[j]).0.value@ by {
            if i == 0 {
                assert(entries[j] == entries.drop_first()[j - 1]);
                assert(!seen.push(kb->Ok_0).contains(entries.drop_first()[j - 1].0.value@));
                assert(seen.push(kb->Ok_0)[seen.len() as int] == kb->Ok_0);
            } else {
                assert(entries[i] == entries.drop_first()[i - 1]);
                assert(entries[j] == entries.drop_first()[j - 1]);
            }
        }
        assert forall|i: int| 0 <= i < entries.len() implies !seen.contains(
            (#[trigger] entries[i]).0.value@,
        ) by {
            if i == 0 {
                assert(!seen.contains(kb->Ok_0));
            } else {
                assert(entries[i] == entries.drop_first()[i - 1]);
                assert(!seen.push(kb->Ok_0).contains(entries.drop_first()[i - 1].0.value@));
                if seen.contains(entries[i].0.value@) {
                    let w = choose|w: int|
                        0 <= w < seen.len() && seen[w] == entries[i].0.value@;
                    assert(seen.push(kb->Ok_0)[w] == entries[i].0.value@);
                }
            }
        }
    }
}

/// An optional raw field lowers when, if present, its value lowers.
pub open spec fn opt_lower_ok<RV, T: InterpretableFrom<RV>>(o: Option<RV>, ctx: CtxView) -> bool {
    o matches Option::Some(v) ==> T::lower_ok(v, ctx)
}

/// An optional result stands for an optional raw field: both absent, or
/// both present and related.
pub open spec fn opt_is_lowered<RV, T: InterpretableFrom<RV>>(
    r: Option<T>,
    o: Option<RV>,
    ctx: CtxView,
) -> bool {
    match o {
        Option::Some(raw) => r matches Option::Some(v) && v.is_lowered(raw, ctx),
        Option::None => r is None,
    }
}

/// Lower an optional raw field; an absent field stays absent.
pub fn lower_opt<RV, T: InterpretableFrom<RV>>(from: Option<RV>, context: &InterpreterContext) -> (r:
    Result<Option<T>, InterpretError>)
    ensures
        r is Ok <==> opt_lower_ok::<RV, T>(from, context@),
        r is Ok ==> opt_is_lowered(r->Ok_0, from, context@),
        r is Err ==> r->Err_0.kind == T::lower_err(from->0, context@),
{
    match from {
        Option::Some(v) => match T::interpret_from(v, context) {
            Result::Ok(x) => Result::Ok(Option::Some(x)),
            Result::Err(e) => Result::Err(e),
        },
        Option::None => Result::Ok(Option::None),
    }
}

/// An optional raw check field lowers when, if present, it lowers as a
/// check value; an absent field lowers to the default wildcard.
pub open spec fn check_lower_ok<T: InterpretableFrom<ValueSubTree>>(
    o: Option<ValueSubTree>,
    ctx: CtxView,
) -> bool {
    o matches Option::Some(t) ==> CheckValue::<T>::lower_ok(t, ctx)
}

/// The check value stands for an optional raw field: the default wildcard
/// for an absent field, the lowered check value otherwise.
pub open spec fn check_is_lowered<T: InterpretableFrom<ValueSubTree>>(
    r: CheckValue<T>,
    o: Option<ValueSubTree>,
    ctx: CtxView,
) -> bool {
    match o {
        Option::Some(t) => r.is_lowered(t, ctx),
        Option::None => r is DefaultStar,
    }
}

/// Lower an optional raw check field; an absent field becomes the default
/// wildcard.
pub fn lower_check_field<T: InterpretableFrom<ValueSubTree>>(
    from: Option<ValueSubTree>,
    context: &InterpreterContext,
) -> (r: Result<CheckValue<T>, InterpretError>)
    ensures
        r is Ok <==> check_lower_ok::<T>(from, context@),
        r is Ok ==> check_is_lowered(r->Ok_0, from, context@),
        r is Err ==> r->Err_0.kind == CheckValue::<T>::lower_err(from->0, context@),
{
    match from {
        Option::Some(t) => CheckValue::<T>::interpret_from(t, context),
        Option::None => Result::Ok(CheckValue::DefaultStar),
    }
}

} // verus!
