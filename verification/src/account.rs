//! Account state and account assertions in interpreted form.
use super::account_raw::{AccountRaw, CheckAccountRaw, CheckAccountsRaw, CheckStorageRaw};
use super::context::{CtxView, InterpreterContext};
use super::errors::{ErrorKind, InterpretError, PathSeg};
use super::value::{
    AddressKey, BigUintValue, BytesKey, BytesValue, CheckValue, InterpretableFrom, U64Value,
    check_is_lowered, check_lower_ok, entries_is_lowered, entries_lower_err, entries_lower_ok,
    lower_check_field, lower_entries, lower_opt, opt_is_lowered, opt_lower_ok,
};
use super::value_raw::ValueSubTree;
use vstd::prelude::*;
use vstd::string::StrSliceExecFns;

verus! {

/// Seeded account state: nonce, balance, storage and code, each paired with
/// its raw form; storage keys are interpreted bytes in document order.
#[derive(Debug)]
pub struct Account {
    pub comment: Option<BytesValue>,
    pub nonce: U64Value,
    pub balance: BigUintValue,
    pub storage: Vec<(BytesKey, BytesValue)>,
    pub code: Option<BytesValue>,
}

impl InterpretableFrom<AccountRaw> for Account {
    open spec fn lower_ok(from: AccountRaw, ctx: CtxView) -> bool {
        &&& opt_lower_ok::<ValueSubTree, BytesValue>(from.comment, ctx)
        &&& U64Value::lower_ok(from.nonce, ctx)
        &&& BigUintValue::lower_ok(from.balance, ctx)
        &&& entries_lower_ok::<ValueSubTree, BytesValue>(from.storage@, Seq::empty(), ctx)
        &&& opt_lower_ok::<ValueSubTree, BytesValue>(from.code, ctx)
    }

    open spec fn lower_err(from: AccountRaw, ctx: CtxView) -> ErrorKind {
        if !opt_lower_ok::<ValueSubTree, BytesValue>(from.comment, ctx) {
            BytesValue::lower_err(from.comment->0, ctx)
        } else if !U64Value::lower_ok(from.nonce, ctx) {
            U64Value::lower_err(from.nonce, ctx)
        } else if !BigUintValue::lower_ok(from.balance, ctx) {
            BigUintValue::lower_err(from.balance, ctx)
        } else if !entries_lower_ok::<ValueSubTree, BytesValue>(from.storage@, Seq::empty(), ctx) {
            entries_lower_err::<ValueSubTree, BytesValue>(from.storage@, Seq::empty(), ctx)
        } else {
            BytesValue::lower_err(from.code->0, ctx)
        }
    }

    open spec fn is_lowered(&self, from: AccountRaw, ctx: CtxView) -> bool {
        &&& opt_is_lowered(self.comment, from.comment, ctx)
        &&& self.nonce.is_lowered(from.nonce, ctx)
        &&& self.balance.is_lowered(from.balance, ctx)
        &&& entries_is_lowered(self.storage@, from.storage@, ctx)
        &&& opt_is_lowered(self.code, from.code, ctx)
    }

    fn interpret_from(from: AccountRaw, context: &InterpreterContext) -> (r: Result<
        Self,
        InterpretError,
    >) {
        let AccountRaw { comment, nonce, balance, storage, code } = from;
        let comment = match lower_opt::<ValueSubTree, BytesValue>(comment, context) {
            Result::Ok(v) => v,
            Result::Err(e) => {
                return Result::Err(e.within(PathSeg::field("comment")));
            },
        };
        let nonce = match U64Value::interpret_from(nonce, context) {
            Result::Ok(v) => v,
            Result::Err(e) => {
                return Result::Err(e.within(PathSeg::field("nonce")));
            },
        };
        let balance = match BigUintValue::interpret_from(balance, context) {
            Result::Ok(v) => v,
            Result::Err(e) => {
                return Result::Err(e.within(PathSeg::field("balance")));
            },
        };
        let storage = match lower_entries::<ValueSubTree, BytesValue>(storage, context) {
            Result::Ok(v) => v,
            Result::Err(e) => {
                return Result::Err(e.within(PathSeg::field("storage")));
            },
        };
        let code = match lower_opt::<ValueSubTree, BytesValue>(code, context) {
            Result::Ok(v) => v,
            Result::Err(e) => {
                return Result::Err(e.within(PathSeg::field("code")));
            },
        };
        Result::Ok(Account { comment, nonce, balance, storage, code })
    }
}

/// Every expected storage entry lowers as a check value; keys stay raw
/// strings.
pub open spec fn check_storage_entries_ok(es: Seq<(String, ValueSubTree)>, ctx: CtxView) -> bool {
    forall|i: int|
        0 <= i < es.len() ==> CheckValue::<BytesValue>::lower_ok((#[trigger] es[i]).1, ctx)
}

/// The failure of the first expected storage entry that does not lower.
pub open spec fn check_storage_entries_err(es: Seq<(String, ValueSubTree)>, ctx: CtxView) -> ErrorKind
    decreases es.len(),
{
    if es.len() == 0 {
        ErrorKind::BadLiteral
    } else if !CheckValue::<BytesValue>::lower_ok(es[0].1, ctx) {
        CheckValue::<BytesValue>::lower_err(es[0].1, ctx)
    } else {
        check_storage_entries_err(es.drop_first(), ctx)
    }
}

/// Entry `i` of the result keeps the raw key of entry `i` and lowers its
/// value; order is kept.
pub open spec fn check_storage_entries_lowered(
    rs: Seq<(String, CheckValue<BytesValue>)>,
    es: Seq<(String, ValueSubTree)>,
    ctx: CtxView,
) -> bool {
    &&& rs.len() == es.len()
    &&& forall|i: int|
        0 <= i < es.len() ==> (#[trigger] rs[i]).0 == es[i].0 && rs[i].1.is_lowered(es[i].1, ctx)
}

proof fn lemma_check_storage_entries_err_at(es: Seq<(String, ValueSubTree)>, i: int, ctx: CtxView)
    requires
        0 <= i < es.len(),
        forall|j: int| 0 <= j < i ==> CheckValue::<BytesValue>::lower_ok((#[trigger] es[j]).1, ctx),
        !CheckValue::<BytesValue>::lower_ok(es[i].1, ctx),
    ensures
        check_storage_entries_err(es, ctx) == CheckValue::<BytesValue>::lower_err(es[i].1, ctx),
    decreases i,
{
    if i > 0 {
        assert(forall|j: int| 0 <= j < i - 1 ==> es.drop_first()[j] == es[j + 1]);
        lemma_check_storage_entries_err_at(es.drop_first(), i - 1, ctx);
    }
}

/// Lower the expected storage map entry by entry, in document order,
/// keeping each raw key string.
#[verifier::loop_isolation(false)]
fn lower_check_storage_entries(
    from: Vec<(String, ValueSubTree)>,
    context: &InterpreterContext,
) -> (r: Result<Vec<(String, CheckValue<BytesValue>)>, InterpretError>)
    ensures
        r is Ok <==> check_storage_entries_ok(from@, context@),
        r is Ok ==> check_storage_entries_lowered(r->Ok_0@, from@, context@),
        r is Err ==> r->Err_0.kind == check_storage_entries_err(from@, context@),
{
    let ghost orig = from@;
    let ghost ctx = context@;
    let mut rest = from;
    let mut out: Vec<(String, CheckValue<BytesValue>)> = Vec::new();
    proof {
        assert(orig.skip(0) =~= orig);
    }
    while rest.len() > 0
        invariant
            out@.len() + rest@.len() == orig.len(),
            rest@ == orig.skip(out@.len() as int),
            check_storage_entries_lowered(out@, orig.take(out@.len() as int), ctx),
            forall|j: int|
                0 <= j < out@.len() ==> CheckValue::<BytesValue>::lower_ok(
                    (#[trigger] orig[j]).1,
                    ctx,
                ),
        decreases rest@.len(),
    {
        let idx = out.len();
        proof {
            assert(orig.skip(idx as int)[0] == orig[idx as int]);
            assert(orig.skip(idx as int).drop_first() =~= orig.skip(idx + 1));
        }
        let (k, v_raw) = rest.remove(0);
        match CheckValue::<BytesValue>::interpret_from(v_raw, context) {
            Result::Ok(v) => {
                let ghost out_before = out@;
                out.push((k, v));
                proof {
                    assert(orig.take(idx + 1).drop_last() =~= orig.take(idx as int));
                    assert(orig.take(idx + 1)[idx as int] == orig[idx as int]);
                    assert(check_storage_entries_lowered(out@, orig.take(out@.len() as int), ctx))
                        by {
                        assert(forall|i: int|
                            0 <= i < idx ==> orig.take(idx + 1)[i] == orig.take(idx as int)[i]);
                        assert(forall|i: int| 0 <= i < idx ==> out@[i] == out_before[i]);
                    }
                }
            },
            Result::Err(e) => {
                proof {
                    lemma_check_storage_entries_err_at(orig, idx as int, ctx);
                }
                return Result::Err(e.within(PathSeg::Field(k)));
            },
        }
    }
    proof {
        assert(orig.take(orig.len() as int) =~= orig);
    }
    Result::Ok(out)
}

/// Either the wildcard, leaving the whole storage unconstrained, or a map
/// from raw key strings to expected values.
#[derive(Debug)]
pub enum CheckStorage {
    Star,
    Equal(Vec<(String, CheckValue<BytesValue>)>),
}

impl CheckStorage {
    /// The whole storage map is unconstrained.
    pub fn is_star(&self) -> (r: bool)
        ensures
            r == (self is Star),
    {
        match self {
            CheckStorage::Star => true,
            CheckStorage::Equal(_) => false,
        }
    }
}

impl InterpretableFrom<CheckStorageRaw> for CheckStorage {
    open spec fn lower_ok(from: CheckStorageRaw, ctx: CtxView) -> bool {
        match from {
            CheckStorageRaw::Star => true,
            CheckStorageRaw::Equal(m) => check_storage_entries_ok(m@, ctx),
        }
    }

    open spec fn lower_err(from: CheckStorageRaw, ctx: CtxView) -> ErrorKind {
        match from {
            CheckStorageRaw::Star => ErrorKind::BadLiteral,
            CheckStorageRaw::Equal(m) => check_storage_entries_err(m@, ctx),
        }
    }

    open spec fn is_lowered(&self, from: CheckStorageRaw, ctx: CtxView) -> bool {
        match from {
            CheckStorageRaw::Star => self is Star,
            CheckStorageRaw::Equal(m) => self matches CheckStorage::Equal(rs)
                && check_storage_entries_lowered(rs@, m@, ctx),
        }
    }

    fn interpret_from(from: CheckStorageRaw, context: &InterpreterContext) -> (r: Result<
        Self,
        InterpretError,
    >) {
        match from {
            CheckStorageRaw::Star => Result::Ok(CheckStorage::Star),
            CheckStorageRaw::Equal(m) => match lower_check_storage_entries(m, context) {
                Result::Ok(rs) => Result::Ok(CheckStorage::Equal(rs)),
                Result::Err(e) => Result::Err(e),
            },
        }
    }
}

/// An account assertion: each field a wildcard or an expected value.
#[derive(Debug)]
pub struct CheckAccount {
    pub comment: Option<BytesValue>,
    pub nonce: CheckValue<U64Value>,
    pub balance: CheckValue<BigUintValue>,
    pub storage: CheckStorage,
    pub code: Option<CheckValue<BytesValue>>,
    pub async_call_data: CheckValue<BytesValue>,
}

impl InterpretableFrom<CheckAccountRaw> for CheckAccount {
    open spec fn lower_ok(from: CheckAccountRaw, ctx: CtxView) -> bool {
        &&& opt_lower_ok::<ValueSubTree, BytesValue>(from.comment, ctx)
        &&& check_lower_ok::<U64Value>(from.nonce, ctx)
        &&& check_lower_ok::<BigUintValue>(from.balance, ctx)
        &&& CheckStorage::lower_ok(from.storage, ctx)
        &&& opt_lower_ok::<ValueSubTree, CheckValue<BytesValue>>(from.code, ctx)
        &&& check_lower_ok::<BytesValue>(from.async_call_data, ctx)
    }

    open spec fn lower_err(from: CheckAccountRaw, ctx: CtxView) -> ErrorKind {
        if !opt_lower_ok::<ValueSubTree, BytesValue>(from.comment, ctx) {
            BytesValue::lower_err(from.comment->0, ctx)
        } else if !check_lower_ok::<U64Value>(from.nonce, ctx) {
            CheckValue::<U64Value>::lower_err(from.nonce->0, ctx)
        } else if !check_lower_ok::<BigUintValue>(from.balance, ctx) {
            CheckValue::<BigUintValue>::lower_err(from.balance->0, ctx)
        } else if !CheckStorage::lower_ok(from.storage, ctx) {
            CheckStorage::lower_err(from.storage, ctx)
        } else if !opt_lower_ok::<ValueSubTree, CheckValue<BytesValue>>(from.code, ctx) {
            CheckValue::<BytesValue>::lower_err(from.code->0, ctx)
        } else {
            CheckValue::<BytesValue>::lower_err(from.async_call_data->0, ctx)
        }
    }

    open spec fn is_lowered(&self, from: CheckAccountRaw, ctx: CtxView) -> bool {
        &&& opt_is_lowered(self.comment, from.comment, ctx)
        &&& check_is_lowered(self.nonce, from.nonce, ctx)
        &&& check_is_lowered(self.balance, from.balance, ctx)
        &&& self.storage.is_lowered(from.storage, ctx)
        &&& opt_is_lowered(self.code, from.code, ctx)
        &&& check_is_lowered(self.async_call_data, from.async_call_data, ctx)
    }

    fn interpret_from(from: CheckAccountRaw, context: &InterpreterContext) -> (r: Result<
        Self,
        InterpretError,
    >) {
        let CheckAccountRaw { comment, nonce, balance, storage, code, async_call_data } = from;
        let comment = match lower_opt::<ValueSubTree, BytesValue>(comment, context) {
            Result::Ok(v) => v,
            Result::Err(e) => {
                return Result::Err(e.within(PathSeg::field("comment")));
            },
        };
        let nonce = match lower_check_field::<U64Value>(nonce, context) {
            Result::Ok(v) => v,
            Result::Err(e) => {
                return Result::Err(e.within(PathSeg::field("nonce")));
            },
        };
        let balance = match lower_check_field::<BigUintValue>(balance, context) {
            Result::Ok(v) => v,
            Result::Err(e) => {
                return Result::Err(e.within(PathSeg::field("balance")));
            },
        };
        let storage = match CheckStorage::interpret_from(storage, context) {
            Result::Ok(v) => v,
            Result::Err(e) => {
                return Result::Err(e.within(PathSeg::field("storage")));
            },
        };
        let code = match lower_opt::<ValueSubTree, CheckValue<BytesValue>>(code, context) {
            Result::Ok(v) => v,
            Result::Err(e) => {
                return Result::Err(e.within(PathSeg::field("code")));
            },
        };
        let async_call_data = match lower_check_field::<BytesValue>(async_call_data, context) {
            Result::Ok(v) => v,
            Result::Err(e) => {
                return Result::Err(e.within(PathSeg::field("asyncCallData")));
            },
        };
        Result::Ok(CheckAccount { comment, nonce, balance, storage, code, async_call_data })
    }
}

/// The raw key that permits accounts beyond those listed.
pub open spec fn is_plus_key(k: String) -> bool {
    k@ == seq!['+']
}

/// The raw account entries with every `"+"` entry removed, order kept.
pub open spec fn non_plus_entries(raws: Seq<(String, CheckAccountRaw)>) -> Seq<
    (String, CheckAccountRaw),
>
    decreases raws.len(),
{
    if raws.len() == 0 {
        Seq::empty()
    } else if is_plus_key(raws.last().0) {
        non_plus_entries(raws.drop_last())
    } else {
        non_plus_entries(raws.drop_last()).push(raws.last())
    }
}

/// Some raw entry carries the `"+"` key.
pub open spec fn has_plus_key(raws: Seq<(String, CheckAccountRaw)>) -> bool {
    exists|i: int| 0 <= i < raws.len() && is_plus_key((#[trigger] raws[i]).0)
}

/// The account assertions of a `checkState` step: whether unlisted accounts
/// are permitted, and one assertion per listed address, keyed by the
/// address's interpreted bytes.
#[derive(Debug)]
pub struct CheckAccounts {
    pub other_accounts_allowed: bool,
    pub accounts: Vec<(AddressKey, CheckAccount)>,
}

impl InterpretableFrom<CheckAccountsRaw> for CheckAccounts {
    open spec fn lower_ok(from: CheckAccountsRaw, ctx: CtxView) -> bool {
        entries_lower_ok::<CheckAccountRaw, CheckAccount>(
            non_plus_entries(from.accounts@),
            Seq::empty(),
            ctx,
        )
    }

    open spec fn lower_err(from: CheckAccountsRaw, ctx: CtxView) -> ErrorKind {
        entries_lower_err::<CheckAccountRaw, CheckAccount>(
            non_plus_entries(from.accounts@),
            Seq::empty(),
            ctx,
        )
    }

    open spec fn is_lowered(&self, from: CheckAccountsRaw, ctx: CtxView) -> bool {
        &&& self.other_accounts_allowed == has_plus_key(from.accounts@)
        &&& entries_is_lowered(self.accounts@, non_plus_entries(from.accounts@), ctx)
    }

    /// Iterating the raw entries, the literal key `"+"` only permits other
    /// accounts and contributes no assertion, whatever stands beside it;
    /// every other entry is lowered, keyed by its address bytes.
    fn interpret_from(from: CheckAccountsRaw, context: &InterpreterContext) -> (r: Result<
        Self,
        InterpretError,
    >) {
        let ghost orig = from.accounts@;
        let total = from.accounts.len();
        let mut rest = from.accounts;
        let mut other_accounts_allowed = false;
        let mut kept: Vec<(String, CheckAccountRaw)> = Vec::new();
        proof {
            assert(orig.take(0) =~= Seq::<(String, CheckAccountRaw)>::empty());
        }
        let mut taken: usize = 0;
        while rest.len() > 0
            invariant
                orig.len() == total as nat,
                taken <= total,
                taken + rest@.len() == orig.len(),
                rest@ == orig.skip(taken as int),
                kept@ == non_plus_entries(orig.take(taken as int)),
                other_accounts_allowed == has_plus_key(orig.take(taken as int)),
            decreases rest@.len(),
        {
            proof {
                assert(orig.skip(taken as int)[0] == orig[taken as int]);
                assert(orig.skip(taken as int).drop_first() =~= orig.skip(taken + 1));
                assert(orig.take(taken + 1).drop_last() =~= orig.take(taken as int));
                assert(orig.take(taken + 1).last() == orig[taken as int]);
            }
            let (k, v) = rest.remove(0);
            let is_plus = k.as_str().unicode_len() == 1 && k.as_str().get_char(0) == '+';
            proof {
                if is_plus {
                    assert(k@ =~= seq!['+']);
                } else {
                    assert(k@ != seq!['+']) by {
                        if k@ == seq!['+'] {
                            assert(k@.len() == 1 && k@[0] == '+');
                        }
                    }
                }
            }
            if is_plus {
                other_accounts_allowed = true;
            } else {
                kept.push((k, v));
            }
            taken += 1;
            proof {
                if has_plus_key(orig.take(taken as int)) && !has_plus_key(
                    orig.take(taken - 1),
                ) && !is_plus_key(orig[taken - 1].0) {
                    let i = choose|i: int|
                        0 <= i < taken && is_plus_key((#[trigger] orig.take(taken as int)[i]).0);
                    assert(orig.take(taken - 1)[i] == orig.take(taken as int)[i]);
                }
            }
        }
        proof {
            assert(orig.take(orig.len() as int) =~= orig);
        }
        let accounts = match lower_entries::<CheckAccountRaw, CheckAccount>(kept, context) {
            Result::Ok(v) => v,
            Result::Err(e) => {
                return Result::Err(e.within(PathSeg::field("accounts")));
            },
        };
        Result::Ok(CheckAccounts { other_accounts_allowed, accounts })
    }
}

} // verus!
