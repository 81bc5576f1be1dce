//! Log assertions in interpreted form.
use super::context::{CtxView, InterpreterContext};
use super::errors::{ErrorKind, InterpretError, PathSeg};
use super::logs_raw::{CheckLogRaw, CheckLogsRaw};
use super::value::{
    BytesValue, InterpretableFrom, lower_vec, vec_is_lowered, vec_lower_err, vec_lower_ok,
};
use super::value_raw::ValueSubTree;
use vstd::prelude::*;

verus! {

/// One expected log entry, every field interpreted to bytes.
#[derive(Debug)]
pub struct CheckLog {
    pub address: BytesValue,
    pub identifier: BytesValue,
    pub topics: Vec<BytesValue>,
    pub data: BytesValue,
}

impl InterpretableFrom<CheckLogRaw> for CheckLog {
    open spec fn lower_ok(from: CheckLogRaw, ctx: CtxView) -> bool {
        &&& BytesValue::lower_ok(from.address, ctx)
        &&& BytesValue::lower_ok(from.identifier, ctx)
        &&& vec_lower_ok::<ValueSubTree, BytesValue>(from.topics@, ctx)
        &&& BytesValue::lower_ok(from.data, ctx)
    }

    open spec fn lower_err(from: CheckLogRaw, ctx: CtxView) -> ErrorKind {
        if !BytesValue::lower_ok(from.address, ctx) {
            BytesValue::lower_err(from.address, ctx)
        } else if !BytesValue::lower_ok(from.identifier, ctx) {
            BytesValue::lower_err(from.identifier, ctx)
        } else if !vec_lower_ok::<ValueSubTree, BytesValue>(from.topics@, ctx) {
            vec_lower_err::<ValueSubTree, BytesValue>(from.topics@, ctx)
        } else {
            BytesValue::lower_err(from.data, ctx)
        }
    }

    open spec fn is_lowered(&self, from: CheckLogRaw, ctx: CtxView) -> bool {
        &&& self.address.is_lowered(from.address, ctx)
        &&& self.identifier.is_lowered(from.identifier, ctx)
        &&& vec_is_lowered(self.topics@, from.topics@, ctx)
        &&& self.data.is_lowered(from.data, ctx)
    }

    fn interpret_from(from: CheckLogRaw, context: &InterpreterContext) -> (r: Result<
        Self,
        InterpretError,
    >) {
        let CheckLogRaw { address, identifier, topics, data } = from;
        let address = match BytesValue::interpret_from(address, context) {
            Result::Ok(v) => v,
            Result::Err(e) => {
                return Result::Err(e.within(PathSeg::field("address")));
            },
        };
        let identifier = match BytesValue::interpret_from(identifier, context) {
            Result::Ok(v) => v,
            Result::Err(e) => {
                return Result::Err(e.within(PathSeg::field("identifier")));
            },
        };
        let topics = match lower_vec::<ValueSubTree, BytesValue>(topics, context) {
            Result::Ok(v) => v,
            Result::Err(e) => {
                return Result::Err(e.within(PathSeg::field("topics")));
            },
        };
        let data = match BytesValue::interpret_from(data, context) {
            Result::Ok(v) => v,
            Result::Err(e) => {
                return Result::Err(e.within(PathSeg::field("data")));
            },
        };
        Result::Ok(CheckLog { address, identifier, topics, data })
    }
}

/// Either the wildcard, leaving logs unconstrained, or the exact list of
/// expected log entries, in order.
#[derive(Debug)]
pub enum CheckLogs {
    Star,
    List(Vec<CheckLog>),
}

impl CheckLogs {
    /// The whole log list is unconstrained.
    pub fn is_star(&self) -> (r: bool)
        ensures
            r == (self is Star),
    {
        match self {
            CheckLogs::Star => true,
            CheckLogs::List(_) => false,
        }
    }
}

impl InterpretableFrom<CheckLogsRaw> for CheckLogs {
    open spec fn lower_ok(from: CheckLogsRaw, ctx: CtxView) -> bool {
        match from {
            CheckLogsRaw::Star => true,
            CheckLogsRaw::List(l) => vec_lower_ok::<CheckLogRaw, CheckLog>(l@, ctx),
        }
    }

    open spec fn lower_err(from: CheckLogsRaw, ctx: CtxView) -> ErrorKind {
        match from {
            CheckLogsRaw::Star => ErrorKind::BadLiteral,
            CheckLogsRaw::List(l) => vec_lower_err::<CheckLogRaw, CheckLog>(l@, ctx),
        }
    }

    open spec fn is_lowered(&self, from: CheckLogsRaw, ctx: CtxView) -> bool {
        match from {
            CheckLogsRaw::Star => self is Star,
            CheckLogsRaw::List(l) => self matches CheckLogs::List(vs) && vec_is_lowered(
                vs@,
                l@,
                ctx,
            ),
        }
    }

    fn interpret_from(from: CheckLogsRaw, context: &InterpreterContext) -> (r: Result<
        Self,
        InterpretError,
    >) {
        match from {
            CheckLogsRaw::Star => Result::Ok(CheckLogs::Star),
            CheckLogsRaw::List(l) => match lower_vec::<CheckLogRaw, CheckLog>(l, context) {
                Result::Ok(vs) => Result::Ok(CheckLogs::List(vs)),
                Result::Err(e) => Result::Err(e),
            },
        }
    }
}

} // verus!
