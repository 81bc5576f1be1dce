//! A scenario and its steps in interpreted form.
use super::account::{Account, CheckAccounts};
use super::account_raw::{AccountRaw, CheckAccountsRaw};
use super::context::{CtxView, InterpreterContext};
use super::errors::{ErrorKind, InterpretError, PathSeg};
use super::logs::CheckLogs;
use super::scenario_raw::{
    BlockInfoRaw, NewAddressRaw, ScenarioRaw, StepRaw, TxCallRaw, TxDeployRaw, TxExpectRaw,
    TxTransferRaw, TxValidatorRewardRaw,
};
use super::value::{
    AddressKey, BigUintValue, BytesValue, CheckU64Value, InterpretableFrom, U64Value,
    entries_is_lowered, entries_lower_err, entries_lower_ok, lower_entries, lower_opt, lower_vec,
    opt_is_lowered, opt_lower_ok, vec_is_lowered, vec_lower_err, vec_lower_ok,
};
use super::value_raw::ValueSubTree;
use vstd::prelude::*;

verus! {

/// A pre-announced contract address: deploying from this creator at this
/// nonce yields this address.
#[derive(Debug)]
pub struct NewAddress {
    pub creator_address: BytesValue,
    pub creator_nonce: U64Value,
    pub new_address: BytesValue,
}

impl InterpretableFrom<NewAddressRaw> for NewAddress {
    open spec fn lower_ok(from: NewAddressRaw, ctx: CtxView) -> bool {
        &&& BytesValue::lower_ok(from.creator_address, ctx)
        &&& U64Value::lower_ok(from.creator_nonce, ctx)
        &&& BytesValue::lower_ok(from.new_address, ctx)
    }

    open spec fn lower_err(from: NewAddressRaw, ctx: CtxView) -> ErrorKind {
        if !BytesValue::lower_ok(from.creator_address, ctx) {
            BytesValue::lower_err(from.creator_address, ctx)
        } else if !U64Value::lower_ok(from.creator_nonce, ctx) {
            U64Value::lower_err(from.creator_nonce, ctx)
        } else {
            BytesValue::lower_err(from.new_address, ctx)
        }
    }

    open spec fn is_lowered(&self, from: NewAddressRaw, ctx: CtxView) -> bool {
        &&& self.creator_address.is_lowered(from.creator_address, ctx)
        &&& self.creator_nonce.is_lowered(from.creator_nonce, ctx)
        &&& self.new_address.is_lowered(from.new_address, ctx)
    }

    fn interpret_from(from: NewAddressRaw, context: &InterpreterContext) -> (r: Result<
        Self,
        InterpretError,
    >) {
        let NewAddressRaw { creator_address, creator_nonce, new_address } = from;
        let creator_address = match BytesValue::interpret_from(creator_address, context) {
            Result::Ok(v) => v,
            Result::Err(e) => {
                return Result::Err(e.within(PathSeg::field("creatorAddress")));
            },
        };
        let creator_nonce = match U64Value::interpret_from(creator_nonce, context) {
            Result::Ok(v) => v,
            Result::Err(e) => {
                return Result::Err(e.within(PathSeg::field("creatorNonce")));
            },
        };
        let new_address = match BytesValue::interpret_from(new_address, context) {
            Result::Ok(v) => v,
            Result::Err(e) => {
                return Result::Err(e.within(PathSeg::field("newAddress")));
            },
        };
        Result::Ok(NewAddress { creator_address, creator_nonce, new_address })
    }
}

/// Block metadata for `setState`; absent fields stay absent.
#[derive(Debug)]
pub struct BlockInfo {
    pub block_timestamp: Option<U64Value>,
    pub block_nonce: Option<U64Value>,
    pub block_round: Option<U64Value>,
    pub block_epoch: Option<U64Value>,
}

impl InterpretableFrom<BlockInfoRaw> for BlockInfo {
    open spec fn lower_ok(from: BlockInfoRaw, ctx: CtxView) -> bool {
        &&& opt_lower_ok::<ValueSubTree, U64Value>(from.block_timestamp, ctx)
        &&& opt_lower_ok::<ValueSubTree, U64Value>(from.block_nonce, ctx)
        &&& opt_lower_ok::<ValueSubTree, U64Value>(from.block_round, ctx)
        &&& opt_lower_ok::<ValueSubTree, U64Value>(from.block_epoch, ctx)
    }

    open spec fn lower_err(from: BlockInfoRaw, ctx: CtxView) -> ErrorKind {
        if !opt_lower_ok::<ValueSubTree, U64Value>(from.block_timestamp, ctx) {
            U64Value::lower_err(from.block_timestamp->0, ctx)
        } else if !opt_lower_ok::<ValueSubTree, U64Value>(from.block_nonce, ctx) {
            U64Value::lower_err(from.block_nonce->0, ctx)
        } else if !opt_lower_ok::<ValueSubTree, U64Value>(from.block_round, ctx) {
            U64Value::lower_err(from.block_round->0, ctx)
        } else {
            U64Value::lower_err(from.block_epoch->0, ctx)
        }
    }

    open spec fn is_lowered(&self, from: BlockInfoRaw, ctx: CtxView) -> bool {
        &&& opt_is_lowered(self.block_timestamp, from.block_timestamp, ctx)
        &&& opt_is_lowered(self.block_nonce, from.block_nonce, ctx)
        &&& opt_is_lowered(self.block_round, from.block_round, ctx)
        &&& opt_is_lowered(self.block_epoch, from.block_epoch, ctx)
    }

    fn interpret_from(from: BlockInfoRaw, context: &InterpreterContext) -> (r: Result<
        Self,
        InterpretError,
    >) {
        let BlockInfoRaw { block_timestamp, block_nonce, block_round, block_epoch } = from;
        let block_timestamp = match lower_opt::<ValueSubTree, U64Value>(block_timestamp, context) {
            Result::Ok(v) => v,
            Result::Err(e) => {
                return Result::Err(e.within(PathSeg::field("blockTimestamp")));
            },
        };
        let block_nonce = match lower_opt::<ValueSubTree, U64Value>(block_nonce, context) {
            Result::Ok(v) => v,
            Result::Err(e) => {
                return Result::Err(e.within(PathSeg::field("blockNonce")));
            },
        };
        let block_round = match lower_opt::<ValueSubTree, U64Value>(block_round, context) {
            Result::Ok(v) => v,
            Result::Err(e) => {
                return Result::Err(e.within(PathSeg::field("blockRound")));
            },
        };
        let block_epoch = match lower_opt::<ValueSubTree, U64Value>(block_epoch, context) {
            Result::Ok(v) => v,
            Result::Err(e) => {
                return Result::Err(e.within(PathSeg::field("blockEpoch")));
            },
        };
        Result::Ok(BlockInfo { block_timestamp, block_nonce, block_round, block_epoch })
    }
}

/// A contract call: caller, callee, transferred value, function name and
/// arguments, and the gas terms.
#[derive(Debug)]
pub struct TxCall {
    pub from: BytesValue,
    pub to: BytesValue,
    pub value: BigUintValue,
    pub function: String,
    pub arguments: Vec<BytesValue>,
    pub gas_limit: U64Value,
    pub gas_price: U64Value,
}

impl InterpretableFrom<TxCallRaw> for TxCall {
    open spec fn lower_ok(from: TxCallRaw, ctx: CtxView) -> bool {
        &&& BytesValue::lower_ok(from.from, ctx)
        &&& BytesValue::lower_ok(from.to, ctx)
        &&& BigUintValue::lower_ok(from.value, ctx)
        &&& vec_lower_ok::<ValueSubTree, BytesValue>(from.arguments@, ctx)
        &&& U64Value::lower_ok(from.gas_limit, ctx)
        &&& U64Value::lower_ok(from.gas_price, ctx)
    }

    open spec fn lower_err(from: TxCallRaw, ctx: CtxView) -> ErrorKind {
        if !BytesValue::lower_ok(from.from, ctx) {
            BytesValue::lower_err(from.from, ctx)
        } else if !BytesValue::lower_ok(from.to, ctx) {
            BytesValue::lower_err(from.to, ctx)
        } else if !BigUintValue::lower_ok(from.value, ctx) {
            BigUintValue::lower_err(from.value, ctx)
        } else if !vec_lower_ok::<ValueSubTree, BytesValue>(from.arguments@, ctx) {
            vec_lower_err::<ValueSubTree, BytesValue>(from.arguments@, ctx)
        } else if !U64Value::lower_ok(from.gas_limit, ctx) {
            U64Value::lower_err(from.gas_limit, ctx)
        } else {
            U64Value::lower_err(from.gas_price, ctx)
        }
    }

    open spec fn is_lowered(&self, from: TxCallRaw, ctx: CtxView) -> bool {
        &&& self.from.is_lowered(from.from, ctx)
        &&& self.to.is_lowered(from.to, ctx)
        &&& self.value.is_lowered(from.value, ctx)
        &&& self.function == from.function
        &&& vec_is_lowered(self.arguments@, from.arguments@, ctx)
        &&& self.gas_limit.is_lowered(from.gas_limit, ctx)
        &&& self.gas_price.is_lowered(from.gas_price, ctx)
    }

    fn interpret_from(from: TxCallRaw, context: &InterpreterContext) -> (r: Result<
        Self,
        InterpretError,
    >) {
        let TxCallRaw { from: sender, to, value, function, arguments, gas_limit, gas_price } =
            from;
        let sender = match BytesValue::interpret_from(sender, context) {
            Result::Ok(v) => v,
            Result::Err(e) => {
                return Result::Err(e.within(PathSeg::field("from")));
            },
        };
        let to = match BytesValue::interpret_from(to, context) {
            Result::Ok(v) => v,
            Result::Err(e) => {
                return Result::Err(e.within(PathSeg::field("to")));
            },
        };
        let value = match BigUintValue::interpret_from(value, context) {
            Result::Ok(v) => v,
            Result::Err(e) => {
                return Result::Err(e.within(PathSeg::field("value")));
            },
        };
        let arguments = match lower_vec::<ValueSubTree, BytesValue>(arguments, context) {
            Result::Ok(v) => v,
            Result::Err(e) => {
                return Result::Err(e.within(PathSeg::field("arguments")));
            },
        };
        let gas_limit = match U64Value::interpret_from(gas_limit, context) {
            Result::Ok(v) => v,
            Result::Err(e) => {
                return Result::Err(e.within(PathSeg::field("gasLimit")));
            },
        };
        let gas_price = match U64Value::interpret_from(gas_price, context) {
            Result::Ok(v) => v,
            Result::Err(e) => {
                return Result::Err(e.within(PathSeg::field("gasPrice")));
            },
        };
        Result::Ok(TxCall { from: sender, to, value, function, arguments, gas_limit, gas_price })
    }
}

/// A contract deployment: deployer, transferred value, code, arguments and
/// the gas terms.
#[derive(Debug)]
pub struct TxDeploy {
    pub from: BytesValue,
    pub value: BigUintValue,
    pub contract_code: BytesValue,
    pub arguments: Vec<BytesValue>,
    pub gas_limit: U64Value,
    pub gas_price: U64Value,
}

impl InterpretableFrom<TxDeployRaw> for TxDeploy {
    open spec fn lower_ok(from: TxDeployRaw, ctx: CtxView) -> bool {
        &&& BytesValue::lower_ok(from.from, ctx)
        &&& BigUintValue::lower_ok(from.value, ctx)
        &&& BytesValue::lower_ok(from.contract_code, ctx)
        &&& vec_lower_ok::<ValueSubTree, BytesValue>(from.arguments@, ctx)
        &&& U64Value::lower_ok(from.gas_limit, ctx)
        &&& U64Value::lower_ok(from.gas_price, ctx)
    }

    open spec fn lower_err(from: TxDeployRaw, ctx: CtxView) -> ErrorKind {
        if !BytesValue::lower_ok(from.from, ctx) {
            BytesValue::lower_err(from.from, ctx)
        } else if !BigUintValue::lower_ok(from.value, ctx) {
            BigUintValue::lower_err(from.value, ctx)
        } else if !BytesValue::lower_ok(from.contract_code, ctx) {
            BytesValue::lower_err(from.contract_code, ctx)
        } else if !vec_lower_ok::<ValueSubTree, BytesValue>(from.arguments@, ctx) {
            vec_lower_err::<ValueSubTree, BytesValue>(from.arguments@, ctx)
        } else if !U64Value::lower_ok(from.gas_limit, ctx) {
            U64Value::lower_err(from.gas_limit, ctx)
        } else {
            U64Value::lower_err(from.gas_price, ctx)
        }
    }

    open spec fn is_lowered(&self, from: TxDeployRaw, ctx: CtxView) -> bool {
        &&& self.from.is_lowered(from.from, ctx)
        &&& self.value.is_lowered(from.value, ctx)
        &&& self.contract_code.is_lowered(from.contract_code, ctx)
        &&& vec_is_lowered(self.arguments@, from.arguments@, ctx)
        &&& self.gas_limit.is_lowered(from.gas_limit, ctx)
        &&& self.gas_price.is_lowered(from.gas_price, ctx)
    }

    fn interpret_from(from: TxDeployRaw, context: &InterpreterContext) -> (r: Result<
        Self,
        InterpretError,
    >) {
        let TxDeployRaw { from: sender, value, contract_code, arguments, gas_limit, gas_price } =
            from;
        let sender = match BytesValue::interpret_from(sender, context) {
            Result::Ok(v) => v,
            Result::Err(e) => {
                return Result::Err(e.within(PathSeg::field("from")));
            },
        };
        let value = match BigUintValue::interpret_from(value, context) {
            Result::Ok(v) => v,
            Result::Err(e) => {
                return Result::Err(e.within(PathSeg::field("value")));
            },
        };
        let contract_code = match BytesValue::interpret_from(contract_code, context) {
            Result::Ok(v) => v,
            Result::Err(e) => {
                return Result::Err(e.within(PathSeg::field("contractCode")));
            },
        };
        let arguments = match lower_vec::<ValueSubTree, BytesValue>(arguments, context) {
            Result::Ok(v) => v,
            Result::Err(e) => {
                return Result::Err(e.within(PathSeg::field("arguments")));
            },
        };
        let gas_limit = match U64Value::interpret_from(gas_limit, context) {
            Result::Ok(v) => v,
            Result::Err(e) => {
                return Result::Err(e.within(PathSeg::field("gasLimit")));
            },
        };
        let gas_price = match U64Value::interpret_from(gas_price, context) {
            Result::Ok(v) => v,
            Result::Err(e) => {
                return Result::Err(e.within(PathSeg::field("gasPrice")));
            },
        };
        Result::Ok(
            TxDeploy { from: sender, value, contract_code, arguments, gas_limit, gas_price },
        )
    }
}

/// A plain value transfer.
#[derive(Debug)]
pub struct TxTransfer {
    pub from: BytesValue,
    pub to: BytesValue,
    pub value: BigUintValue,
}

impl InterpretableFrom<TxTransferRaw> for TxTransfer {
    open spec fn lower_ok(from: TxTransferRaw, ctx: CtxView) -> bool {
        &&& BytesValue::lower_ok(from.from, ctx)
        &&& BytesValue::lower_ok(from.to, ctx)
        &&& BigUintValue::lower_ok(from.value, ctx)
    }

    open spec fn lower_err(from: TxTransferRaw, ctx: CtxView) -> ErrorKind {
        if !BytesValue::lower_ok(from.from, ctx) {
            BytesValue::lower_err(from.from, ctx)
        } else if !BytesValue::lower_ok(from.to, ctx) {
            BytesValue::lower_err(from.to, ctx)
        } else {
            BigUintValue::lower_err(from.value, ctx)
        }
    }

    open spec fn is_lowered(&self, from: TxTransferRaw, ctx: CtxView) -> bool {
        &&& self.from.is_lowered(from.from, ctx)
        &&& self.to.is_lowered(from.to, ctx)
        &&& self.value.is_lowered(from.value, ctx)
    }

    fn interpret_from(from: TxTransferRaw, context: &InterpreterContext) -> (r: Result<
        Self,
        InterpretError,
    >) {
        let TxTransferRaw { from: sender, to, value } = from;
        let sender = match BytesValue::interpret_from(sender, context) {
            Result::Ok(v) => v,
            Result::Err(e) => {
                return Result::Err(e.within(PathSeg::field("from")));
            },
        };
        let to = match BytesValue::interpret_from(to, context) {
            Result::Ok(v) => v,
            Result::Err(e) => {
                return Result::Err(e.within(PathSeg::field("to")));
            },
        };
        let value = match BigUintValue::interpret_from(value, context) {
            Result::Ok(v) => v,
            Result::Err(e) => {
                return Result::Err(e.within(PathSeg::field("value")));
            },
        };
        Result::Ok(TxTransfer { from: sender, to, value })
    }
}

/// A validator reward credit.
#[derive(Debug)]
pub struct TxValidatorReward {
    pub to: BytesValue,
    pub value: BigUintValue,
}

impl InterpretableFrom<TxValidatorRewardRaw> for TxValidatorReward {
    open spec fn lower_ok(from: TxValidatorRewardRaw, ctx: CtxView) -> bool {
        &&& BytesValue::lower_ok(from.to, ctx)
        &&& BigUintValue::lower_ok(from.value, ctx)
    }

    open spec fn lower_err(from: TxValidatorRewardRaw, ctx: CtxView) -> ErrorKind {
        if !BytesValue::lower_ok(from.to, ctx) {
            BytesValue::lower_err(from.to, ctx)
        } else {
            BigUintValue::lower_err(from.value, ctx)
        }
    }

    open spec fn is_lowered(&self, from: TxValidatorRewardRaw, ctx: CtxView) -> bool {
        &&& self.to.is_lowered(from.to, ctx)
        &&& self.value.is_lowered(from.value, ctx)
    }

    fn interpret_from(from: TxValidatorRewardRaw, context: &InterpreterContext) -> (r: Result<
        Self,
        InterpretError,
    >) {
        let TxValidatorRewardRaw { to, value } = from;
        let to = match BytesValue::interpret_from(to, context) {
            Result::Ok(v) => v,
            Result::Err(e) => {
                return Result::Err(e.within(PathSeg::field("to")));
            },
        };
        let value = match BigUintValue::interpret_from(value, context) {
            Result::Ok(v) => v,
            Result::Err(e) => {
                return Result::Err(e.within(PathSeg::field("value")));
            },
        };
        Result::Ok(TxValidatorReward { to, value })
    }
}

/// The expected outcome of a transaction: return values, status, logs, and
/// optional message, gas and refund checks.
#[derive(Debug)]
pub struct TxExpect {
    pub out: Vec<BytesValue>,
    pub status: U64Value,
    pub logs: CheckLogs,
    pub message: Option<BytesValue>,
    pub gas: Option<CheckU64Value>,
    pub refund: Option<CheckU64Value>,
}

impl InterpretableFrom<TxExpectRaw> for TxExpect {
    open spec fn lower_ok(from: TxExpectRaw, ctx: CtxView) -> bool {
        &&& vec_lower_ok::<ValueSubTree, BytesValue>(from.out@, ctx)
        &&& U64Value::lower_ok(from.status, ctx)
        &&& CheckLogs::lower_ok(from.logs, ctx)
        &&& opt_lower_ok::<ValueSubTree, BytesValue>(from.message, ctx)
        &&& opt_lower_ok::<ValueSubTree, CheckU64Value>(from.gas, ctx)
        &&& opt_lower_ok::<ValueSubTree, CheckU64Value>(from.refund, ctx)
    }

    open spec fn lower_err(from: TxExpectRaw, ctx: CtxView) -> ErrorKind {
        if !vec_lower_ok::<ValueSubTree, BytesValue>(from.out@, ctx) {
            vec_lower_err::<ValueSubTree, BytesValue>(from.out@, ctx)
        } else if !U64Value::lower_ok(from.status, ctx) {
            U64Value::lower_err(from.status, ctx)
        } else if !CheckLogs::lower_ok(from.logs, ctx) {
            CheckLogs::lower_err(from.logs, ctx)
        } else if !opt_lower_ok::<ValueSubTree, BytesValue>(from.message, ctx) {
            BytesValue::lower_err(from.message->0, ctx)
        } else if !opt_lower_ok::<ValueSubTree, CheckU64Value>(from.gas, ctx) {
            CheckU64Value::lower_err(from.gas->0, ctx)
        } else {
            CheckU64Value::lower_err(from.refund->0, ctx)
        }
    }

    open spec fn is_lowered(&self, from: TxExpectRaw, ctx: CtxView) -> bool {
        &&& vec_is_lowered(self.out@, from.out@, ctx)
        &&& self.status.is_lowered(from.status, ctx)
        &&& self.logs.is_lowered(from.logs, ctx)
        &&& opt_is_lowered(self.message, from.message, ctx)
        &&& opt_is_lowered(self.gas, from.gas, ctx)
        &&& opt_is_lowered(self.refund, from.refund, ctx)
    }

    fn interpret_from(from: TxExpectRaw, context: &InterpreterContext) -> (r: Result<
        Self,
        InterpretError,
    >) {
        let TxExpectRaw { out, status, logs, message, gas, refund } = from;
        let out = match lower_vec::<ValueSubTree, BytesValue>(out, context) {
            Result::Ok(v) => v,
            Result::Err(e) => {
                return Result::Err(e.within(PathSeg::field("out")));
            },
        };
        let status = match U64Value::interpret_from(status, context) {
            Result::Ok(v) => v,
            Result::Err(e) => {
                return Result::Err(e.within(PathSeg::field("status")));
            },
        };
        let logs = match CheckLogs::interpret_from(logs, context) {
            Result::Ok(v) => v,
            Result::Err(e) => {
                return Result::Err(e.within(PathSeg::field("logs")));
            },
        };
        let message = match lower_opt::<ValueSubTree, BytesValue>(message, context) {
            Result::Ok(v) => v,
            Result::Err(e) => {
                return Result::Err(e.within(PathSeg::field("message")));
            },
        };
        let gas = match lower_opt::<ValueSubTree, CheckU64Value>(gas, context) {
            Result::Ok(v) => v,
            Result::Err(e) => {
                return Result::Err(e.within(PathSeg::field("gas")));
            },
        };
        let refund = match lower_opt::<ValueSubTree, CheckU64Value>(refund, context) {
            Result::Ok(v) => v,
            Result::Err(e) => {
                return Result::Err(e.within(PathSeg::field("refund")));
            },
        };
        Result::Ok(TxExpect { out, status, logs, message, gas, refund })
    }
}

/// One interpreted step of a scenario.
#[derive(Debug)]
pub enum Step {
    ExternalSteps {
        path: String,
    },
    SetState {
        comment: Option<String>,
        accounts: Vec<(AddressKey, Account)>,
        new_addresses: Vec<NewAddress>,
        block_hashes: Vec<BytesValue>,
        previous_block_info: Option<BlockInfo>,
        current_block_info: Option<BlockInfo>,
    },
    ScCall {
        tx_id: BytesValue,
        comment: Option<BytesValue>,
        tx: TxCall,
        expect: Option<TxExpect>,
    },
    ScDeploy {
        tx_id: BytesValue,
        comment: Option<BytesValue>,
        tx: TxDeploy,
        expect: Option<TxExpect>,
    },
    Transfer {
        tx_id: BytesValue,
        comment: Option<BytesValue>,
        tx: TxTransfer,
    },
    ValidatorReward {
        tx_id: BytesValue,
        comment: Option<BytesValue>,
        tx: TxValidatorReward,
    },
    CheckState {
        comment: Option<BytesValue>,
        accounts: CheckAccounts,
    },
    DumpState {
        comment: Option<BytesValue>,
    },
}

impl InterpretableFrom<StepRaw> for Step {
    open spec fn lower_ok(from: StepRaw, ctx: CtxView) -> bool {
        match from {
            StepRaw::ExternalSteps { path } => true,
            StepRaw::SetState {
                comment,
                accounts,
                new_addresses,
                block_hashes,
                previous_block_info,
                current_block_info,
            } => {
                &&& entries_lower_ok::<AccountRaw, Account>(accounts@, Seq::empty(), ctx)
                &&& vec_lower_ok::<NewAddressRaw, NewAddress>(new_addresses@, ctx)
                &&& vec_lower_ok::<ValueSubTree, BytesValue>(block_hashes@, ctx)
                &&& opt_lower_ok::<BlockInfoRaw, BlockInfo>(previous_block_info, ctx)
                &&& opt_lower_ok::<BlockInfoRaw, BlockInfo>(current_block_info, ctx)
            },
            StepRaw::ScCall { tx_id, comment, tx, expect } => {
                &&& BytesValue::lower_ok(tx_id, ctx)
                &&& opt_lower_ok::<ValueSubTree, BytesValue>(comment, ctx)
                &&& TxCall::lower_ok(tx, ctx)
                &&& opt_lower_ok::<TxExpectRaw, TxExpect>(expect, ctx)
            },
            StepRaw::ScDeploy { tx_id, comment, tx, expect } => {
                &&& BytesValue::lower_ok(tx_id, ctx)
                &&& opt_lower_ok::<ValueSubTree, BytesValue>(comment, ctx)
                &&& TxDeploy::lower_ok(tx, ctx)
                &&& opt_lower_ok::<TxExpectRaw, TxExpect>(expect, ctx)
            },
            StepRaw::Transfer { tx_id, comment, tx } => {
                &&& BytesValue::lower_ok(tx_id, ctx)
                &&& opt_lower_ok::<ValueSubTree, BytesValue>(comment, ctx)
                &&& TxTransfer::lower_ok(tx, ctx)
            },
            StepRaw::ValidatorReward { tx_id, comment, tx } => {
                &&& BytesValue::lower_ok(tx_id, ctx)
                &&& opt_lower_ok::<ValueSubTree, BytesValue>(comment, ctx)
                &&& TxValidatorReward::lower_ok(tx, ctx)
            },
            StepRaw::CheckState { comment, accounts } => {
                &&& opt_lower_ok::<ValueSubTree, BytesValue>(comment, ctx)
                &&& CheckAccounts::lower_ok(accounts, ctx)
            },
            StepRaw::DumpState { comment } => opt_lower_ok::<ValueSubTree, BytesValue>(
                comment,
                ctx,
            ),
        }
    }

    open spec fn lower_err(from: StepRaw, ctx: CtxView) -> ErrorKind {
        match from {
            StepRaw::ExternalSteps { path } => ErrorKind::BadLiteral,
            StepRaw::SetState {
                comment,
                accounts,
                new_addresses,
                block_hashes,
                previous_block_info,
                current_block_info,
            } => {
                if !entries_lower_ok::<AccountRaw, Account>(accounts@, Seq::empty(), ctx) {
                    entries_lower_err::<AccountRaw, Account>(accounts@, Seq::empty(), ctx)
                } else if !vec_lower_ok::<NewAddressRaw, NewAddress>(new_addresses@, ctx) {
                    vec_lower_err::<NewAddressRaw, NewAddress>(new_addresses@, ctx)
                } else if !vec_lower_ok::<ValueSubTree, BytesValue>(block_hashes@, ctx) {
                    vec_lower_err::<ValueSubTree, BytesValue>(block_hashes@, ctx)
                } else if !opt_lower_ok::<BlockInfoRaw, BlockInfo>(previous_block_info, ctx) {
                    BlockInfo::lower_err(previous_block_info->0, ctx)
                } else {
                    BlockInfo::lower_err(current_block_info->0, ctx)
                }
            },
            StepRaw::ScCall { tx_id, comment, tx, expect } => {
                if !BytesValue::lower_ok(tx_id, ctx) {
                    BytesValue::lower_err(tx_id, ctx)
                } else if !opt_lower_ok::<ValueSubTree, BytesValue>(comment, ctx) {
                    BytesValue::lower_err(comment->0, ctx)
                } else if !TxCall::lower_ok(tx, ctx) {
                    TxCall::lower_err(tx, ctx)
                } else {
                    TxExpect::lower_err(expect->0, ctx)
                }
            },
            StepRaw::ScDeploy { tx_id, comment, tx, expect } => {
                if !BytesValue::lower_ok(tx_id, ctx) {
                    BytesValue::lower_err(tx_id, ctx)
                } else if !opt_lower_ok::<ValueSubTree, BytesValue>(comment, ctx) {
                    BytesValue::lower_err(comment->0, ctx)
                } else if !TxDeploy::lower_ok(tx, ctx) {
                    TxDeploy::lower_err(tx, ctx)
                } else {
                    TxExpect::lower_err(expect->0, ctx)
                }
            },
            StepRaw::Transfer { tx_id, comment, tx } => {
                if !BytesValue::lower_ok(tx_id, ctx) {
                    BytesValue::lower_err(tx_id, ctx)
                } else if !opt_lower_ok::<ValueSubTree, BytesValue>(comment, ctx) {
                    BytesValue::lower_err(comment->0, ctx)
                } else {
                    TxTransfer::lower_err(tx, ctx)
                }
            },
            StepRaw::ValidatorReward { tx_id, comment, tx } => {
                if !BytesValue::lower_ok(tx_id, ctx) {
                    BytesValue::lower_err(tx_id, ctx)
                } else if !opt_lower_ok::<ValueSubTree, BytesValue>(comment, ctx) {
                    BytesValue::lower_err(comment->0, ctx)
                } else {
                    TxValidatorReward::lower_err(tx, ctx)
                }
            },
            StepRaw::CheckState { comment, accounts } => {
                if !opt_lower_ok::<ValueSubTree, BytesValue>(comment, ctx) {
                    BytesValue::lower_err(comment->0, ctx)
                } else {
                    CheckAccounts::lower_err(accounts, ctx)
                }
            },
            StepRaw::DumpState { comment } => BytesValue::lower_err(comment->0, ctx),
        }
    }

    open spec fn is_lowered(&self, from: StepRaw, ctx: CtxView) -> bool {
        match from {
            StepRaw::ExternalSteps { path } => self matches Step::ExternalSteps { path: p } && *p
                == path,
            StepRaw::SetState {
                comment,
                accounts,
                new_addresses,
                block_hashes,
                previous_block_info,
                current_block_info,
            } => {
                &&& self matches Step::SetState {
                    comment: c,
                    accounts: a,
                    new_addresses: n,
                    block_hashes: b,
                    previous_block_info: p,
                    current_block_info: q,
                }
                &&& *c == comment
                &&& entries_is_lowered(a@, accounts@, ctx)
                &&& vec_is_lowered(n@, new_addresses@, ctx)
                &&& vec_is_lowered(b@, block_hashes@, ctx)
                &&& opt_is_lowered(*p, previous_block_info, ctx)
                &&& opt_is_lowered(*q, current_block_info, ctx)
            },
            StepRaw::ScCall { tx_id, comment, tx, expect } => {
                &&& self matches Step::ScCall { tx_id: t, comment: c, tx: x, expect: e }
                &&& t.is_lowered(tx_id, ctx)
                &&& opt_is_lowered(*c, comment, ctx)
                &&& x.is_lowered(tx, ctx)
                &&& opt_is_lowered(*e, expect, ctx)
            },
            StepRaw::ScDeploy { tx_id, comment, tx, expect } => {
                &&& self matches Step::ScDeploy { tx_id: t, comment: c, tx: x, expect: e }
                &&& t.is_lowered(tx_id, ctx)
                &&& opt_is_lowered(*c, comment, ctx)
                &&& x.is_lowered(tx, ctx)
                &&& opt_is_lowered(*e, expect, ctx)
            },
            StepRaw::Transfer { tx_id, comment, tx } => {
                &&& self matches Step::Transfer { tx_id: t, comment: c, tx: x }
                &&& t.is_lowered(tx_id, ctx)
                &&& opt_is_lowered(*c, comment, ctx)
                &&& x.is_lowered(tx, ctx)
            },
            StepRaw::ValidatorReward { tx_id, comment, tx } => {
                &&& self matches Step::ValidatorReward { tx_id: t, comment: c, tx: x }
                &&& t.is_lowered(tx_id, ctx)
                &&& opt_is_lowered(*c, comment, ctx)
                &&& x.is_lowered(tx, ctx)
            },
            StepRaw::CheckState { comment, accounts } => {
                &&& self matches Step::CheckState { comment: c, accounts: a }
                &&& opt_is_lowered(*c, comment, ctx)
                &&& a.is_lowered(accounts, ctx)
            },
            StepRaw::DumpState { comment } => {
                &&& self matches Step::DumpState { comment: c }
                &&& opt_is_lowered(*c, comment, ctx)
            },
        }
    }

    /// The raw variant tag carries over; each payload field is lowered by
    /// its declared type, in field order.
    fn interpret_from(from: StepRaw, context: &InterpreterContext) -> (r: Result<
        Self,
        InterpretError,
    >) {
        match from {
            StepRaw::ExternalSteps { path } => Result::Ok(Step::ExternalSteps { path }),
            StepRaw::SetState {
                comment,
                accounts,
                new_addresses,
                block_hashes,
                previous_block_info,
                current_block_info,
            } => lower_set_state(
                comment,
                accounts,
                new_addresses,
                block_hashes,
                previous_block_info,
                current_block_info,
                context,
            ),
            StepRaw::ScCall { tx_id, comment, tx, expect } => lower_sc_call(
                tx_id,
                comment,
                tx,
                expect,
                context,
            ),
            StepRaw::ScDeploy { tx_id, comment, tx, expect } => lower_sc_deploy(
                tx_id,
                comment,
                tx,
                expect,
                context,
            ),
            StepRaw::Transfer { tx_id, comment, tx } => lower_transfer(tx_id, comment, tx, context),
            StepRaw::ValidatorReward { tx_id, comment, tx } => lower_validator_reward(
                tx_id,
                comment,
                tx,
                context,
            ),
            StepRaw::CheckState { comment, accounts } => lower_check_state(
                comment,
                accounts,
                context,
            ),
            StepRaw::DumpState { comment } => lower_dump_state(comment, context),
        }
    }
}

fn lower_set_state(
    comment: Option<String>,
    accounts: Vec<(String, AccountRaw)>,
    new_addresses: Vec<NewAddressRaw>,
    block_hashes: Vec<ValueSubTree>,
    previous_block_info: Option<BlockInfoRaw>,
    current_block_info: Option<BlockInfoRaw>,
    context: &InterpreterContext,
) -> (r: Result<Step, InterpretError>)
    ensures
        ({
            let raw = StepRaw::SetState {
                comment,
                accounts,
                new_addresses,
                block_hashes,
                previous_block_info,
                current_block_info,
            };
            &&& (r is Ok <==> Step::lower_ok(raw, context@))
            &&& (r is Ok ==> r->Ok_0.is_lowered(raw, context@))
            &&& (r is Err ==> r->Err_0.kind == Step::lower_err(raw, context@))
        }),
{
    let accounts = match lower_entries::<AccountRaw, Account>(accounts, context) {
        Result::Ok(v) => v,
        Result::Err(e) => {
            return Result::Err(e.within(PathSeg::field("accounts")));
        },
    };
    let new_addresses = match lower_vec::<NewAddressRaw, NewAddress>(new_addresses, context) {
        Result::Ok(v) => v,
        Result::Err(e) => {
            return Result::Err(e.within(PathSeg::field("newAddresses")));
        },
    };
    let block_hashes = match lower_vec::<ValueSubTree, BytesValue>(block_hashes, context) {
        Result::Ok(v) => v,
        Result::Err(e) => {
            return Result::Err(e.within(PathSeg::field("blockHashes")));
        },
    };
    let previous_block_info = match lower_opt::<BlockInfoRaw, BlockInfo>(
        previous_block_info,
        context,
    ) {
        Result::Ok(v) => v,
        Result::Err(e) => {
            return Result::Err(e.within(PathSeg::field("previousBlockInfo")));
        },
    };
    let current_block_info = match lower_opt::<BlockInfoRaw, BlockInfo>(
        current_block_info,
        context,
    ) {
        Result::Ok(v) => v,
        Result::Err(e) => {
            return Result::Err(e.within(PathSeg::field("currentBlockInfo")));
        },
    };
    Result::Ok(
        Step::SetState {
            comment,
            accounts,
            new_addresses,
            block_hashes,
            previous_block_info,
            current_block_info,
        },
    )
}

fn lower_sc_call(
    tx_id: ValueSubTree,
    comment: Option<ValueSubTree>,
    tx: TxCallRaw,
    expect: Option<TxExpectRaw>,
    context: &InterpreterContext,
) -> (r: Result<Step, InterpretError>)
    ensures
        ({
            let raw = StepRaw::ScCall { tx_id, comment, tx, expect };
            &&& (r is Ok <==> Step::lower_ok(raw, context@))
            &&& (r is Ok ==> r->Ok_0.is_lowered(raw, context@))
            &&& (r is Err ==> r->Err_0.kind == Step::lower_err(raw, context@))
        }),
{
    let tx_id = match BytesValue::interpret_from(tx_id, context) {
        Result::Ok(v) => v,
        Result::Err(e) => {
            return Result::Err(e.within(PathSeg::field("txId")));
        },
    };
    let comment = match lower_opt::<ValueSubTree, BytesValue>(comment, context) {
        Result::Ok(v) => v,
        Result::Err(e) => {
            return Result::Err(e.within(PathSeg::field("comment")));
        },
    };
    let tx = match TxCall::interpret_from(tx, context) {
        Result::Ok(v) => v,
        Result::Err(e) => {
            return Result::Err(e.within(PathSeg::field("tx")));
        },
    };
    let expect = match lower_opt::<TxExpectRaw, TxExpect>(expect, context) {
        Result::Ok(v) => v,
        Result::Err(e) => {
            return Result::Err(e.within(PathSeg::field("expect")));
        },
    };
    Result::Ok(Step::ScCall { tx_id, comment, tx, expect })
}

fn lower_sc_deploy(
    tx_id: ValueSubTree,
    comment: Option<ValueSubTree>,
    tx: TxDeployRaw,
    expect: Option<TxExpectRaw>,
    context: &InterpreterContext,
) -> (r: Result<Step, InterpretError>)
    ensures
        ({
            let raw = StepRaw::ScDeploy { tx_id, comment, tx, expect };
            &&& (r is Ok <==> Step::lower_ok(raw, context@))
            &&& (r is Ok ==> r->Ok_0.is_lowered(raw, context@))
            &&& (r is Err ==> r->Err_0.kind == Step::lower_err(raw, context@))
        }),
{
    let tx_id = match BytesValue::interpret_from(tx_id, context) {
        Result::Ok(v) => v,
        Result::Err(e) => {
            return Result::Err(e.within(PathSeg::field("txId")));
        },
    };
    let comment = match lower_opt::<ValueSubTree, BytesValue>(comment, context) {
        Result::Ok(v) => v,
        Result::Err(e) => {
            return Result::Err(e.within(PathSeg::field("comment")));
        },
    };
    let tx = match TxDeploy::interpret_from(tx, context) {
        Result::Ok(v) => v,
        Result::Err(e) => {
            return Result::Err(e.within(PathSeg::field("tx")));
        },
    };
    let expect = match lower_opt::<TxExpectRaw, TxExpect>(expect, context) {
        Result::Ok(v) => v,
        Result::Err(e) => {
            return Result::Err(e.within(PathSeg::field("expect")));
        },
    };
    Result::Ok(Step::ScDeploy { tx_id, comment, tx, expect })
}

fn lower_transfer(
    tx_id: ValueSubTree,
    comment: Option<ValueSubTree>,
    tx: TxTransferRaw,
    context: &InterpreterContext,
) -> (r: Result<Step, InterpretError>)
    ensures
        ({
            let raw = StepRaw::Transfer { tx_id, comment, tx };
            &&& (r is Ok <==> Step::lower_ok(raw, context@))
            &&& (r is Ok ==> r->Ok_0.is_lowered(raw, context@))
            &&& (r is Err ==> r->Err_0.kind == Step::lower_err(raw, context@))
        }),
{
    let tx_id = match BytesValue::interpret_from(tx_id, context) {
        Result::Ok(v) => v,
        Result::Err(e) => {
            return Result::Err(e.within(PathSeg::field("txId")));
        },
    };
    let comment = match lower_opt::<ValueSubTree, BytesValue>(comment, context) {
        Result::Ok(v) => v,
        Result::Err(e) => {
            return Result::Err(e.within(PathSeg::field("comment")));
        },
    };
    let tx = match TxTransfer::interpret_from(tx, context) {
        Result::Ok(v) => v,
        Result::Err(e) => {
            return Result::Err(e.within(PathSeg::field("tx")));
        },
    };
    Result::Ok(Step::Transfer { tx_id, comment, tx })
}

fn lower_validator_reward(
    tx_id: ValueSubTree,
    comment: Option<ValueSubTree>,
    tx: TxValidatorRewardRaw,
    context: &InterpreterContext,
) -> (r: Result<Step, InterpretError>)
    ensures
        ({
            let raw = StepRaw::ValidatorReward { tx_id, comment, tx };
            &&& (r is Ok <==> Step::lower_ok(raw, context@))
            &&& (r is Ok ==> r->Ok_0.is_lowered(raw, context@))
            &&& (r is Err ==> r->Err_0.kind == Step::lower_err(raw, context@))
        }),
{
    let tx_id = match BytesValue::interpret_from(tx_id, context) {
        Result::Ok(v) => v,
        Result::Err(e) => {
            return Result::Err(e.within(PathSeg::field("txId")));
        },
    };
    let comment = match lower_opt::<ValueSubTree, BytesValue>(comment, context) {
        Result::Ok(v) => v,
        Result::Err(e) => {
            return Result::Err(e.within(PathSeg::field("comment")));
        },
    };
    let tx = match TxValidatorReward::interpret_from(tx, context) {
        Result::Ok(v) => v,
        Result::Err(e) => {
            return Result::Err(e.within(PathSeg::field("tx")));
        },
    };
    Result::Ok(Step::ValidatorReward { tx_id, comment, tx })
}

fn lower_check_state(
    comment: Option<ValueSubTree>,
    accounts: CheckAccountsRaw,
    context: &InterpreterContext,
) -> (r: Result<Step, InterpretError>)
    ensures
        ({
            let raw = StepRaw::CheckState { comment, accounts };
            &&& (r is Ok <==> Step::lower_ok(raw, context@))
            &&& (r is Ok ==> r->Ok_0.is_lowered(raw, context@))
            &&& (r is Err ==> r->Err_0.kind == Step::lower_err(raw, context@))
        }),
{
    let comment = match lower_opt::<ValueSubTree, BytesValue>(comment, context) {
        Result::Ok(v) => v,
        Result::Err(e) => {
            return Result::Err(e.within(PathSeg::field("comment")));
        },
    };
    let accounts = match CheckAccounts::interpret_from(accounts, context) {
        Result::Ok(v) => v,
        Result::Err(e) => {
            return Result::Err(e.within(PathSeg::field("accounts")));
        },
    };
    Result::Ok(Step::CheckState { comment, accounts })
}

fn lower_dump_state(comment: Option<ValueSubTree>, context: &InterpreterContext) -> (r: Result<
    Step,
    InterpretError,
>)
    ensures
        ({
            let raw = StepRaw::DumpState { comment };
            &&& (r is Ok <==> Step::lower_ok(raw, context@))
            &&& (r is Ok ==> r->Ok_0.is_lowered(raw, context@))
            &&& (r is Err ==> r->Err_0.kind == Step::lower_err(raw, context@))
        }),
{
    let comment = match lower_opt::<ValueSubTree, BytesValue>(comment, context) {
        Result::Ok(v) => v,
        Result::Err(e) => {
            return Result::Err(e.within(PathSeg::field("comment")));
        },
    };
    Result::Ok(Step::DumpState { comment })
}

/// A whole interpreted scenario: name, comment and the gas-check flag kept
/// verbatim, and every step lowered in order.
#[derive(Debug)]
pub struct Scenario {
    pub name: Option<String>,
    pub comment: Option<String>,
    pub check_gas: Option<bool>,
    pub steps: Vec<Step>,
}

impl InterpretableFrom<ScenarioRaw> for Scenario {
    open spec fn lower_ok(from: ScenarioRaw, ctx: CtxView) -> bool {
        vec_lower_ok::<StepRaw, Step>(from.steps@, ctx)
    }

    open spec fn lower_err(from: ScenarioRaw, ctx: CtxView) -> ErrorKind {
        vec_lower_err::<StepRaw, Step>(from.steps@, ctx)
    }

    open spec fn is_lowered(&self, from: ScenarioRaw, ctx: CtxView) -> bool {
        &&& self.name == from.name
        &&& self.comment == from.comment
        &&& self.check_gas == from.check_gas
        &&& vec_is_lowered(self.steps@, from.steps@, ctx)
    }

    fn interpret_from(from: ScenarioRaw, context: &InterpreterContext) -> (r: Result<
        Self,
        InterpretError,
    >) {
        let ScenarioRaw { name, comment, check_gas, steps } = from;
        let steps = match lower_vec::<StepRaw, Step>(steps, context) {
            Result::Ok(v) => v,
            Result::Err(e) => {
                return Result::Err(e.within(PathSeg::field("steps")));
            },
        };
        Result::Ok(Scenario { name, comment, check_gas, steps })
    }
}

} // verus!
