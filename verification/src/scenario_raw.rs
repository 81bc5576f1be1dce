//! The raw shape of a scenario and its steps, as the document carries them.
use super::account_raw::{AccountRaw, CheckAccountsRaw};
use super::logs_raw::CheckLogsRaw;
use super::value_raw::ValueSubTree;
use vstd::prelude::*;

verus! {

/// A whole raw scenario: optional name and comment, the gas-check flag, and
/// the ordered steps.
#[derive(Debug)]
pub struct ScenarioRaw {
    pub name: Option<String>,
    pub comment: Option<String>,
    pub check_gas: Option<bool>,
    pub steps: Vec<StepRaw>,
}

/// A contract call payload.
#[derive(Debug)]
pub struct TxCallRaw {
    pub from: ValueSubTree,
    pub to: ValueSubTree,
    pub value: ValueSubTree,
    pub function: String,
    pub arguments: Vec<ValueSubTree>,
    pub gas_limit: ValueSubTree,
    pub gas_price: ValueSubTree,
}

/// A contract deployment payload.
#[derive(Debug)]
pub struct TxDeployRaw {
    pub from: ValueSubTree,
    pub value: ValueSubTree,
    pub contract_code: ValueSubTree,
    pub arguments: Vec<ValueSubTree>,
    pub gas_limit: ValueSubTree,
    pub gas_price: ValueSubTree,
}

/// A plain value transfer payload.
#[derive(Debug)]
pub struct TxTransferRaw {
    pub from: ValueSubTree,
    pub to: ValueSubTree,
    pub value: ValueSubTree,
}

/// A validator reward payload.
#[derive(Debug)]
pub struct TxValidatorRewardRaw {
    pub to: ValueSubTree,
    pub value: ValueSubTree,
}

/// The expected outcome of a transaction.
#[derive(Debug)]
pub struct TxExpectRaw {
    pub out: Vec<ValueSubTree>,
    pub status: ValueSubTree,
    pub logs: CheckLogsRaw,
    pub message: Option<ValueSubTree>,
    pub gas: Option<ValueSubTree>,
    pub refund: Option<ValueSubTree>,
}

/// A pre-announced contract address.
#[derive(Debug)]
pub struct NewAddressRaw {
    pub creator_address: ValueSubTree,
    pub creator_nonce: ValueSubTree,
    pub new_address: ValueSubTree,
}

/// Block metadata for `setState`.
#[derive(Debug)]
pub struct BlockInfoRaw {
    pub block_timestamp: Option<ValueSubTree>,
    pub block_nonce: Option<ValueSubTree>,
    pub block_round: Option<ValueSubTree>,
    pub block_epoch: Option<ValueSubTree>,
}

/// One raw step, tagged by the document's `step` discriminator.
#[derive(Debug)]
pub enum StepRaw {
    ExternalSteps {
        path: String,
    },
    SetState {
        comment: Option<String>,
        accounts: Vec<(String, AccountRaw)>,
        new_addresses: Vec<NewAddressRaw>,
        block_hashes: Vec<ValueSubTree>,
        previous_block_info: Option<BlockInfoRaw>,
        current_block_info: Option<BlockInfoRaw>,
    },
    ScCall {
        tx_id: ValueSubTree,
        comment: Option<ValueSubTree>,
        tx: TxCallRaw,
        expect: Option<TxExpectRaw>,
    },
    ScDeploy {
        tx_id: ValueSubTree,
        comment: Option<ValueSubTree>,
        tx: TxDeployRaw,
        expect: Option<TxExpectRaw>,
    },
    Transfer {
        tx_id: ValueSubTree,
        comment: Option<ValueSubTree>,
        tx: TxTransferRaw,
    },
    ValidatorReward {
        tx_id: ValueSubTree,
        comment: Option<ValueSubTree>,
        tx: TxValidatorRewardRaw,
    },
    CheckState {
        comment: Option<ValueSubTree>,
        accounts: CheckAccountsRaw,
    },
    DumpState {
        comment: Option<ValueSubTree>,
    },
}

} // verus!
