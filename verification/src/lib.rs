//! A scenario loader for a smart-contract test harness.
//!
//! The core of the crate is the value interpreter: a small language embedded
//! in every string of a scenario document, decoding each string to a
//! canonical byte sequence. Around it sit a raw model that mirrors the
//! document and an interpreted model that pairs every raw value with its
//! decoded bytes; a lowering pass connects the two.

mod bigint;
mod context;
mod encoding;
mod errors;
mod account;
mod account_raw;
mod logs;
mod logs_raw;
mod scenario;
mod scenario_raw;
mod value;
mod value_interpreter;
mod value_raw;

pub use context::{CtxView, FileEntry, InterpreterContext, lookup_file};
pub use encoding::{
    be_val, dec_digits, digit_val, digits_val, is_radix_digit, lemma_dec_digits,
    lemma_min_be_ok, lemma_min_be_shortest, lemma_signed_bytes_shortest,
    lemma_signed_round_trip, min_be, neg_bytes, plus_bytes, pow256, radix_ok, radix_val, raw_be,
    signed_bytes, signed_val, strip_plus,
};
pub use errors::{
    ErrorKind, InterpretError, PathSeg, dec_chars, digit_char, path_chars, rev_digit_chars,
    seg_chars,
};
pub use value_interpreter::{
    addr_bytes, clean_seq, find_pipe, has_prefix, interp_atom, interp_entries, interp_list,
    interp_parts, interp_signed, interp_str, interp_subtree, interp_unsigned, is_reserved,
    parse_unsigned_val, split_pipe,
};
pub use account::{
    Account, CheckAccount, CheckAccounts, CheckStorage, has_plus_key, is_plus_key,
    non_plus_entries,
};
pub use account_raw::{AccountRaw, CheckAccountRaw, CheckAccountsRaw, CheckStorageRaw};
pub use logs::{CheckLog, CheckLogs};
pub use logs_raw::{CheckLogRaw, CheckLogsRaw};
pub use scenario::{
    BlockInfo, NewAddress, Scenario, Step, TxCall, TxDeploy, TxExpect, TxTransfer,
    TxValidatorReward,
};
pub use scenario_raw::{
    BlockInfoRaw, NewAddressRaw, ScenarioRaw, StepRaw, TxCallRaw, TxDeployRaw, TxExpectRaw,
    TxTransferRaw, TxValidatorRewardRaw,
};
pub use value::{
    AddressKey, BigUintValue, BytesKey, BytesValue, CheckBigUintValue, CheckBytesValue,
    CheckU64Value, CheckValue, InterpretableFrom, U64Value, check_is_lowered, check_lower_ok,
    entries_is_lowered, entries_lower_err, entries_lower_ok, key_bytes_of,
    lemma_entries_distinct_keys, lemma_lowering_retains_original, lower_check_field,
    lower_entries, lower_opt, lower_vec, opt_is_lowered, opt_lower_ok, vec_is_lowered,
    vec_lower_err, vec_lower_ok,
};
pub use value_interpreter::{
    interpret_string, interpret_subtree, lemma_interp_decimal, lemma_interp_entries_content,
    lemma_interp_signed_value, lemma_subtree_concat_of_leaves,
};
pub use value_raw::{
    ValueSubTree, bytes_lt, entries_key_sorted, lemma_key_sorted_entries_unique,
};
