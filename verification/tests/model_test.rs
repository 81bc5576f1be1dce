use mandos_rs::{
    interpret_subtree, Account, AccountRaw, BigUintValue, BytesValue, CheckAccountRaw,
    CheckAccounts, CheckAccountsRaw, CheckLogRaw, CheckLogs, CheckLogsRaw, CheckStorageRaw,
    CheckValue, ErrorKind, InterpretableFrom, InterpreterContext, Scenario, ScenarioRaw, Step,
    StepRaw, TxCallRaw, TxExpectRaw, U64Value, ValueSubTree,
};

fn s(text: &str) -> ValueSubTree {
    ValueSubTree::Str(String::from(text))
}

fn empty_check_account() -> CheckAccountRaw {
    CheckAccountRaw {
        comment: None,
        nonce: None,
        balance: None,
        storage: CheckStorageRaw::Star,
        code: None,
        async_call_data: None,
    }
}

#[test]
fn bytes_value_keeps_original_and_bytes() {
    let context = &InterpreterContext::default();
    let v = BytesValue::interpret_from(s("0x1234"), context).unwrap();
    assert_eq!(vec![0x12, 0x34], v.value);
    match v.original {
        ValueSubTree::Str(orig) => assert_eq!("0x1234", orig),
        _ => panic!("original must stay a string"),
    }
}

#[test]
fn subtree_list_and_map_concatenate() {
    let context = &InterpreterContext::default();
    let list = ValueSubTree::List(vec![s("str:foo"), s("0x01"), s("")]);
    assert_eq!(vec![0x66, 0x6f, 0x6f, 0x01], interpret_subtree(&list, context).unwrap());

    let map = ValueSubTree::Object(vec![
        (String::from("a"), s("1")),
        (String::from("b"), ValueSubTree::List(vec![s("2"), s("3")])),
    ]);
    assert_eq!(vec![0x01, 0x02, 0x03], interpret_subtree(&map, context).unwrap());
}

#[test]
fn subtree_reports_failing_leaf() {
    let context = &InterpreterContext::default();
    let list = ValueSubTree::List(vec![s("1"), s("zz")]);
    assert_eq!(ErrorKind::BadLiteral, interpret_subtree(&list, context).unwrap_err().kind);
}

#[test]
fn biguint_value_magnitude_bytes() {
    let context = &InterpreterContext::default();
    let v = BigUintValue::interpret_from(s("256"), context).unwrap();
    assert_eq!(vec![0x01, 0x00], v.value);
    let z = BigUintValue::interpret_from(s("0"), context).unwrap();
    assert_eq!(Vec::<u8>::new(), z.value);
}

#[test]
fn u64_value_decodes_and_overflows() {
    let context = &InterpreterContext::default();
    let v = U64Value::interpret_from(s("0x1234"), context).unwrap();
    assert_eq!(0x1234, v.value);
    let max = U64Value::interpret_from(s("0xffffffffffffffff"), context).unwrap();
    assert_eq!(u64::MAX, max.value);
    let over = U64Value::interpret_from(s("0x010000000000000000"), context).unwrap_err();
    assert_eq!(ErrorKind::NumericOverflow, over.kind);
}

#[test]
fn check_value_three_ways() {
    let context = &InterpreterContext::default();
    let d = CheckValue::<BytesValue>::interpret_from(s(""), context).unwrap();
    assert!(d.is_default_star());
    let star = CheckValue::<BytesValue>::interpret_from(s("*"), context).unwrap();
    assert!(star.is_star());
    assert!(!star.is_default_star());
    let eq = CheckValue::<BytesValue>::interpret_from(s("0x05"), context).unwrap();
    match &eq {
        CheckValue::Equal(v) => assert_eq!(vec![0x05], v.value),
        _ => panic!("a concrete value must lower to an equality check"),
    }
}

#[test]
fn wildcards_match_like_stars() {
    let d: CheckValue<BytesValue> = CheckValue::DefaultStar;
    let star: CheckValue<BytesValue> = CheckValue::Star;
    let context = &InterpreterContext::default();
    let eq = CheckValue::<BytesValue>::interpret_from(s("1"), context).unwrap();
    assert!(d.is_star());
    assert!(star.is_star());
    assert!(!eq.is_star());
    let def: CheckValue<BytesValue> = Default::default();
    assert!(def.is_default_star());
}

#[test]
fn account_lowers_field_by_field() {
    let context = &InterpreterContext::default();
    let raw = AccountRaw {
        comment: None,
        nonce: s("5"),
        balance: s("0x10"),
        storage: vec![(String::from("0x01"), s("str:hi"))],
        code: None,
    };
    let account = Account::interpret_from(raw, context).unwrap();
    assert_eq!(5, account.nonce.value);
    assert_eq!(vec![0x10], account.balance.value);
    assert_eq!(1, account.storage.len());
    assert_eq!(vec![0x01], account.storage[0].0.value);
    assert_eq!(vec![0x68, 0x69], account.storage[0].1.value);
}

#[test]
fn set_state_step_lowers_accounts() {
    let context = &InterpreterContext::default();
    let raw = StepRaw::SetState {
        comment: None,
        accounts: vec![(
            String::from("address:acc1"),
            AccountRaw {
                comment: None,
                nonce: s("5"),
                balance: s("0x10"),
                storage: vec![(String::from("0x01"), s("str:hi"))],
                code: None,
            },
        )],
        new_addresses: vec![],
        block_hashes: vec![s("0xabcdef")],
        previous_block_info: None,
        current_block_info: None,
    };
    match Step::interpret_from(raw, context).unwrap() {
        Step::SetState { accounts, block_hashes, .. } => {
            assert_eq!(1, accounts.len());
            assert_eq!(32, accounts[0].0.value.len());
            assert_eq!(b"acc1"[..], accounts[0].0.value[..4]);
            assert_eq!(5, accounts[0].1.nonce.value);
            assert_eq!(vec![0xab, 0xcd, 0xef], block_hashes[0].value);
        },
        _ => panic!("the variant tag must carry over"),
    }
}

#[test]
fn duplicate_addresses_are_rejected() {
    let context = &InterpreterContext::default();
    let account = AccountRaw {
        comment: None,
        nonce: s("0"),
        balance: s("0"),
        storage: vec![],
        code: None,
    };
    let other = AccountRaw {
        comment: None,
        nonce: s("1"),
        balance: s("0"),
        storage: vec![],
        code: None,
    };
    // Two distinct raw keys, one canonical value: "0x01" and "1" both
    // interpret to the single byte 0x01.
    let raw = StepRaw::SetState {
        comment: None,
        accounts: vec![(String::from("0x01"), account), (String::from("1"), other)],
        new_addresses: vec![],
        block_hashes: vec![],
        previous_block_info: None,
        current_block_info: None,
    };
    let e = Step::interpret_from(raw, context).unwrap_err();
    assert_eq!(ErrorKind::DuplicateEntry, e.kind);
}

#[test]
fn duplicate_storage_keys_are_rejected() {
    let context = &InterpreterContext::default();
    let raw = AccountRaw {
        comment: None,
        nonce: s("0"),
        balance: s("0"),
        storage: vec![
            (String::from("0x01"), s("1")),
            (String::from("1"), s("2")),
        ],
        code: None,
    };
    let e = Account::interpret_from(raw, context).unwrap_err();
    assert_eq!(ErrorKind::DuplicateEntry, e.kind);
}

#[test]
fn plus_key_permits_other_accounts() {
    let context = &InterpreterContext::default();
    let raw = CheckAccountsRaw {
        accounts: vec![
            (String::from("+"), empty_check_account()),
            (String::from("address:acc1"), empty_check_account()),
        ],
    };
    let checks = CheckAccounts::interpret_from(raw, context).unwrap();
    assert!(checks.other_accounts_allowed);
    assert_eq!(1, checks.accounts.len());
    assert!(checks.accounts[0].1.nonce.is_default_star());
    assert!(checks.accounts[0].1.storage.is_star());

    let without = CheckAccountsRaw {
        accounts: vec![(String::from("address:acc1"), empty_check_account())],
    };
    let checks = CheckAccounts::interpret_from(without, context).unwrap();
    assert!(!checks.other_accounts_allowed);
}

#[test]
fn scenario_lowers_steps_in_order() {
    let context = &InterpreterContext::default();
    let raw = ScenarioRaw {
        name: Some(String::from("sample")),
        comment: None,
        check_gas: Some(false),
        steps: vec![
            StepRaw::ExternalSteps { path: String::from("other.scen.json") },
            StepRaw::DumpState { comment: None },
        ],
    };
    let scenario = Scenario::interpret_from(raw, context).unwrap();
    assert_eq!(Some(String::from("sample")), scenario.name);
    assert_eq!(Some(false), scenario.check_gas);
    assert_eq!(2, scenario.steps.len());
    match &scenario.steps[0] {
        Step::ExternalSteps { path } => assert_eq!("other.scen.json", path),
        _ => panic!("external steps keep their path verbatim"),
    }
}

#[test]
fn errors_carry_a_path() {
    let context = &InterpreterContext::default();
    let raw = ScenarioRaw {
        name: None,
        comment: None,
        check_gas: None,
        steps: vec![StepRaw::Transfer {
            tx_id: s("1"),
            comment: None,
            tx: mandos_rs::TxTransferRaw { from: s("address:a"), to: s("address:b"), value: s("zz") },
        }],
    };
    let e = Scenario::interpret_from(raw, context).unwrap_err();
    assert_eq!(ErrorKind::BadLiteral, e.kind);
    assert_eq!("steps[0].tx.value", e.path_string());
}

#[test]
fn well_formed_maps_have_sorted_keys() {
    let sorted = ValueSubTree::Object(vec![
        (String::from("a"), s("1")),
        (String::from("b"), s("2")),
    ]);
    assert!(sorted.is_well_formed());
    let unsorted = ValueSubTree::Object(vec![
        (String::from("b"), s("1")),
        (String::from("a"), s("2")),
    ]);
    assert!(!unsorted.is_well_formed());
    let duplicate = ValueSubTree::Object(vec![
        (String::from("a"), s("1")),
        (String::from("a"), s("2")),
    ]);
    assert!(!duplicate.is_well_formed());
    let nested = ValueSubTree::List(vec![ValueSubTree::Object(vec![
        (String::from("b"), s("1")),
        (String::from("a"), s("2")),
    ])]);
    assert!(!nested.is_well_formed());
}

#[test]
fn check_logs_star_and_list() {
    let context = &InterpreterContext::default();
    let star = CheckLogs::interpret_from(CheckLogsRaw::Star, context).unwrap();
    assert!(star.is_star());
    let raw = CheckLogsRaw::List(vec![CheckLogRaw {
        address: s("address:acc1"),
        identifier: s("str:transfer"),
        topics: vec![s("1"), s("2")],
        data: s("0x0a"),
    }]);
    match CheckLogs::interpret_from(raw, context).unwrap() {
        CheckLogs::List(logs) => {
            assert_eq!(1, logs.len());
            assert_eq!(b"transfer".to_vec(), logs[0].identifier.value);
            assert_eq!(vec![0x01], logs[0].topics[0].value);
            assert_eq!(vec![0x02], logs[0].topics[1].value);
            assert_eq!(vec![0x0a], logs[0].data.value);
        }
        _ => panic!("a list of logs must lower to a list"),
    }
}

#[test]
fn sc_call_step_lowers_expectation() {
    let context = &InterpreterContext::default();
    let raw = StepRaw::ScCall {
        tx_id: s("1"),
        comment: None,
        tx: TxCallRaw {
            from: s("address:caller"),
            to: s("address:callee"),
            value: s("0"),
            function: String::from("transfer"),
            arguments: vec![s("0x01"), s("+255")],
            gas_limit: s("5000"),
            gas_price: s("1"),
        },
        expect: Some(TxExpectRaw {
            out: vec![s("5")],
            status: s("0"),
            logs: CheckLogsRaw::Star,
            message: None,
            gas: Some(s("*")),
            refund: None,
        }),
    };
    match Step::interpret_from(raw, context).unwrap() {
        Step::ScCall { tx, expect, .. } => {
            assert_eq!("transfer", tx.function);
            assert_eq!(vec![0x01], tx.arguments[0].value);
            assert_eq!(vec![0x00, 0xff], tx.arguments[1].value);
            assert_eq!(5000, tx.gas_limit.value);
            let expect = expect.unwrap();
            assert_eq!(vec![0x05], expect.out[0].value);
            assert_eq!(0, expect.status.value);
            assert!(expect.logs.is_star());
            assert!(expect.gas.unwrap().is_star());
            assert!(expect.refund.is_none());
        }
        _ => panic!("the variant tag must carry over"),
    }
}
