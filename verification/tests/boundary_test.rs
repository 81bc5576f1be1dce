use mandos_rs::{interpret_string, ErrorKind, FileEntry, InterpreterContext};

#[test]
fn empty_and_zero_forms_give_empty_bytes() {
    let context = &InterpreterContext::default();
    assert_eq!(Vec::<u8>::new(), interpret_string("", context).unwrap());
    assert_eq!(Vec::<u8>::new(), interpret_string("0x", context).unwrap());
    assert_eq!(Vec::<u8>::new(), interpret_string("0b", context).unwrap());
    assert_eq!(Vec::<u8>::new(), interpret_string("0", context).unwrap());
    assert_eq!(Vec::<u8>::new(), interpret_string("0x0000", context).unwrap());
    assert_eq!(Vec::<u8>::new(), interpret_string("+0", context).unwrap());
    assert_eq!(Vec::<u8>::new(), interpret_string("-0", context).unwrap());
}

#[test]
fn pipe_concatenates_parts() {
    let context = &InterpreterContext::default();
    assert_eq!(
        vec![0x66, 0x6f, 0x6f, 0x01, 0x02],
        interpret_string("str:foo|0x01|0x02", context).unwrap()
    );
    assert_eq!(vec![0x01], interpret_string("true|false", context).unwrap());
    assert_eq!(Vec::<u8>::new(), interpret_string("|", context).unwrap());
    assert_eq!(vec![0x05, 0x07], interpret_string("5|7", context).unwrap());
}

#[test]
fn separators_are_ignored_in_numbers() {
    let context = &InterpreterContext::default();
    assert_eq!(vec![0x64], interpret_string("1_0,0", context).unwrap());
    assert_eq!(vec![0x12, 0x34], interpret_string("0x12_34", context).unwrap());
}

#[test]
fn uppercase_base_prefixes() {
    let context = &InterpreterContext::default();
    assert_eq!(vec![0x12, 0x34], interpret_string("0X1234", context).unwrap());
    assert_eq!(vec![0x05], interpret_string("0B101", context).unwrap());
    assert_eq!(vec![0xab, 0xcd], interpret_string("0xAbCd", context).unwrap());
}

#[test]
fn signed_boundaries() {
    let context = &InterpreterContext::default();
    assert_eq!(vec![0x80], interpret_string("-128", context).unwrap());
    assert_eq!(vec![0xff, 0x7f], interpret_string("-129", context).unwrap());
    assert_eq!(vec![0x00, 0x80], interpret_string("+128", context).unwrap());
    assert_eq!(vec![0x7f], interpret_string("+127", context).unwrap());
}

#[test]
fn bad_literals_are_rejected() {
    let context = &InterpreterContext::default();
    assert_eq!(ErrorKind::BadLiteral, interpret_string("zz", context).unwrap_err().kind);
    assert_eq!(ErrorKind::BadLiteral, interpret_string("0xg1", context).unwrap_err().kind);
    assert_eq!(ErrorKind::BadLiteral, interpret_string("0b2", context).unwrap_err().kind);
    assert_eq!(ErrorKind::BadLiteral, interpret_string("12f", context).unwrap_err().kind);
    assert_eq!(ErrorKind::BadLiteral, interpret_string("-", context).unwrap_err().kind);
    assert_eq!(ErrorKind::BadLiteral, interpret_string("+", context).unwrap_err().kind);
    assert_eq!(ErrorKind::BadLiteral, interpret_string("_", context).unwrap_err().kind);
    assert_eq!(ErrorKind::BadLiteral, interpret_string("5|zz", context).unwrap_err().kind);
}

#[test]
fn reserved_prefixes_are_unsupported() {
    let context = &InterpreterContext::default();
    assert_eq!(
        ErrorKind::Unsupported,
        interpret_string("keccak256:0x01", context).unwrap_err().kind
    );
    assert_eq!(ErrorKind::Unsupported, interpret_string("u64:5", context).unwrap_err().kind);
    assert_eq!(ErrorKind::Unsupported, interpret_string("u32:5", context).unwrap_err().kind);
    assert_eq!(ErrorKind::Unsupported, interpret_string("u16:5", context).unwrap_err().kind);
    assert_eq!(ErrorKind::Unsupported, interpret_string("u8:5", context).unwrap_err().kind);
    assert_eq!(ErrorKind::Unsupported, interpret_string("i64:5", context).unwrap_err().kind);
    assert_eq!(ErrorKind::Unsupported, interpret_string("i32:5", context).unwrap_err().kind);
    assert_eq!(ErrorKind::Unsupported, interpret_string("i16:5", context).unwrap_err().kind);
    assert_eq!(ErrorKind::Unsupported, interpret_string("i8:5", context).unwrap_err().kind);
}

#[test]
fn file_values_need_a_loader() {
    let context = &InterpreterContext::default();
    assert_eq!(ErrorKind::Unsupported, interpret_string("file:a.txt", context).unwrap_err().kind);
}

#[test]
fn file_values_come_from_the_loader() {
    let context = InterpreterContext {
        files: Some(vec![
            FileEntry { path: b"a.txt".to_vec(), contents: vec![1, 2, 3] },
            FileEntry { path: b"b.txt".to_vec(), contents: vec![9] },
        ]),
    };
    assert_eq!(vec![1, 2, 3], interpret_string("file:a.txt", &context).unwrap());
    assert_eq!(vec![9], interpret_string("file:b.txt", &context).unwrap());
    assert_eq!(ErrorKind::External, interpret_string("file:c.txt", &context).unwrap_err().kind);
}

#[test]
fn plus_inside_digits_follows_the_parser() {
    let context = &InterpreterContext::default();
    // The digit parser drops one leading `+` of its input, so a sign rule
    // followed by a single further `+` still parses; two do not.
    assert_eq!(vec![0xfd], interpret_string("-+3", context).unwrap());
    assert_eq!(vec![0x03], interpret_string("++3", context).unwrap());
    assert_eq!(ErrorKind::BadLiteral, interpret_string("+++3", context).unwrap_err().kind);
}
