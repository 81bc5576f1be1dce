use mandos_rs::{interpret_string, InterpreterContext};

#[test]
fn test_bool() {
    let context = &InterpreterContext::default();
    assert_eq!(vec![1], interpret_string("true", context).unwrap());
    assert_eq!(Vec::<u8>::new(), interpret_string("false", context).unwrap());
}

#[test]
fn test_string() {
    let context = &InterpreterContext::default();

    assert_eq!(b"abcdefg".to_vec(), interpret_string("``abcdefg", context).unwrap());
    assert_eq!(Vec::<u8>::new(), interpret_string("``", context).unwrap());
    assert_eq!(b"`".to_vec(), interpret_string("```", context).unwrap());
    assert_eq!(b" ".to_vec(), interpret_string("`` ", context).unwrap());

    assert_eq!(b"abcdefg".to_vec(), interpret_string("''abcdefg", context).unwrap());
    assert_eq!(Vec::<u8>::new(), interpret_string("''", context).unwrap());
    assert_eq!(b"'".to_vec(), interpret_string("'''", context).unwrap());
    assert_eq!(b"``".to_vec(), interpret_string("''``", context).unwrap());

    assert_eq!(b"abcdefg".to_vec(), interpret_string("str:abcdefg", context).unwrap());
    assert_eq!(Vec::<u8>::new(), interpret_string("str:", context).unwrap());
}

#[test]
fn test_address() {
    let context = &InterpreterContext::default();

    assert_eq!(
        b"________________________________".to_vec(),
        interpret_string("address:", context).unwrap()
    );
    assert_eq!(
        b"a_______________________________".to_vec(),
        interpret_string("address:a", context).unwrap()
    );
    assert_eq!(
        b"an_address______________________".to_vec(),
        interpret_string("address:an_address", context).unwrap()
    );
    assert_eq!(
        b"12345678901234567890123456789012".to_vec(),
        interpret_string("address:12345678901234567890123456789012", context).unwrap()
    );
    assert_eq!(
        b"12345678901234567890123456789012".to_vec(),
        interpret_string("address:123456789012345678901234567890123", context).unwrap()
    );
}

#[test]
fn test_unsigned_number() {
    let context = &InterpreterContext::default();

    assert_eq!(vec![0x12, 0x34], interpret_string("0x1234", context).unwrap());
    assert_eq!(Vec::<u8>::new(), interpret_string("0x", context).unwrap());
    assert_eq!(Vec::<u8>::new(), interpret_string("0", context).unwrap());
    assert_eq!(vec![12], interpret_string("12", context).unwrap());
    assert_eq!(vec![0x01, 0x00], interpret_string("256", context).unwrap());
    assert_eq!(vec![0x01], interpret_string("0b1", context).unwrap());
    assert_eq!(vec![0x05], interpret_string("0b101", context).unwrap());
}

#[test]
fn test_signed_number() {
    let context = &InterpreterContext::default();

    assert_eq!(vec![0xff], interpret_string("-1", context).unwrap());
    assert_eq!(vec![0xff], interpret_string("255", context).unwrap());
    assert_eq!(vec![0xff], interpret_string("0xff", context).unwrap());
    assert_eq!(vec![0x00, 0xff], interpret_string("+255", context).unwrap());
    assert_eq!(vec![0x00, 0xff], interpret_string("+0xff", context).unwrap());

    assert_eq!(vec![0xff, 0x00], interpret_string("-256", context).unwrap());
    assert_eq!(vec![0xfb], interpret_string("-0b101", context).unwrap());
}
