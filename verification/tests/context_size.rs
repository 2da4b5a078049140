use llm_gateway::config::context_size::{ContextError, ContextForm, ContextSize};

#[test]
fn parses_kilo_text_and_writes_it_back() {
    let size = ContextSize::parse("32k").unwrap();
    assert_eq!(size, ContextSize::new(32768));
    assert_eq!(size.size(), 32768);
    assert_eq!(size.serialize(), ContextForm::Text("32k".to_string()));
}

#[test]
fn parses_plain_text_and_writes_it_back() {
    let size = ContextSize::parse("1500").unwrap();
    assert_eq!(size, ContextSize::new(1500));
    assert_eq!(size.serialize(), ContextForm::Integer(1500));
}

#[test]
fn upper_case_kilo_is_read_too() {
    assert_eq!(ContextSize::parse("4K"), Ok(ContextSize::new(4096)));
}

#[test]
fn round_trip_on_chosen_values() {
    for n in [0, 1, 1023, 1024, 1025, 4096, 1500, 32768, i32::MAX, 2147482624, -1, -1024, -2048, i32::MIN] {
        let size = ContextSize::new(n);
        assert_eq!(ContextSize::deserialize(&size.serialize()), Ok(size));
    }
}

#[test]
fn zero_is_written_in_kilo() {
    assert_eq!(ContextSize::new(0).serialize(), ContextForm::Text("0k".to_string()));
    assert_eq!(ContextSize::new(-2048).serialize(), ContextForm::Text("-2k".to_string()));
    assert_eq!(ContextSize::new(-5).serialize(), ContextForm::Integer(-5));
}

#[test]
fn refuses_what_is_no_context_length() {
    assert_eq!(ContextSize::parse(""), Err(ContextError::Empty));
    assert_eq!(ContextSize::parse("k"), Err(ContextError::InvalidKilo));
    assert_eq!(ContextSize::parse("1.5k"), Err(ContextError::InvalidKilo));
    assert_eq!(ContextSize::parse("abc"), Err(ContextError::Invalid));
    assert_eq!(ContextSize::parse("12 "), Err(ContextError::Invalid));
    assert_eq!(ContextSize::parse("2147483648"), Err(ContextError::Invalid));
    assert_eq!(ContextSize::parse("2097152k"), Err(ContextError::OutOfRange));
    assert_eq!(ContextSize::parse("2097151k"), Ok(ContextSize::new(2147482624)));
    assert_eq!(ContextSize::parse("-2097152k"), Ok(ContextSize::new(i32::MIN)));
}

#[test]
fn numbers_must_fit() {
    assert_eq!(ContextSize::from_i64(5), Ok(ContextSize::new(5)));
    assert_eq!(ContextSize::from_i64(-5), Ok(ContextSize::new(-5)));
    assert_eq!(ContextSize::from_i64(2147483647), Ok(ContextSize::new(i32::MAX)));
    assert_eq!(ContextSize::from_i64(2147483648), Err(ContextError::OutOfRange));
    assert_eq!(ContextSize::from_i64(-2147483649), Err(ContextError::OutOfRange));
    assert_eq!(ContextSize::from_u64(7), Ok(ContextSize::new(7)));
    assert_eq!(ContextSize::from_u64(2147483648), Err(ContextError::OutOfRange));
}

#[test]
fn signs_are_read() {
    assert_eq!(ContextSize::parse("+12"), Ok(ContextSize::new(12)));
    assert_eq!(ContextSize::parse("-12"), Ok(ContextSize::new(-12)));
    assert_eq!(ContextSize::parse("+2k"), Ok(ContextSize::new(2048)));
    assert_eq!(ContextSize::parse("-"), Err(ContextError::Invalid));
    assert_eq!(ContextSize::parse("007"), Ok(ContextSize::new(7)));
}

#[test]
fn default_is_zero() {
    assert_eq!(ContextSize::default().size(), 0);
}
