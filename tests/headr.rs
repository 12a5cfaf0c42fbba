use wcr::parse_positive_int;

#[test]
fn test_parse_positive_int() {
    // 3 is an OK integer
    let res = parse_positive_int("3");
    assert!(res.is_ok());
    assert_eq!(res.unwrap(), 3);

    // Any string is an error
    let res = parse_positive_int("foo");
    assert!(res.is_err());
    assert_eq!(res.unwrap_err().to_string(), "foo".to_string());

    // A zero is an error
    let res = parse_positive_int("0");
    assert!(res.is_err());
    assert_eq!(res.unwrap_err().to_string(), "0".to_string());
}

#[test]
fn parse_positive_int_plus_sign_and_limits() {
    assert_eq!(parse_positive_int("+42"), Ok(42));
    assert_eq!(parse_positive_int("007"), Ok(7));
    assert_eq!(parse_positive_int(""), Err("".to_string()));
    assert_eq!(parse_positive_int("+"), Err("+".to_string()));
    assert_eq!(parse_positive_int("-3"), Err("-3".to_string()));
    assert_eq!(parse_positive_int("3x"), Err("3x".to_string()));
    let max = usize::MAX.to_string();
    assert_eq!(parse_positive_int(&max), Ok(usize::MAX));
    let over = format!("{}0", max);
    assert_eq!(parse_positive_int(&over), Err(over.clone()));
}
