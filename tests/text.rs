use dynamo::text::{is_real, parse_index, same_text};

#[test]
fn numerals() {
    assert_eq!(parse_index("42"), Some(42));
    assert_eq!(parse_index("007"), Some(7));
    assert_eq!(parse_index("+7"), Some(7));
    assert_eq!(parse_index("0"), Some(0));
    assert_eq!(parse_index(&usize::MAX.to_string()), Some(usize::MAX));
}

#[test]
fn non_numerals() {
    for s in ["", "+", "-1", "1x", " 1", "1.5", "++1", "x"] {
        assert_eq!(parse_index(s), None, "{:?}", s);
    }
    let too_big = format!("{}0", usize::MAX);
    assert_eq!(parse_index(&too_big), None);
}

#[test]
fn text_equality() {
    assert!(same_text("geom", "geom"));
    assert!(same_text("", ""));
    assert!(!same_text("geom", "geo"));
    assert!(!same_text("LB", "lb"));
}

#[test]
fn real_numerals() {
    for s in ["0", "1.5", "-2", "+3.", ".5", "1e10", "2.5E-3", "-.5e+2", "007", "inf", "NaN", "-Infinity", "+nan"] {
        assert!(is_real(s), "{:?}", s);
    }
    for s in ["", ".", "-", "+.", "e5", "1e", "1e+", "1.2.3", "1,5", "abc", "1 ", "--1", "infin", "nana", "-+inf", "in f"] {
        assert!(!is_real(s), "{:?}", s);
    }
}
