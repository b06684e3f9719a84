use husako::quantity::is_valid_quantity;

// --- is_valid_quantity ---

#[test]
fn valid_bare_number() {
    assert!(is_valid_quantity("1"));
    assert!(is_valid_quantity("0"));
    assert!(is_valid_quantity("100"));
}

#[test]
fn valid_decimal() {
    assert!(is_valid_quantity(".5"));
    assert!(is_valid_quantity("2.5"));
    assert!(is_valid_quantity("0.1"));
}

#[test]
fn valid_with_sign() {
    assert!(is_valid_quantity("+1"));
    assert!(is_valid_quantity("-1"));
}

#[test]
fn valid_millicores() {
    assert!(is_valid_quantity("500m"));
    assert!(is_valid_quantity("100m"));
}

#[test]
fn valid_binary_si() {
    assert!(is_valid_quantity("1Gi"));
    assert!(is_valid_quantity("100Mi"));
    assert!(is_valid_quantity("2.5Gi"));
    assert!(is_valid_quantity("1Ki"));
}

#[test]
fn valid_decimal_si() {
    assert!(is_valid_quantity("1k"));
    assert!(is_valid_quantity("1M"));
    assert!(is_valid_quantity("1G"));
    assert!(is_valid_quantity("1n"));
    assert!(is_valid_quantity("1u"));
}

#[test]
fn valid_exa_suffix() {
    // "1E" should be Exa suffix, not an incomplete exponent
    assert!(is_valid_quantity("1E"));
    assert!(is_valid_quantity("1Ei"));
}

#[test]
fn valid_exponent() {
    assert!(is_valid_quantity("1e3"));
    assert!(is_valid_quantity("1E3"));
    assert!(is_valid_quantity("1e+3"));
    assert!(is_valid_quantity("1e-3"));
}

#[test]
fn invalid_empty() {
    assert!(!is_valid_quantity(""));
}

#[test]
fn invalid_no_digits() {
    assert!(!is_valid_quantity("abc"));
    assert!(!is_valid_quantity("Gi"));
    assert!(!is_valid_quantity("e3"));
}

#[test]
fn invalid_wrong_suffix() {
    assert!(!is_valid_quantity("2gb"));
    assert!(!is_valid_quantity("1gi")); // lowercase gi is not valid
    assert!(!is_valid_quantity("1mm")); // double m
}

#[test]
fn invalid_space() {
    assert!(!is_valid_quantity("1 Gi"));
}

#[test]
fn invalid_multiple_dots() {
    assert!(!is_valid_quantity("1.2.3"));
}
