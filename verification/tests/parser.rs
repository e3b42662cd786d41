use automata::life::{LifeRule, RuleParseReason};

#[test]
fn b3s23_parses() {
    let rule = LifeRule::from_str("B3S23").unwrap();
    assert_eq!(rule.birth, 1 << 3);
    assert_eq!(rule.survive, (1 << 2) | (1 << 3));
}

#[test]
fn b36s23_parses() {
    let rule = LifeRule::from_str("B36S23").unwrap();
    assert_eq!(rule.birth, (1 << 3) | (1 << 6));
    assert_eq!(rule.survive, (1 << 2) | (1 << 3));
}

#[test]
fn empty_birth_and_survival_parse() {
    let rule = LifeRule::from_str("BS").unwrap();
    assert_eq!(rule.birth, 0);
    assert_eq!(rule.survive, 0);
}

#[test]
fn missing_survival_is_format_error() {
    let err = LifeRule::from_str("B3").unwrap_err();
    assert_eq!(err.reason, RuleParseReason::Format);
    assert_eq!(err.message, "life rule must include a survival rule");
}

#[test]
fn missing_birth_prefix_is_format_error() {
    let err = LifeRule::from_str("X3S23").unwrap_err();
    assert_eq!(err.reason, RuleParseReason::Format);
    assert_eq!(err.message, "life rule must start with a birth rule");
}

#[test]
fn empty_string_is_format_error() {
    let err = LifeRule::from_str("").unwrap_err();
    assert_eq!(err.reason, RuleParseReason::Format);
    assert_eq!(err.message, "life rule must start with a birth rule");
}

#[test]
fn digit_nine_is_digit_range_error() {
    let err = LifeRule::from_str("B9S23").unwrap_err();
    assert_eq!(err.reason, RuleParseReason::DigitParse);
    assert_eq!(err.message, "digit can only be 0 through 8");
}

#[test]
fn letter_in_survival_is_non_digit_error() {
    let err = LifeRule::from_str("B3Sx").unwrap_err();
    assert_eq!(err.reason, RuleParseReason::DigitParse);
    assert_eq!(err.message, "rule can only include digits");
}

#[test]
fn second_survival_marker_is_non_digit_error() {
    let err = LifeRule::from_str("B3S2S3").unwrap_err();
    assert_eq!(err.reason, RuleParseReason::DigitParse);
    assert_eq!(err.message, "rule can only include digits");
}

#[test]
fn digit_nine_in_survival_is_digit_range_error() {
    let err = LifeRule::from_str("B3S29").unwrap_err();
    assert_eq!(err.reason, RuleParseReason::DigitParse);
    assert_eq!(err.message, "digit can only be 0 through 8");
}
