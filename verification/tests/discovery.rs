use correctness_fuzzer::discovery::{discover_guard_count, parse_guard_count};
use correctness_fuzzer::errors::FuzzerError;

#[test]
fn zero_guard_count_is_invalid() {
    let r = parse_guard_count(&b"0".to_vec());
    assert_eq!(r.unwrap_err(), FuzzerError::InvalidGuardCount);
}

#[test]
fn guard_count_128_parses_exactly() {
    let r = parse_guard_count(&b"128".to_vec());
    assert_eq!(r.unwrap(), 128);
}

#[test]
fn guard_count_is_trimmed() {
    assert_eq!(parse_guard_count(&b" \t 4242\n".to_vec()).unwrap(), 4242);
    assert_eq!(parse_guard_count(&b"7\r\n".to_vec()).unwrap(), 7);
}

#[test]
fn empty_or_blank_output_is_invalid() {
    assert_eq!(
        parse_guard_count(&b"".to_vec()).unwrap_err(),
        FuzzerError::InvalidGuardCount
    );
    assert_eq!(
        parse_guard_count(&b"  \n".to_vec()).unwrap_err(),
        FuzzerError::InvalidGuardCount
    );
}

#[test]
fn non_numeric_output_is_invalid() {
    assert_eq!(
        parse_guard_count(&b"12a4".to_vec()).unwrap_err(),
        FuzzerError::InvalidGuardCount
    );
    assert_eq!(
        parse_guard_count(&b"-5".to_vec()).unwrap_err(),
        FuzzerError::InvalidGuardCount
    );
    assert_eq!(
        parse_guard_count(&b"4 2".to_vec()).unwrap_err(),
        FuzzerError::InvalidGuardCount
    );
}

#[test]
fn overflowing_output_is_invalid() {
    let r = parse_guard_count(&b"99999999999999999999999999".to_vec());
    assert_eq!(r.unwrap_err(), FuzzerError::InvalidGuardCount);
}

#[test]
fn leading_zeros_parse() {
    assert_eq!(parse_guard_count(&b"007".to_vec()).unwrap(), 7);
}

#[test]
fn discovery_checks_binary_first() {
    let out = b"128".to_vec();
    assert_eq!(
        discover_guard_count(false, false, &out).unwrap_err(),
        FuzzerError::BinaryNotFound
    );
    assert_eq!(
        discover_guard_count(false, true, &out).unwrap_err(),
        FuzzerError::BinaryNotFound
    );
    assert_eq!(
        discover_guard_count(true, false, &out).unwrap_err(),
        FuzzerError::MissingInstrumentationLibrary
    );
    assert_eq!(discover_guard_count(true, true, &out).unwrap(), 128);
}
