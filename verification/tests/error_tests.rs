use ledger_parser::error::ParseError;

#[test]
fn test_parse_error_display() {
    let error = ParseError::InvalidFormat("Test format".into());
    assert_eq!(error.message(), "Invalid format: Test format");
}

#[test]
fn test_csv_error_display() {
    let error = ParseError::CsvError("Invalid CSV structure".into());
    assert!(error.message().contains("Invalid CSV structure"));
}

#[test]
fn test_missing_field_error_display() {
    let error = ParseError::MissingField("account_number".into());
    assert_eq!(error.message(), "Missing required field: account_number");
}

#[test]
fn test_invalid_field_value_error_display() {
    let error = ParseError::InvalidFieldValue {
        field: "amount".into(),
        value: "invalid".into(),
    };
    assert_eq!(error.message(), "Invalid value 'invalid' for field 'amount'");
}

#[test]
fn test_error_debug() {
    let error = ParseError::Mt940Error("Test error".into());
    let debug_str = format!("{:?}", error);
    assert!(debug_str.contains("Mt940Error"));
    assert!(debug_str.contains("Test error"));
}

#[test]
fn every_variant_has_its_own_message() {
    assert_eq!(ParseError::CsvError("x".into()).message(), "CSV error: x");
    assert_eq!(ParseError::Mt940Error("x".into()).message(), "MT940 error: x");
    assert_eq!(ParseError::Camt053Error("x".into()).message(), "CAMT.053 error: x");
    assert_eq!(ParseError::IoError("x".into()).message(), "I/O error: x");
}
