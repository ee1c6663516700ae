use ledger_parser::format::{format_from_lowercase, format_of};
use ledger_parser::{Format, ParseError};

#[test]
fn a_format_is_known_by_its_name_whatever_the_case() {
    assert_eq!(format_of("csv", "input").unwrap(), Format::Csv);
    assert_eq!(format_of("CSV", "input").unwrap(), Format::Csv);
    assert_eq!(format_of("Mt940", "output").unwrap(), Format::Mt940);
    assert_eq!(format_of("CAMT053", "output").unwrap(), Format::Camt053);
    assert_eq!(format_from_lowercase("camt053"), Some(Format::Camt053));
    assert_eq!(format_from_lowercase("CSV"), None);
    assert_eq!(format_from_lowercase(""), None);
}

#[test]
fn a_name_of_no_format_is_an_invalid_format() {
    match format_of("xml", "input") {
        Err(ParseError::InvalidFormat(m)) => {
            assert_eq!(m, "Unknown input format: xml. Supported: csv, mt940, camt053")
        }
        _ => panic!("an invalid format is expected"),
    }
    match format_of(" csv", "output") {
        Err(e) => assert_eq!(
            e.message(),
            "Invalid format: Unknown output format:  csv. Supported: csv, mt940, camt053"
        ),
        Ok(_) => panic!("an invalid format is expected"),
    }
}
