use sciimg::debayer::DebayerMethod;
use sciimg::debayer::FilterPattern;
use std::str::FromStr;

#[test]
fn test_debayer_method_from_string() {
    assert_eq!(
        DebayerMethod::from_str("malvar").unwrap(),
        DebayerMethod::Malvar
    );

    assert_eq!(
        DebayerMethod::from_str("MALVAR").unwrap(),
        DebayerMethod::Malvar
    );

    assert_eq!(
        DebayerMethod::from_str("amaze").unwrap(),
        DebayerMethod::AMaZE
    );

    assert_eq!(
        DebayerMethod::from_str("AMAZE").unwrap(),
        DebayerMethod::AMaZE
    );

    assert_eq!(
        DebayerMethod::from_str("AMaze").unwrap(),
        DebayerMethod::AMaZE
    );

    assert_eq!(
        DebayerMethod::from_str("bilinear").unwrap(),
        DebayerMethod::Bilinear
    );

    assert_eq!(
        DebayerMethod::from_str("BILINEAR").unwrap(),
        DebayerMethod::Bilinear
    );

    assert!(DebayerMethod::from_str("cvsdfdvs").is_err());
}

#[test]
fn test_filter_pattern_codes() {
    assert_eq!(FilterPattern::BGGR.pattern(), 0x16161616);
    assert_eq!(FilterPattern::GRBG.pattern(), 0x61616161);
    assert_eq!(FilterPattern::GBRG.pattern(), 0x49494949);
    assert_eq!(FilterPattern::RGGB.pattern(), 0x94949494);
}
