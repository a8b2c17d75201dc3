use disasm::args::parse_assembly;
use disasm::args::resolve;
use disasm::args::try_parse_number;
use disasm::args::valid_mode_tokens;
use disasm::args::MachineMode;
use disasm::error::Error;

#[test]
fn resolve_x86() {
    assert!(matches!(resolve("x86"), Ok(MachineMode::X86)));
}

#[test]
fn resolve_amd64() {
    assert!(matches!(resolve("amd64"), Ok(MachineMode::Amd64)));
}

#[test]
fn resolve_bogus_is_invalid_mode_token() {
    match resolve("bogus") {
        Err(Error::InvalidModeToken(t)) => assert_eq!(t, "bogus"),
        _ => panic!("expected an invalid-mode-token error"),
    }
}

#[test]
fn resolve_is_case_sensitive() {
    assert!(matches!(resolve("X86"), Err(Error::InvalidModeToken(_))));
    assert!(matches!(resolve("Amd64"), Err(Error::InvalidModeToken(_))));
}

#[test]
fn resolve_rejects_prefixes_and_extensions() {
    assert!(matches!(resolve("amd"), Err(Error::InvalidModeToken(_))));
    assert!(matches!(resolve("amd64le"), Err(Error::InvalidModeToken(_))));
    assert!(matches!(resolve(""), Err(Error::InvalidModeToken(_))));
}

#[test]
fn valid_tokens_all_resolve() {
    let tokens = valid_mode_tokens();
    assert_eq!(tokens, vec!["x86".to_string(), "amd64".to_string()]);
    assert!(!tokens.is_empty());
    for t in &tokens {
        assert!(resolve(t).is_ok());
    }
}

#[test]
fn mode_bit_widths() {
    assert_eq!(MachineMode::X86.bit_width(), 32);
    assert_eq!(MachineMode::Amd64.bit_width(), 64);
    assert!(!MachineMode::X86.is_64_bit());
    assert!(MachineMode::Amd64.is_64_bit());
}

#[test]
fn parse_assembly_plain() {
    assert_eq!(parse_assembly("9090"), vec![0x90, 0x90]);
}

#[test]
fn parse_assembly_with_space_separator() {
    assert_eq!(parse_assembly("90 90"), parse_assembly("9090"));
    assert_eq!(parse_assembly("90 90"), vec![0x90, 0x90]);
}

#[test]
fn parse_assembly_mixed_separators() {
    assert_eq!(parse_assembly("90,90;c3"), vec![0x90, 0x90, 0xc3]);
    assert_eq!(parse_assembly("90 90 c3"), vec![0x90, 0x90, 0xc3]);
}

#[test]
fn parse_assembly_0x_prefix_zero_survives_the_scan() {
    // The scan keeps every hex digit, so the `0` of a `0x` prefix is kept
    // and shifts the pairing.
    assert_eq!(parse_assembly("0x9090"), vec![0x09, 0x09]);
}

#[test]
fn parse_assembly_empty() {
    assert_eq!(parse_assembly(""), Vec::<u8>::new());
    assert_eq!(parse_assembly("zz"), Vec::<u8>::new());
}

#[test]
fn parse_assembly_trailing_digit_dropped() {
    assert_eq!(parse_assembly("90c"), vec![0x90]);
    assert_eq!(parse_assembly("9"), Vec::<u8>::new());
}

#[test]
fn parse_assembly_uppercase_digits() {
    assert_eq!(parse_assembly("C3"), vec![0xc3]);
    assert_eq!(parse_assembly("DeAdBeEf"), vec![0xde, 0xad, 0xbe, 0xef]);
}

#[test]
fn number_decimal() {
    assert_eq!(try_parse_number("100").unwrap(), 100);
    assert_eq!(try_parse_number("0").unwrap(), 0);
}

#[test]
fn number_decimal_max() {
    assert_eq!(try_parse_number("18446744073709551615").unwrap(), u64::MAX);
}

#[test]
fn number_decimal_overflow_rejected() {
    assert!(matches!(
        try_parse_number("18446744073709551616"),
        Err(Error::InvalidAddressLiteral(_))
    ));
}

#[test]
fn number_hex_with_prefix() {
    assert_eq!(try_parse_number("0x100").unwrap(), 0x100);
    assert_eq!(try_parse_number("0x1000").unwrap(), 0x1000);
}

#[test]
fn number_hex_bare_letters() {
    assert_eq!(try_parse_number("ff").unwrap(), 0xff);
    assert_eq!(try_parse_number("deadbeef").unwrap(), 0xdeadbeef);
}

#[test]
fn number_hex_max() {
    assert_eq!(try_parse_number("0xffffffffffffffff").unwrap(), u64::MAX);
}

#[test]
fn number_hex_overflow_rejected() {
    assert!(matches!(
        try_parse_number("0x10000000000000000"),
        Err(Error::InvalidAddressLiteral(_))
    ));
}

#[test]
fn number_empty_rejected() {
    assert!(matches!(
        try_parse_number(""),
        Err(Error::InvalidAddressLiteral(_))
    ));
}

#[test]
fn number_without_any_digit_rejected() {
    assert!(matches!(
        try_parse_number("zz"),
        Err(Error::InvalidAddressLiteral(_))
    ));
}

#[test]
fn error_messages_name_the_kind() {
    let e = resolve("bogus").unwrap_err();
    assert_eq!(e.message(), "invalid mode token: bogus");
    let e = try_parse_number("zz").unwrap_err();
    assert_eq!(e.message(), "invalid address literal: zz");
    let e = Error::Io("broken pipe".to_string());
    assert_eq!(e.message(), "IO error: broken pipe");
}
