use numconverter::error::ErrorCode;
use numconverter::radix::{as_string_base, convert_to_base_10, parse_radix, strip_char};
use numconverter::resolve::{default_bases, get_bases, get_from_base, resolve, Opt};

fn options() -> Opt {
    Opt {
        pad: 0,
        sep_length: 4,
        sep_char: '_',
        no_sep: false,
        from_base: 10,
        silent: false,
        copy: false,
        from_clipboard: false,
        bare: false,
        verbosity: 0,
        from_base_char: None,
        from_num: None,
        to_bases: Vec::new(),
    }
}

#[test]
fn test_bin() {
    assert_eq!(as_string_base(&4, 2).unwrap(), "100");
    assert_eq!(as_string_base(&12, 2).unwrap(), "1100");
    assert_eq!(as_string_base(&187, 2).unwrap(), "10111011");
    assert_eq!(as_string_base(&69, 2).unwrap(), "1000101");
}

#[test]
fn test_oct() {
    assert_eq!(as_string_base(&4, 8).unwrap(), "4");
    assert_eq!(as_string_base(&12, 8).unwrap(), "14");
    assert_eq!(as_string_base(&187, 8).unwrap(), "273");
    assert_eq!(as_string_base(&69, 8).unwrap(), "105");
}

#[test]
fn test_hex() {
    assert_eq!(as_string_base(&4, 16).unwrap(), "4");
    assert_eq!(as_string_base(&12, 16).unwrap(), "C");
    assert_eq!(as_string_base(&187, 16).unwrap(), "BB");
    assert_eq!(as_string_base(&69, 16).unwrap(), "45");
}

#[test]
fn test_get_bases() {
    let mut opt = Opt {
        pad: 0,
        sep_length: 4,
        sep_char: '_',
        no_sep: false,
        from_base: 10,
        silent: false,
        copy: false,
        from_clipboard: false,
        bare: false,
        verbosity: 0,
        from_base_char: Some("b".to_owned()),
        from_num: Some("187".to_owned()),
        to_bases: Vec::new(),
    };

    let mut to_bases: Vec<String> = opt.to_bases.clone();
    let res = get_bases(&opt, &mut to_bases, None).unwrap();
    assert_eq!(res.0, 2);
    assert_eq!(res.1, Some("187".to_owned()));
    assert!(to_bases.is_empty());

    opt.from_base_char = Some("80".to_owned());
    let res = get_bases(&opt, &mut to_bases, None).unwrap();
    assert_eq!(res.0, 10);
    assert_eq!(res.1, Some("80".to_owned()));
    assert!(!to_bases.is_empty());
}

#[test]
fn test_convert_to_base_10() {
    assert_eq!(
        convert_to_base_10(Some("10111011".to_owned()), 2, '_'),
        Ok(187)
    );
    assert_eq!(convert_to_base_10(Some("273".to_owned()), 8, '_'), Ok(187));
    assert_eq!(convert_to_base_10(Some("187".to_owned()), 10, '_'), Ok(187));
    assert_eq!(convert_to_base_10(Some("BB".to_owned()), 16, '_'), Ok(187));
    assert_eq!(
        convert_to_base_10(None, 10, '_'),
        Err(ErrorCode::InputBaseErr)
    );
}

#[test]
fn zero_is_single_digit_in_every_base() {
    for b in 2..=36u32 {
        assert_eq!(as_string_base(&0, b).unwrap(), "0");
    }
}

#[test]
fn round_trip_in_every_base() {
    let values: [u128; 6] = [0, 1, 35, 187, 1_000_000_007, u128::MAX];
    for b in 2..=36u32 {
        for v in values.iter() {
            let s = as_string_base(v, b).unwrap();
            assert_eq!(convert_to_base_10(Some(s), b, '_'), Ok(*v));
        }
    }
}

#[test]
fn digits_have_no_leading_zero_and_stay_in_base() {
    for b in 2..=36u32 {
        for v in [1u128, 36, 255, 4096, 123_456_789].iter() {
            let s = as_string_base(v, b).unwrap();
            assert!(!s.starts_with('0'));
            for c in s.chars() {
                assert!(c.is_ascii_digit() || c.is_ascii_uppercase());
                assert!(c.to_digit(36).unwrap() < b);
            }
        }
    }
}

#[test]
fn base_36_uses_letters_to_z() {
    assert_eq!(as_string_base(&35, 36).unwrap(), "Z");
    assert_eq!(as_string_base(&36, 36).unwrap(), "10");
    assert_eq!(as_string_base(&255, 16).unwrap(), "FF");
}

#[test]
fn largest_magnitude_in_hex() {
    assert_eq!(
        as_string_base(&u128::MAX, 16).unwrap(),
        "FFFFFFFFFFFFFFFFFFFFFFFFFFFFFFFF"
    );
}

#[test]
fn base_outside_range_is_invalid() {
    for b in [0u32, 1, 37, 100, u32::MAX].iter() {
        assert_eq!(as_string_base(&10, *b), Err(ErrorCode::InvalidBase));
        assert_eq!(
            convert_to_base_10(Some("10".to_owned()), *b, '_'),
            Err(ErrorCode::InvalidBase)
        );
    }
}

#[test]
fn source_number_overflow_is_a_conversion_error() {
    assert_eq!(
        convert_to_base_10(
            Some("340282366920938463463374607431768211455".to_owned()),
            10,
            '_'
        ),
        Ok(u128::MAX)
    );
    assert_eq!(
        convert_to_base_10(
            Some("340282366920938463463374607431768211456".to_owned()),
            10,
            '_'
        ),
        Err(ErrorCode::BaseConversionErr)
    );
}

#[test]
fn malformed_source_numbers_are_conversion_errors() {
    assert_eq!(
        convert_to_base_10(Some("".to_owned()), 10, '_'),
        Err(ErrorCode::BaseConversionErr)
    );
    assert_eq!(
        convert_to_base_10(Some("+".to_owned()), 10, '_'),
        Err(ErrorCode::BaseConversionErr)
    );
    assert_eq!(
        convert_to_base_10(Some("12".to_owned()), 2, '_'),
        Err(ErrorCode::BaseConversionErr)
    );
    assert_eq!(
        convert_to_base_10(Some("-5".to_owned()), 10, '_'),
        Err(ErrorCode::BaseConversionErr)
    );
}

#[test]
fn source_numbers_accept_plus_lowercase_and_separators() {
    assert_eq!(convert_to_base_10(Some("+42".to_owned()), 10, '_'), Ok(42));
    assert_eq!(convert_to_base_10(Some("bb".to_owned()), 16, '_'), Ok(187));
    assert_eq!(
        convert_to_base_10(Some("1011_1011".to_owned()), 2, '_'),
        Ok(187)
    );
    assert_eq!(
        convert_to_base_10(Some("1,000,000".to_owned()), 10, ','),
        Ok(1_000_000)
    );
}

#[test]
fn parse_radix_reads_numerals() {
    assert_eq!(parse_radix("zz", 36), Some(1295));
    assert_eq!(parse_radix("7", 7), None);
    assert_eq!(parse_radix("007", 8), Some(7));
}

#[test]
fn strip_char_removes_every_separator() {
    assert_eq!(strip_char("_1_0__1_", '_'), "101");
    assert_eq!(strip_char("101", '_'), "101");
}

#[test]
fn mnemonics_name_source_bases() {
    assert_eq!(get_from_base("b"), Some(2));
    assert_eq!(get_from_base("o"), Some(8));
    assert_eq!(get_from_base("d"), Some(10));
    assert_eq!(get_from_base("h"), Some(16));
    assert_eq!(get_from_base("x"), Some(16));
    assert_eq!(get_from_base(""), None);
    assert_eq!(get_from_base("B"), None);
    assert_eq!(get_from_base("hh"), None);
}

#[test]
fn empty_target_list_defaults() {
    let expected: Vec<String> = vec!["2".to_owned(), "8".to_owned(), "10".to_owned(), "16".to_owned()];
    assert_eq!(default_bases(), expected);
}

#[test]
fn mnemonic_with_clipboard_shifts_literal_to_targets() {
    let mut opt = options();
    opt.from_base_char = Some("h".to_owned());
    opt.from_num = Some("8".to_owned());
    opt.from_clipboard = true;
    let mut to_bases: Vec<String> = vec!["2".to_owned()];
    let res = get_bases(&opt, &mut to_bases, Some("FF".to_owned())).unwrap();
    assert_eq!(res, (16, Some("FF".to_owned())));
    assert_eq!(to_bases, vec!["8".to_owned(), "2".to_owned()]);
}

#[test]
fn no_mnemonic_with_clipboard_shifts_both_tokens() {
    let mut opt = options();
    opt.from_base_char = Some("16".to_owned());
    opt.from_num = Some("8".to_owned());
    opt.from_clipboard = true;
    let mut to_bases: Vec<String> = vec!["2".to_owned()];
    let res = get_bases(&opt, &mut to_bases, Some("42".to_owned())).unwrap();
    assert_eq!(res, (10, Some("42".to_owned())));
    assert_eq!(
        to_bases,
        vec!["16".to_owned(), "8".to_owned(), "2".to_owned()]
    );
}

#[test]
fn no_token_at_all_gives_empty_number() {
    let opt = options();
    let mut to_bases: Vec<String> = Vec::new();
    let res = get_bases(&opt, &mut to_bases, None).unwrap();
    assert_eq!(res, (10, Some(String::new())));
    assert!(to_bases.is_empty());
    assert_eq!(
        convert_to_base_10(res.1, res.0, '_'),
        Err(ErrorCode::BaseConversionErr)
    );
}

#[test]
fn resolve_keeps_given_targets() {
    let mut opt = options();
    opt.from_base_char = Some("d".to_owned());
    opt.from_num = Some("9".to_owned());
    opt.to_bases = vec!["3".to_owned()];
    let (b, n, t) = resolve(&opt, None);
    assert_eq!(b, 10);
    assert_eq!(n, Some("9".to_owned()));
    assert_eq!(t, vec!["3".to_owned()]);
}

#[test]
fn error_messages_name_the_failure() {
    assert_eq!(ErrorCode::BaseConversionErr.message(), "Base Conversion Error");
    assert_eq!(ErrorCode::TargetBaseErr.message(), "Target Base Error");
    assert_eq!(ErrorCode::InputBaseErr.message(), "Input Base Error");
    assert_eq!(ErrorCode::ClipboardErr.message(), "Clipboard access Error");
    assert!(ErrorCode::InvalidBase.message().contains("36"));
}
