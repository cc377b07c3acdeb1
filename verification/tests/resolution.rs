use wpmeta::generate::Resolution;
use wpmeta::resolution::{NumberError, ResolutionError};

#[test]
fn size_is_width_comma_height() {
    assert_eq!(Resolution::from_str("500,500"), Ok(Resolution { width: 500, height: 500 }));
    assert_eq!(Resolution::from_str(" 1920 ,\t+1080\n"), Ok(Resolution { width: 1920, height: 1080 }));
    assert_eq!(Resolution::from_str("0,007"), Ok(Resolution { width: 0, height: 7 }));
    assert_eq!(
        Resolution::from_str(&format!("{},1", usize::MAX)),
        Ok(Resolution { width: usize::MAX, height: 1 })
    );
}

#[test]
fn size_needs_exactly_two_parts() {
    assert_eq!(Resolution::from_str(""), Err(ResolutionError::WrongCount { found: 1 }));
    assert_eq!(Resolution::from_str("500"), Err(ResolutionError::WrongCount { found: 1 }));
    assert_eq!(Resolution::from_str("1,2,3"), Err(ResolutionError::WrongCount { found: 3 }));
    assert_eq!(
        Resolution::from_str("1,2,3").unwrap_err().message(),
        "expected exactly 2 comma-separated positive integers, got 3"
    );
}

#[test]
fn size_reports_the_first_part_that_is_no_number() {
    let invalid = |index, reason| Err(ResolutionError::InvalidNumber { index, reason });
    assert_eq!(Resolution::from_str(",1"), invalid(0, NumberError::Empty));
    assert_eq!(Resolution::from_str("1,  "), invalid(1, NumberError::Empty));
    assert_eq!(Resolution::from_str("a,b"), invalid(0, NumberError::InvalidDigit));
    assert_eq!(Resolution::from_str("1,-1"), invalid(1, NumberError::InvalidDigit));
    assert_eq!(Resolution::from_str("+,1"), invalid(0, NumberError::InvalidDigit));
    assert_eq!(Resolution::from_str("1 2,1"), invalid(0, NumberError::InvalidDigit));
    assert_eq!(
        Resolution::from_str("1,99999999999999999999999999"),
        invalid(1, NumberError::PosOverflow)
    );
    assert_eq!(
        Resolution::from_str("99999999999999999999999999x,1"),
        invalid(0, NumberError::PosOverflow)
    );
    assert_eq!(
        Resolution::from_str("x,1").unwrap_err().message(),
        "Failed to parse argument 0: invalid digit found in string"
    );
    assert_eq!(
        Resolution::from_str("1,").unwrap_err().message(),
        "Failed to parse argument 1: cannot parse integer from empty string"
    );
    assert_eq!(NumberError::PosOverflow.message(), "number too large to fit in target type");
}

#[test]
fn size_agrees_with_the_standard_parser() {
    for part in ["12", "+12", " 12 ", "", "+", "-", "1a", "١٢", "18446744073709551616", "00"] {
        let text = format!("{part},1");
        let ours = Resolution::from_str(&text).map(|r| r.width).ok();
        let std = part.trim().parse::<usize>().ok();
        assert_eq!(ours, std);
    }
}

fn listed_white_space(c: char) -> bool {
    matches!(
        c as u32,
        0x09..=0x0D
            | 0x20
            | 0x85
            | 0xA0
            | 0x1680
            | 0x2000..=0x200A
            | 0x2028
            | 0x2029
            | 0x202F
            | 0x205F
            | 0x3000
    )
}

#[test]
fn whitespace_around_a_number_is_the_unicode_property() {
    let mut seen = 0;
    for code in 0..=0x10FFFFu32 {
        let Some(c) = char::from_u32(code) else { continue };
        let ignored = Resolution::from_str(&format!("{c}5{c},1"))
            == Ok(Resolution { width: 5, height: 1 });
        assert_eq!(ignored, listed_white_space(c), "U+{code:04X}");
        if ignored {
            seen += 1;
        }
    }
    assert_eq!(seen, 25);
}
