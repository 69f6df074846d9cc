use parse_trait::radix::{ParseInt, ParseIntError, ParseRadix};
use parse_trait::{BuildParser, Parse, Progress};

fn hex() -> ParseRadix {
    ParseRadix::new(16).unwrap()
}

/// Simple example to make sure it works.
#[test]
fn deadbeef() {
    assert_eq!(ParseRadix::new(16).unwrap().parse_one_only("deadbeef"), Ok(0xdeadbeef));
}

#[test]
fn empty_input_is_insufficient() {
    assert_eq!(hex().parse_one_only(""), Err(ParseIntError::Empty));
    assert_eq!(hex().parse_one(""), Err(ParseIntError::Empty));
}

#[test]
fn trailing_space_is_refused_by_the_strict_form() {
    assert_eq!(hex().parse_one_only("ff "), Err(ParseIntError::InvalidChar(' ')));
}

#[test]
fn trailing_space_is_handed_back() {
    assert_eq!(hex().parse_one("ff "), Ok((0xff, " ")));
}

#[test]
fn digits_beyond_32_bits_overflow() {
    assert_eq!(hex().parse_one_only("fffffffff"), Err(ParseIntError::Overflow));
    assert_eq!(hex().parse_one_only("100000000"), Err(ParseIntError::Overflow));
    assert_eq!(hex().parse_one("fffffffff "), Err(ParseIntError::Overflow));
}

#[test]
fn largest_number_fits() {
    assert_eq!(hex().parse_one_only("ffffffff"), Ok(0xffff_ffff));
    let decimal: ParseRadix = ParseRadix::new(10).unwrap();
    assert_eq!(decimal.parse_one_only("4294967295"), Ok(4294967295));
    assert_eq!(decimal.parse_one_only("4294967296"), Err(ParseIntError::Overflow));
    assert_eq!(decimal.parse_one_only("4294967300"), Err(ParseIntError::Overflow));
}

#[test]
fn each_chunk_of_digits_is_a_number() {
    let mut parser: ParseInt = hex().build_parser();
    assert_eq!(parser.try_parse("de"), Ok(Progress::Ready((0xde, ""))));
    assert_eq!(parser.try_parse("ad"), Ok(Progress::Ready((0xad, ""))));
}

#[test]
fn only_the_empty_chunk_is_pending() {
    let mut parser: ParseInt = hex().build_parser();
    assert_eq!(parser.try_parse(""), Ok(Progress::Pending));
    assert_eq!(parser.try_parse_only(""), Ok(Progress::Pending));
    assert_eq!(parser.try_parse("de"), Ok(Progress::Ready((0xde, ""))));
    assert_eq!(parser.try_parse(""), Ok(Progress::Pending));
    assert_eq!(parser.try_parse_only("ad"), Ok(Progress::Ready(0xad)));
}

#[test]
fn leading_non_digit_is_an_error() {
    assert_eq!(hex().parse_one(" ff"), Err(ParseIntError::InvalidChar(' ')));
    assert_eq!(hex().parse_one("g"), Err(ParseIntError::InvalidChar('g')));
    assert_eq!(hex().parse_one_only("-1"), Err(ParseIntError::InvalidChar('-')));
    assert_eq!(hex().parse_one("\u{e9}"), Err(ParseIntError::InvalidChar('\u{e9}')));
    let mut parser: ParseInt = hex().build_parser();
    assert_eq!(parser.try_parse("x1"), Err(ParseIntError::InvalidChar('x')));
    assert_eq!(parser.try_parse_only("x1"), Err(ParseIntError::InvalidChar('x')));
}

#[test]
fn non_digit_cuts_the_chunk() {
    assert_eq!(hex().parse_one("12,34"), Ok((0x12, ",34")));
    assert_eq!(hex().parse_one("7f\u{e9}t\u{e9}"), Ok((0x7f, "\u{e9}t\u{e9}")));
    let mut parser: ParseInt = hex().build_parser();
    assert_eq!(parser.try_parse("12,34"), Ok(Progress::Ready((0x12, ",34"))));
    assert_eq!(parser.try_parse("34"), Ok(Progress::Ready((0x34, ""))));
    assert_eq!(parser.try_parse_only("12,34"), Err(ParseIntError::InvalidChar(',')));
}

#[test]
fn digits_count_in_either_case() {
    assert_eq!(hex().parse_one_only("DEADBEEF"), Ok(0xdeadbeef));
    assert_eq!(hex().parse_one_only("DeadBeef"), Ok(0xdeadbeef));
    let base36: ParseRadix = ParseRadix::new(36).unwrap();
    assert_eq!(base36.parse_one_only("zz"), Ok(1295));
    assert_eq!(base36.parse_one_only("ZZ"), Ok(1295));
    assert_eq!(base36.parse_one_only("10"), Ok(36));
}

#[test]
fn digits_stay_below_the_radix() {
    let binary: ParseRadix = ParseRadix::new(2).unwrap();
    assert_eq!(binary.parse_one_only("101"), Ok(5));
    assert_eq!(binary.parse_one("102"), Ok((2, "2")));
    assert_eq!(binary.parse_one_only("102"), Err(ParseIntError::InvalidChar('2')));
    assert_eq!(binary.parse_one("2"), Err(ParseIntError::InvalidChar('2')));
    let decimal: ParseRadix = ParseRadix::new(10).unwrap();
    assert_eq!(decimal.parse_one("12ab"), Ok((12, "ab")));
    assert_eq!(decimal.parse_one_only("0042"), Ok(42));
}

#[test]
fn radix_is_from_2_to_36() {
    assert!(ParseRadix::new(0).is_none());
    assert!(ParseRadix::new(1).is_none());
    assert!(ParseRadix::new(2).is_some());
    assert!(ParseRadix::new(36).is_some());
    assert!(ParseRadix::new(37).is_none());
    assert!(ParseRadix::new(u32::MAX).is_none());
}

#[test]
fn insufficient_is_always_empty() {
    let mut parser: ParseInt = hex().build_parser();
    assert_eq!(parser.insufficient(), ParseIntError::Empty);
    assert_eq!(parser.try_parse("12"), Ok(Progress::Ready((0x12, ""))));
    assert_eq!(parser.insufficient(), ParseIntError::Empty);
}

#[test]
fn extraneous_tells_digits_from_other_characters() {
    let parser: ParseInt = hex().build_parser();
    assert_eq!(parser.extraneous("f"), ParseIntError::Overflow);
    assert_eq!(parser.extraneous("0 "), ParseIntError::Overflow);
    assert_eq!(parser.extraneous(" 0"), ParseIntError::InvalidChar(' '));
    assert_eq!(parser.extraneous("g0"), ParseIntError::InvalidChar('g'));
    let binary: ParseInt = ParseRadix::new(2).unwrap().build_parser();
    assert_eq!(binary.extraneous("1"), ParseIntError::Overflow);
    assert_eq!(binary.extraneous("2"), ParseIntError::InvalidChar('2'));
}

/// The hook is meant for what is left over, but answers for nothing as well.
#[test]
fn extraneous_of_no_input_is_empty() {
    let parser: ParseInt = hex().build_parser();
    assert_eq!(parser.extraneous(""), ParseIntError::Empty);
}

#[test]
fn an_overflow_leaves_the_total_out_of_reach() {
    let mut parser: ParseInt = hex().build_parser();
    assert_eq!(parser.try_parse("fffffffff"), Err(ParseIntError::Overflow));
    assert_eq!(parser.try_parse(""), Ok(Progress::Pending));
    assert_eq!(parser.try_parse("0"), Err(ParseIntError::Overflow));
    assert_eq!(parser.try_parse(" "), Err(ParseIntError::InvalidChar(' ')));
    let mut decimal: ParseInt = ParseRadix::new(10).unwrap().build_parser();
    assert_eq!(decimal.try_parse("4294967296"), Err(ParseIntError::Overflow));
    assert_eq!(decimal.try_parse("0"), Err(ParseIntError::Overflow));
}

#[test]
fn a_ready_step_starts_the_next_number_from_zero() {
    let mut parser: ParseInt = hex().build_parser();
    assert_eq!(parser.try_parse("ffffffff"), Ok(Progress::Ready((0xffff_ffff, ""))));
    assert_eq!(parser.try_parse("1"), Ok(Progress::Ready((1, ""))));
    assert_eq!(parser.parse("2 "), Ok((2, " ")));
    assert_eq!(parser.parse_only("3"), Ok(3));
}

fn reject_pending(
    step: Result<Progress<(u32, &str)>, ParseIntError>,
    insufficient: ParseIntError,
) -> Result<(u32, &str), ParseIntError> {
    match step {
        Err(error) => Err(error),
        Ok(Progress::Pending) => Err(insufficient),
        Ok(Progress::Ready(value)) => Ok(value),
    }
}

const CHUNKS: [&str; 10] =
    ["", "0", "ff", "ff ", " ff", "deadbeef", "fffffffff", "12,34", "g", "ffffffffzz"];

#[test]
fn parse_is_a_step_with_pending_rejected() {
    for chunk in CHUNKS {
        let mut stepped: ParseInt = hex().build_parser();
        let mut parsed: ParseInt = hex().build_parser();
        let step = stepped.try_parse(chunk);
        assert_eq!(parsed.parse(chunk), reject_pending(step, stepped.insufficient()));
        assert_eq!(hex().parse_one(chunk), reject_pending(step, stepped.insufficient()));
    }
}

#[test]
fn parse_only_is_parse_with_leftover_refused() {
    for chunk in CHUNKS {
        let mut lenient: ParseInt = hex().build_parser();
        let mut strict: ParseInt = hex().build_parser();
        let expected: Result<u32, ParseIntError> = match lenient.parse(chunk) {
            Err(error) => Err(error),
            Ok((output, "")) => Ok(output),
            Ok((_, rest)) => Err(lenient.extraneous(rest)),
        };
        assert_eq!(strict.parse_only(chunk), expected);
        assert_eq!(hex().parse_one_only(chunk), expected);
    }
}

#[test]
fn try_parse_only_is_a_step_with_leftover_refused() {
    for chunk in CHUNKS {
        let mut stepped: ParseInt = hex().build_parser();
        let mut strict: ParseInt = hex().build_parser();
        let expected: Result<Progress<u32>, ParseIntError> = match stepped.try_parse(chunk) {
            Err(error) => Err(error),
            Ok(Progress::Pending) => Ok(Progress::Pending),
            Ok(Progress::Ready((output, ""))) => Ok(Progress::Ready(output)),
            Ok(Progress::Ready((_, rest))) => Err(stepped.extraneous(rest)),
        };
        assert_eq!(strict.try_parse_only(chunk), expected);
    }
}

#[test]
fn leftover_is_empty_when_the_whole_chunk_was_read() {
    for chunk in CHUNKS {
        let mut parser: ParseInt = hex().build_parser();
        if let Ok(Progress::Ready((_, rest))) = parser.try_parse(chunk) {
            let read: usize = chunk.len() - rest.len();
            assert!(chunk.ends_with(rest));
            assert!(read > 0);
            assert!(chunk[..read].chars().all(|c| c.is_ascii_hexdigit()));
            assert_eq!(rest.is_empty(), read == chunk.len());
            assert_eq!(rest == <&str>::default(), read == chunk.len());
        }
    }
}

#[test]
fn parsers_of_one_builder_are_independent() {
    let builder: ParseRadix = hex();
    let mut first: ParseInt = builder.build_parser();
    let mut second: ParseInt = builder.build_parser();
    for chunk in CHUNKS {
        assert_eq!(first.try_parse(chunk), second.try_parse(chunk));
    }
    let mut third: ParseInt = builder.build_parser();
    assert_eq!(first.try_parse("fffffffff"), Err(ParseIntError::Overflow));
    assert_eq!(third.try_parse("1"), Ok(Progress::Ready((1, ""))));
    let mut fourth: ParseInt = builder.build_parser();
    assert_eq!(fourth.try_parse("1"), Ok(Progress::Ready((1, ""))));
}

#[test]
fn pending_comes_with_nothing() {
    let mut parser: ParseInt = hex().build_parser();
    assert_eq!(parser.try_parse(""), Ok(Progress::Pending));
    assert_eq!(parser.try_parse_only(""), Ok(Progress::Pending));
    assert_eq!(parser.parse(""), Err(ParseIntError::Empty));
    assert_eq!(parser.parse_only(""), Err(ParseIntError::Empty));
}
