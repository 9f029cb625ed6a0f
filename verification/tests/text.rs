use slurm_job_monitor::command::string_of;
use slurm_job_monitor::number::{parse_unsigned, to_decimal, to_signed_decimal, IntError};
use slurm_job_monitor::text::{
    chars_of, contains, find_containing, find_starting, is_whitespace, remove_spaces, same_text,
    split_lines, split_words, starts_with,
};

const SAMPLES: [&str; 22] = [
    "",
    "\n",
    "a",
    "a\n",
    "a\r\n",
    "a\r",
    "\r\n",
    "\r",
    "\n\n",
    "a\n\nb",
    "a\r\r\nb\n",
    " a  b\tc ",
    "PID JOBID STEPID\n12 7 batch\n",
    "\u{3000}x\u{85}y\u{a0}z\u{2003}",
    "\u{feff}bom \u{200b}zero width",
    "tail\r\nlast\r",
    "one\u{2028}line",
    "\u{c}\u{b}form",
    "  ",
    "inactive_file 5\nx",
    "caf\u{e9} \u{1f600}\n",
    "no newline at all",
];

fn text(list: Vec<Vec<char>>) -> Vec<String> {
    list.iter().map(|line| line.iter().collect()).collect()
}

#[test]
fn whitespace_is_that_of_unicode() {
    for n in 0..=0x10ffffu32 {
        if let Some(c) = char::from_u32(n) {
            assert_eq!(is_whitespace(c), c.is_whitespace(), "{:x}", n);
        }
    }
}

#[test]
fn characters_and_strings() {
    for s in SAMPLES {
        assert_eq!(chars_of(s), s.chars().collect::<Vec<char>>());
        assert_eq!(string_of(&chars_of(s)), s);
    }
}

#[test]
fn lines_are_split_as_by_the_standard_library() {
    for s in SAMPLES {
        assert_eq!(text(split_lines(&chars_of(s))), s.lines().collect::<Vec<_>>(), "{:?}", s);
    }
}

#[test]
fn words_are_split_as_by_the_standard_library() {
    for s in SAMPLES {
        let wanted = s.split_whitespace().collect::<Vec<_>>();
        assert_eq!(text(split_words(&chars_of(s))), wanted, "{:?}", s);
    }
}

#[test]
fn spaces_are_removed() {
    for s in SAMPLES {
        let mut wanted = s.to_string();
        wanted.retain(|c| !c.is_whitespace());
        assert_eq!(string_of(&remove_spaces(&chars_of(s))), wanted);
    }
}

#[test]
fn substrings_are_found() {
    for s in SAMPLES {
        for part in ["", "a", "a\n", "PID", "JOBID STEPID", "x\u{85}", "zz", "no newline at all!"] {
            let (whole, piece) = (chars_of(s), chars_of(part));
            assert_eq!(contains(&whole, &piece), s.contains(part));
            assert_eq!(starts_with(&whole, &piece), s.starts_with(part));
            assert_eq!(same_text(&whole, &piece), s == part);
        }
    }
}

#[test]
fn lines_are_found() {
    let rows = split_lines(&chars_of("ab\nxaby\nabc\n"));
    assert_eq!(find_starting(&rows, &chars_of("ab")), Some(0));
    assert_eq!(find_starting(&rows, &chars_of("abc")), Some(2));
    assert_eq!(find_starting(&rows, &chars_of("b")), None);
    assert_eq!(find_containing(&rows, &chars_of("aby")), Some(1));
    assert_eq!(find_containing(&rows, &chars_of("b")), Some(0));
    assert_eq!(find_containing(&rows, &chars_of("z")), None);
}

#[test]
fn two_words_stay_two_words() {
    let words = split_words(&chars_of("usage_usec 17"));
    assert_eq!(text(words), vec!["usage_usec", "17"]);
}

fn numerals() -> Vec<String> {
    let mut list: Vec<String> = vec![
        "", "0", "7", "00012", "+", "-", "+5", "++5", "-5", "-0", "+-5", " 5", "5 ", "5a", "a5",
        "255", "256", "+255", "2550", "65535", "65536", "4294967295", "4294967296", "42949672960",
        "18446744073709551615", "18446744073709551616", "184467440737095516150", "\u{663}",
        "99999999999999999999x", "25x", "256x", "25\u{663}", "1_000", "0x10", "1.5",
    ]
    .into_iter()
    .map(|s| s.to_string())
    .collect();
    for n in 0..300u32 {
        list.push(n.to_string());
    }
    list
}

#[test]
fn numbers_are_parsed_as_by_the_standard_library() {
    for s in numerals() {
        let chars = chars_of(&s);
        let cases: Vec<(u64, Result<u64, String>)> = vec![
            (u8::MAX as u64, s.parse::<u8>().map(u64::from).map_err(|e| e.to_string())),
            (u16::MAX as u64, s.parse::<u16>().map(u64::from).map_err(|e| e.to_string())),
            (u32::MAX as u64, s.parse::<u32>().map(u64::from).map_err(|e| e.to_string())),
            (u64::MAX, s.parse::<u64>().map_err(|e| e.to_string())),
            (usize::MAX as u64, s.parse::<usize>().map(|n| n as u64).map_err(|e| e.to_string())),
        ];
        for (max, wanted) in cases {
            let found = parse_unsigned(&chars, max).map_err(|e| e.message());
            assert_eq!(found, wanted, "{:?} up to {}", s, max);
        }
    }
}

#[test]
fn each_number_error() {
    assert_eq!(parse_unsigned(&chars_of(""), 9), Err(IntError::Empty));
    assert_eq!(parse_unsigned(&chars_of("x"), 9), Err(IntError::InvalidDigit));
    assert_eq!(parse_unsigned(&chars_of("10"), 9), Err(IntError::PosOverflow));
    assert_eq!(parse_unsigned(&chars_of("9"), 9), Ok(9));
}

#[test]
fn numbers_are_written_and_read_back() {
    for n in [0, 1, 9, 10, 19, 100, 12345678901234567890, u64::MAX - 1, u64::MAX] {
        let s = to_decimal(n);
        assert_eq!(s, n.to_string());
        assert_eq!(parse_unsigned(&chars_of(&s), u64::MAX), Ok(n));
    }
    for n in [0, 1, -1, -10, 255, i32::MAX, i32::MIN] {
        assert_eq!(to_signed_decimal(n), n.to_string());
    }
}
