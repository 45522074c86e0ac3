use serverscope::text::{
    chars_of, find_char, parse_u64_chars, replace_commas, split_lines, split_whitespace, trimmed,
};

fn to_strings(parts: &[Vec<char>]) -> Vec<String> {
    parts.iter().map(|p| p.iter().collect()).collect()
}

const SAMPLES: &[&str] = &[
    "",
    "\n",
    "\n\n",
    "a",
    "a\n",
    "a\nb",
    "a\r\nb\r\n",
    "foo\r\nbar\n\nbaz\r",
    "  lead and trail  ",
    "\ttabs\tand\u{a0}nbsp\u{3000}ideographic ",
    "x\u{85}y\u{2028}z\u{200b}w",
    "Mem:  15986  2345  9000",
    "\r",
    "\r\n\r\n",
    "one  two   three\n four\r\n",
];

#[test]
fn split_lines_matches_str_lines() {
    for s in SAMPLES {
        let cs = chars_of(s);
        let got = to_strings(&split_lines(&cs));
        let want: Vec<String> = s.lines().map(str::to_owned).collect();
        assert_eq!(got, want, "lines of {:?}", s);
    }
}

#[test]
fn split_whitespace_matches_str_split_whitespace() {
    for s in SAMPLES {
        let cs = chars_of(s);
        let got = to_strings(&split_whitespace(&cs));
        let want: Vec<String> = s.split_whitespace().map(str::to_owned).collect();
        assert_eq!(got, want, "fields of {:?}", s);
    }
}

#[test]
fn trimmed_matches_str_trim() {
    for s in SAMPLES {
        let cs = chars_of(s);
        let got: String = trimmed(&cs).iter().collect();
        assert_eq!(got, s.trim(), "trim of {:?}", s);
    }
}

#[test]
fn parse_u64_matches_str_parse() {
    let cases = [
        "", "+", "-", "0", "00", "+7", "-7", "42", "4 2", "18446744073709551615",
        "18446744073709551616", "99999999999999999999", "+18446744073709551615", "1.5", "12a",
        "++1", "٣",
    ];
    for s in cases {
        let cs = chars_of(s);
        assert_eq!(parse_u64_chars(&cs), s.parse::<u64>().ok(), "parse of {:?}", s);
    }
}

#[test]
fn find_char_finds_first() {
    assert_eq!(find_char(&chars_of("eth0: 1 2"), ':'), Some(4));
    assert_eq!(find_char(&chars_of("a:b:c"), ':'), Some(1));
    assert_eq!(find_char(&chars_of("abc"), ':'), None);
}

#[test]
fn replace_commas_gives_spaces() {
    let got: String = replace_commas(&chars_of("1.0 us,  2.0 sy,")).iter().collect();
    assert_eq!(got, "1.0 us   2.0 sy ");
}
