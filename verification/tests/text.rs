use saba_core::text::{
    chars_of, find, find_blank_line, folded_line_ends, is_ascii_alphabetic, is_ascii_uppercase,
    parse_u32, slice_of, split_at_each, string_from, string_of, to_ascii_lowercase, trimmed,
    trimmed_start,
};

fn v(s: &str) -> Vec<char> {
    s.chars().collect()
}

const SAMPLES: [&str; 16] = [
    "",
    " ",
    "a",
    " a ",
    "\t\n a b \r\n",
    "\u{3000}x\u{a0}",
    "a:b:c",
    ":",
    "::",
    "\n\r",
    "\n\r\r",
    "\n\n\r\n",
    "a\n\nb",
    "+12",
    "été ",
    "x y  z",
];

#[test]
fn ascii_classes_agree_with_std() {
    let mut code: u32 = 0;
    while code <= 0x10ffff {
        if let Some(c) = char::from_u32(code) {
            assert_eq!(is_ascii_uppercase(c), c.is_ascii_uppercase());
            assert_eq!(is_ascii_alphabetic(c), c.is_ascii_alphabetic());
            assert_eq!(to_ascii_lowercase(c), c.to_ascii_lowercase());
        }
        code += if code < 0x400 { 1 } else { 0x3f };
    }
    assert_eq!(to_ascii_lowercase('A'), 'a');
    assert_eq!(to_ascii_lowercase('Z'), 'z');
    assert_eq!(to_ascii_lowercase('@'), '@');
    assert_eq!(to_ascii_lowercase('['), '[');
    assert_eq!(to_ascii_lowercase('É'), 'É');
}

#[test]
fn characters_and_strings_convert_both_ways() {
    for s in SAMPLES {
        assert_eq!(chars_of(s), v(s));
        assert_eq!(string_from(&v(s)), s);
    }
    let text = v("héllo");
    assert_eq!(string_of(&text, 1, 4), "éll");
    assert_eq!(string_of(&text, 2, 2), "");
    assert_eq!(slice_of(&text, 0, 2), v("hé"));
    assert_eq!(slice_of(&text, 5, 5), v(""));
}

#[test]
fn find_agrees_with_std() {
    for s in SAMPLES {
        for c in [':', ' ', '\n', 'a', 'é'] {
            let expected = s.chars().position(|d| d == c).unwrap_or(s.chars().count());
            assert_eq!(find(&v(s), c), expected, "{:?} {:?}", s, c);
        }
    }
    assert_eq!(find(&v("ab:c:"), ':'), 2);
    assert_eq!(find(&v("abc"), ':'), 3);
}

#[test]
fn split_agrees_with_std() {
    for s in SAMPLES {
        for c in [':', ' ', '\n'] {
            let expected: Vec<Vec<char>> = s.split(c).map(v).collect();
            assert_eq!(split_at_each(&v(s), c), expected, "{:?} {:?}", s, c);
        }
    }
    assert_eq!(split_at_each(&v("a  b "), ' '), vec![v("a"), v(""), v("b"), v("")]);
    assert_eq!(split_at_each(&v(""), ' '), vec![v("")]);
}

#[test]
fn trimming_agrees_with_std() {
    for s in SAMPLES {
        assert_eq!(trimmed_start(&v(s)), v(s.trim_start()), "{:?}", s);
        assert_eq!(trimmed(&v(s)), v(s.trim()), "{:?}", s);
    }
    assert_eq!(trimmed(&v(" \t a b \n")), v("a b"));
    assert_eq!(trimmed_start(&v(" \t a b \n")), v("a b \n"));
    assert_eq!(trimmed(&v(" \u{2028}\u{85}")), v(""));
}

#[test]
fn folding_line_ends_agrees_with_std() {
    for s in SAMPLES {
        assert_eq!(folded_line_ends(&v(s)), v(&s.replace("\n\r", "\n")), "{:?}", s);
    }
    assert_eq!(folded_line_ends(&v("a\n\rb\r\nc\n\r\n\r")), v("a\nb\r\nc\n\n"));
    assert_eq!(folded_line_ends(&v("\n\r\r")), v("\n\r"));
    assert_eq!(folded_line_ends(&v("\n")), v("\n"));
}

#[test]
fn blank_line_is_found_at_its_first_place() {
    for s in SAMPLES {
        let expected = s.find("\n\n").map(|b| s[..b].chars().count()).unwrap_or(s.chars().count());
        assert_eq!(find_blank_line(&v(s)), expected, "{:?}", s);
    }
    assert_eq!(find_blank_line(&v("a\n\n\nb\n\n")), 1);
    assert_eq!(find_blank_line(&v("a\nb\n")), 4);
    assert_eq!(find_blank_line(&v("\n")), 1);
    assert_eq!(find_blank_line(&v("é\n\n")), 1);
}

#[test]
fn decimal_numbers_agree_with_std() {
    let texts = [
        "", "+", "-", "0", "+0", "-0", "00", "1", "+1", "++1", "+-1", "12a", "a12", " 12", "12 ",
        "1_000", "4294967295", "4294967296", "+4294967295", "42949672950", "429496729",
        "99999999999999999999999", "0x10", "١٢", "１２", "1.0", "1e3",
    ];
    for s in texts {
        assert_eq!(parse_u32(&v(s)), s.parse::<u32>().ok(), "{:?}", s);
    }
    for s in SAMPLES {
        assert_eq!(parse_u32(&v(s)), s.parse::<u32>().ok(), "{:?}", s);
    }
    let mut n: u64 = 0;
    while n < 5_000_000_000 {
        let s = n.to_string();
        assert_eq!(parse_u32(&v(&s)), s.parse::<u32>().ok(), "{:?}", s);
        n = n * 3 + 7;
    }
    assert_eq!(parse_u32(&v("200")), Some(200));
    assert_eq!(parse_u32(&v("+404")), Some(404));
    assert_eq!(parse_u32(&v("4294967295")), Some(u32::MAX));
    assert_eq!(parse_u32(&v("4294967296")), None);
}

#[test]
fn ascii_white_space_is_the_space_and_tab_to_carriage_return() {
    for code in 0u8..0x80 {
        let c = code as char;
        let expected = c == ' ' || ('\t' <= c && c <= '\r');
        assert_eq!(c.is_whitespace(), expected, "{:?}", c);
        let text = vec![c, 'x', c];
        let kept = if expected { vec!['x'] } else { text.clone() };
        assert_eq!(trimmed(&text), kept, "{:?}", c);
    }
}
