use ship_shape::text::{
    contains, cut_after_last, cut_before, eq_ignore_ascii_case, fill, from_chars, is_whitespace, parse_number,
    replace_char, same, split_at_char, split_lines, split_words, starts_with, to_chars, to_decimal, trim,
};

fn strings(list: Vec<&[char]>) -> Vec<String> {
    list.into_iter().map(|part| from_chars(part)).collect()
}

const SAMPLES: [&str; 12] = [
    "",
    " ",
    "a",
    "\u{2003}a b\u{a0}\t",
    "a\r\nb\r\n",
    "a\r\nb\r",
    "\n\n",
    "x\n\ny",
    "\r\n",
    "a.b..c.",
    "- abc  def\u{3000}ghi",
    "\u{1f600} \u{e9}",
];

#[test]
fn strings_survive_being_taken_apart() {
    for s in SAMPLES {
        assert_eq!(from_chars(&to_chars(s)), s);
    }
}

#[test]
fn white_space_is_what_unicode_says() {
    for n in 0..=0x10ffffu32 {
        if let Some(c) = char::from_u32(n) {
            assert_eq!(is_whitespace(c), c.is_whitespace());
        }
    }
}

#[test]
fn text_is_cut_like_the_standard_library_does() {
    for s in SAMPLES {
        let chars = to_chars(s);
        assert_eq!(from_chars(trim(&chars)), s.trim());
        assert_eq!(strings(split_lines(&chars)), s.lines().map(|l| l.to_string()).collect::<Vec<String>>());
        assert_eq!(strings(split_words(&chars)), s.split_whitespace().map(|w| w.to_string()).collect::<Vec<String>>());
        assert_eq!(strings(split_at_char(&chars, '.')), s.split('.').map(|p| p.to_string()).collect::<Vec<String>>());
        assert_eq!(from_chars(cut_before(&chars, 'b')), s.split('b').next().unwrap());
        assert_eq!(from_chars(cut_after_last(&chars, '.')), s.rsplit('.').next().unwrap());
    }
}

#[test]
fn text_is_found_where_it_stands() {
    for hay in SAMPLES {
        for needle in ["", "a", "b", "ab", "a b", "\r\n", "c.", "\n\n\n"] {
            let (h, n) = (to_chars(hay), to_chars(needle));
            assert_eq!(contains(&h, &n), hay.contains(needle));
            assert_eq!(starts_with(&h, &n), hay.starts_with(needle));
            assert_eq!(same(&h, &n), hay == needle);
        }
    }
}

#[test]
fn case_is_ignored_for_ascii_letters() {
    for (a, b) in [("aZ@[`{", "Az@[`{"), ("\u{e9}", "\u{c9}"), ("a", "b"), ("a", "ab"), ("@", "`")] {
        assert_eq!(eq_ignore_ascii_case(&to_chars(a), &to_chars(b)), a.eq_ignore_ascii_case(b));
    }
}

#[test]
fn numbers_read_like_the_standard_library_does() {
    for s in [
        "", "+", "-", "0", "-0", "+0", "00", "+007", "++1", "1 ", " 1", "1_0", "\u{663}", "18446744073709551615",
        "18446744073709551616", "+18446744073709551615", "99999999999999999999", "184467440737095516150", "12a",
    ] {
        assert_eq!(parse_number(&to_chars(s)), s.parse::<u64>().ok());
    }
}

#[test]
fn numbers_are_written_without_leading_zeros() {
    for n in [0u128, 9, 10, 99, 100, 1_000_000_000, u64::MAX as u128, u128::MAX] {
        assert_eq!(to_decimal(n), n.to_string());
    }
    assert_eq!(parse_number(&to_chars(&to_decimal(12_345))), Some(12_345));
}

#[test]
fn templates_are_filled_in_every_place() {
    for template in ["", "%s", "a%sb%sc", "%%s", "%%ss", "100% sure", "%", "s%"] {
        assert_eq!(fill(template, "<%s>"), template.replace("%s", "<%s>"));
    }
    assert_eq!(fill("Update to %s", "2.0"), "Update to 2.0");
}

#[test]
fn characters_are_replaced_everywhere() {
    assert_eq!(replace_char("a'b''", '\'', "xy"), "axybxyxy");
    assert_eq!(replace_char("", 'a', "b"), "");
    assert_eq!(replace_char("abc", 'b', ""), "ac");
}
