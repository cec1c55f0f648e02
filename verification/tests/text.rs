use rush_hour::lexer::{blank_end, chars_of, is_white_space, slice_of, split_words, word_end};
use rush_hour::number::parse_number;

fn chars(s: &str) -> Vec<char> {
    s.chars().collect()
}

fn words(s: &str) -> Vec<String> {
    split_words(&chars(s))
        .into_iter()
        .map(|w| w.into_iter().collect::<String>())
        .collect()
}

#[test]
fn white_space_is_the_unicode_property() {
    for u in 0..=0x10FFFFu32 {
        if let Some(c) = char::from_u32(u) {
            assert_eq!(c.is_whitespace(), is_white_space(c), "U+{:04X}", u);
        }
    }
}

#[test]
fn chars_of_keeps_every_character() {
    assert_eq!(chars_of(""), Vec::<char>::new());
    assert_eq!(chars_of("0 1 vertical 3"), chars("0 1 vertical 3"));
    assert_eq!(chars_of("é\u{3000}x"), vec!['é', '\u{3000}', 'x']);
}

#[test]
fn blank_end_and_word_end_find_the_boundaries() {
    let line = chars("  ab \tc");
    assert_eq!(blank_end(&line, 0), 2);
    assert_eq!(blank_end(&line, 2), 2);
    assert_eq!(word_end(&line, 2), 4);
    assert_eq!(word_end(&line, 4), 4);
    assert_eq!(blank_end(&line, 4), 6);
    assert_eq!(word_end(&line, 6), 7);
    assert_eq!(blank_end(&line, 7), 7);
    assert_eq!(word_end(&line, 7), 7);
}

#[test]
fn slice_of_copies_the_range() {
    let line = chars("abcdef");
    assert_eq!(slice_of(&line, 1, 4), chars("bcd"));
    assert_eq!(slice_of(&line, 3, 3), Vec::<char>::new());
    assert_eq!(slice_of(&line, 0, 6), line);
}

#[test]
fn split_words_on_plain_lines() {
    assert_eq!(words("0 1 horizontal 3"), vec!["0", "1", "horizontal", "3"]);
    assert_eq!(words("  0\t1   vertical \r 3  "), vec!["0", "1", "vertical", "3"]);
    assert_eq!(words("one"), vec!["one"]);
    assert_eq!(words(""), Vec::<String>::new());
    assert_eq!(words(" \t \u{a0}\u{2003}"), Vec::<String>::new());
    assert_eq!(words("a\u{3000}b\u{85}c"), vec!["a", "b", "c"]);
}

#[test]
fn split_words_agrees_with_the_standard_library() {
    let samples = [
        "",
        " ",
        "a",
        " a",
        "a ",
        "1 2 horizontal 3",
        "1  2\thorizontal\u{b}3\u{c}",
        "# a comment line",
        "\u{1680}x\u{2000}y\u{200a}z\u{2028}\u{2029}w\u{202f}v\u{205f}u",
        "\u{200b}zero-width is no space\u{feff}",
        "\u{180e}mongolian vowel separator",
        "tab\tnew\nline\rreturn",
    ];
    for s in samples {
        let expected: Vec<String> = s.split_whitespace().map(String::from).collect();
        assert_eq!(expected, words(s), "{:?}", s);
    }
}

#[test]
fn parse_number_reads_every_u8() {
    for n in 0..=255u32 {
        assert_eq!(parse_number(&chars(&n.to_string())), Some(n as u8));
        assert_eq!(parse_number(&chars(&format!("+{}", n))), Some(n as u8));
        assert_eq!(parse_number(&chars(&format!("000{}", n))), Some(n as u8));
    }
}

#[test]
fn parse_number_refuses_what_does_not_fit() {
    for n in 256..=70000u32 {
        assert_eq!(parse_number(&chars(&n.to_string())), None);
    }
    assert_eq!(parse_number(&chars("4294967296")), None);
    assert_eq!(parse_number(&chars("99999999999999999999999999999999")), None);
    assert_eq!(parse_number(&chars("0000000000000000000000000000000255")), Some(255));
    assert_eq!(parse_number(&chars("0000000000000000000000000000000256")), None);
}

#[test]
fn parse_number_refuses_what_is_no_number() {
    for s in ["", "+", "-", "-1", "-0", "++1", "+-1", "1+", "1 ", " 1", "1_0", "0x10", "a",
        "12a", "a12", "1.0", "١", "１", "²", "#"]
    {
        assert_eq!(parse_number(&chars(s)), None, "{:?}", s);
    }
}

#[test]
fn parse_number_agrees_with_the_standard_library() {
    let alphabet = ['0', '1', '2', '5', '9', '+', '-', ' ', 'a', '６'];
    let mut texts: Vec<String> = vec![String::new()];
    let mut from = 0;
    for _ in 0..4 {
        let upto = texts.len();
        for i in from..upto {
            for c in alphabet {
                let mut t = texts[i].clone();
                t.push(c);
                texts.push(t);
            }
        }
        from = upto;
    }
    assert_eq!(texts.len(), 1 + 10 + 100 + 1000 + 10000);
    for t in &texts {
        assert_eq!(t.parse::<u8>().ok(), parse_number(&chars(t)), "{:?}", t);
    }
}
