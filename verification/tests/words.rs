use figgie_auto::player::external::read_reply;
use figgie_auto::words::{command_words, is_white_space, trim};

#[test]
fn white_space_is_that_of_unicode() {
    for n in 0..=0x10FFFFu32 {
        if let Some(c) = char::from_u32(n) {
            assert_eq!(is_white_space(c), c.is_whitespace(), "{:?}", c);
        }
    }
}

#[test]
fn command_lines_are_cut_into_words() {
    assert_eq!(command_words("python3 bot.py --fast"), vec!["python3", "bot.py", "--fast"]);
    assert_eq!(command_words("  a\t\tb\u{3000}c\n"), vec!["a", "b", "c"]);
    assert_eq!(command_words("añb"), vec!["añb"]);
    assert!(command_words("").is_empty());
    assert!(command_words(" \t\u{a0}").is_empty());
    for text in ["x", " x", "x ", "x y", " x  yy \r\n z", "\u{2003}é\u{85}ü "] {
        let expected: Vec<&str> = text.split_whitespace().collect();
        assert_eq!(command_words(text), expected);
        assert_eq!(command_words(text).concat(), expected.concat());
    }
}

#[test]
fn texts_are_trimmed_at_both_ends() {
    for text in ["", " ", "x", " x y \n", "\u{2003}é\u{85}", "x\r\n"] {
        assert_eq!(trim(text), text.trim());
        assert_eq!(trim(&trim(text)), text.trim());
    }
}

#[test]
fn replies_are_read_with_white_space_around() {
    let order = read_reply(" \t{\"action\":\"bid\",\"suit\":\"D\",\"price\":31}\r\n").unwrap();
    assert_eq!(order.price, 31);
    assert!(read_reply("\n").is_none());
    assert!(read_reply("{\"action\":\"pass\"}\n").is_none());
}
