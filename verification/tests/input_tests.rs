use minesweeper::text::{chars_of, is_whitespace, parse_number, remove_char, split_words};
use minesweeper::command::{
    parse_coordinate, KEY_DOWN, KEY_FLAG, KEY_LEFT, KEY_REVEAL, KEY_RIGHT, KEY_UP,
};
use minesweeper::{
    decode_key, decode_move, parse_difficulty_input, Command, Difficulty, Direction,
    GridDimensions,
};

fn chars(s: &str) -> Vec<char> {
    s.chars().collect()
}

fn words(s: &str) -> Vec<String> {
    split_words(&chars(s)).iter().map(|w| w.iter().collect()).collect()
}

#[test]
fn difficulty_from_a_digit() {
    assert_eq!(parse_difficulty_input("1\n"), Some(Difficulty::Easy));
    assert_eq!(parse_difficulty_input("2\n"), Some(Difficulty::Medium));
    assert_eq!(parse_difficulty_input("3\n"), Some(Difficulty::Hard));
    assert_eq!(
        parse_difficulty_input("4\n"),
        Some(Difficulty::Custom(GridDimensions::new(4, 4)))
    );
}

#[test]
fn difficulty_without_a_line_feed() {
    assert_eq!(parse_difficulty_input("1"), Some(Difficulty::Easy));
    assert_eq!(parse_difficulty_input("\n\n3\n\n"), Some(Difficulty::Hard));
    assert_eq!(parse_difficulty_input("0\n2"), Some(Difficulty::Medium));
}

#[test]
fn difficulty_with_sign_or_leading_zeros() {
    assert_eq!(parse_difficulty_input("+1\n"), Some(Difficulty::Easy));
    assert_eq!(parse_difficulty_input("002\n"), Some(Difficulty::Medium));
}

#[test]
fn difficulty_from_anything_else_is_none() {
    for line in [
        "", "\n", "0\n", "5\n", "12\n", " 1\n", "1 \n", "1\r\n", "-1\n", "one\n", "1.0\n", "+\n",
        "++1\n", "1+\n", "99999999999999999999999999999999\n", "\u{661}\n",
    ] {
        assert_eq!(parse_difficulty_input(line), None);
    }
}

#[test]
fn keys_are_the_letters_of_the_editor() {
    assert_eq!((KEY_LEFT, KEY_DOWN, KEY_UP, KEY_RIGHT), (b'h', b'j', b'k', b'l'));
    assert_eq!((KEY_REVEAL, KEY_FLAG), (b' ', b'f'));
}

#[test]
fn keys_decode_to_commands() {
    assert_eq!(decode_key(&[104]), Some(Command::MoveCursor(Direction::Left)));
    assert_eq!(decode_key(&[106]), Some(Command::MoveCursor(Direction::Down)));
    assert_eq!(decode_key(&[107]), Some(Command::MoveCursor(Direction::Up)));
    assert_eq!(decode_key(&[108]), Some(Command::MoveCursor(Direction::Right)));
    assert_eq!(decode_key(&[32]), Some(Command::RevealAtCursor));
    assert_eq!(decode_key(&[102]), Some(Command::ToggleFlagAtCursor));
}

#[test]
fn only_the_first_byte_of_a_key_counts() {
    assert_eq!(decode_key(&[104, 106]), Some(Command::MoveCursor(Direction::Left)));
    assert_eq!(decode_key(&[0, 104]), None);
}

#[test]
fn other_keys_decode_to_nothing() {
    assert_eq!(decode_key(&[]), None);
    for key in 0..=255u8 {
        if ![104, 106, 107, 108, 32, 102].contains(&key) {
            assert_eq!(decode_key(&[key]), None);
        }
    }
}

#[test]
fn lines_decode_to_commands() {
    assert_eq!(decode_move("1 2\n"), Some(Command::Reveal(1, 2)));
    assert_eq!(decode_move("f 3 4\n"), Some(Command::ToggleFlag(3, 4)));
    assert_eq!(decode_move("flag 3 4\n"), Some(Command::ToggleFlag(3, 4)));
    assert_eq!(decode_move("f1 3 4\n"), Some(Command::ToggleFlag(3, 4)));
    assert_eq!(decode_move("r\n"), Some(Command::RevealAll));
    assert_eq!(decode_move("  r  \n"), Some(Command::RevealAll));
    assert_eq!(decode_move("r 1 2\n"), Some(Command::RevealAll));
    assert_eq!(decode_move("\t10\u{a0}200\u{3000}x"), Some(Command::Reveal(10, 200)));
    assert_eq!(decode_move("0 0"), Some(Command::Reveal(0, 0)));
}

#[test]
fn lines_decode_the_largest_coordinates() {
    let line = format!("{} {}", usize::MAX, usize::MAX);
    assert_eq!(decode_move(&line), Some(Command::Reveal(usize::MAX, usize::MAX)));
    let line = format!("{}0 1", usize::MAX);
    assert_eq!(decode_move(&line), None);
    let line = format!("1 {}0", usize::MAX);
    assert_eq!(decode_move(&line), None);
}

#[test]
fn lines_decode_hyphens_away() {
    assert_eq!(decode_move("-1 2-"), Some(Command::Reveal(1, 2)));
    assert_eq!(decode_move("1-0 --2"), Some(Command::Reveal(10, 2)));
    assert_eq!(decode_move("f -+1 +-2"), Some(Command::ToggleFlag(1, 2)));
    assert_eq!(decode_move("f +-+1 2"), None);
    assert_eq!(decode_move("f +-1 +2"), Some(Command::ToggleFlag(1, 2)));
    assert_eq!(decode_move("- 2"), None);
}

#[test]
fn lines_that_lack_words_or_numbers_decode_to_nothing() {
    for line in [
        "", "\n", " \t ", "1", "f", "f 1", "rr", "ra 1 2", "x 1 2", "1 x", "x 1", "1,2", "f x 2",
        "f 1 x", "F 1 2", "1 2.0", "+ 1", "1 ++2",
    ] {
        assert_eq!(decode_move(line), None);
    }
}

#[test]
fn coordinates_are_numbers_without_hyphens() {
    assert_eq!(parse_coordinate(&chars("12")), Some(12));
    assert_eq!(parse_coordinate(&chars("-1-2-")), Some(12));
    assert_eq!(parse_coordinate(&chars("+7")), Some(7));
    assert_eq!(parse_coordinate(&chars("-")), None);
    assert_eq!(parse_coordinate(&chars("")), None);
    assert_eq!(parse_coordinate(&chars("1a")), None);
}

#[test]
fn numbers_are_decimal() {
    assert_eq!(parse_number(&chars("0")), Some(0));
    assert_eq!(parse_number(&chars("7")), Some(7));
    assert_eq!(parse_number(&chars("405")), Some(405));
    assert_eq!(parse_number(&chars("000405")), Some(405));
    assert_eq!(parse_number(&chars("+405")), Some(405));
    assert_eq!(parse_number(&chars("1234567890")), Some(1234567890));
}

#[test]
fn numbers_up_to_the_largest_fit() {
    assert_eq!(parse_number(&chars(&usize::MAX.to_string())), Some(usize::MAX));
    assert_eq!(parse_number(&chars(&format!("+000{}", usize::MAX))), Some(usize::MAX));
    let over = (usize::MAX as u128 + 1).to_string();
    assert_eq!(parse_number(&chars(&over)), None);
    assert_eq!(parse_number(&chars(&format!("{}0", usize::MAX))), None);
    assert_eq!(parse_number(&chars(&format!("{}x", over))), None);
}

#[test]
fn numbers_need_digits_only() {
    for s in ["", "+", "-1", "1-", "++1", "1+", " 1", "1 ", "1_000", "0x10", "1e3", "١", "٣"] {
        assert_eq!(parse_number(&chars(s)), None);
    }
}

#[test]
fn numbers_agree_with_the_standard_reading() {
    for s in [
        "0", "1", "+1", "-1", "", "+", "00", "18446744073709551615", "18446744073709551616",
        "4294967295", "4294967296", "12a", "a12", "1 2", "+-1", "٣",
    ] {
        assert_eq!(parse_number(&chars(s)), s.parse::<usize>().ok());
    }
}

#[test]
fn remove_char_takes_every_occurrence() {
    assert_eq!(remove_char(&chars("-1-2--3-"), '-'), chars("123"));
    assert_eq!(remove_char(&chars("abc"), '-'), chars("abc"));
    assert_eq!(remove_char(&chars("---"), '-'), chars(""));
    assert_eq!(remove_char(&chars(""), '-'), chars(""));
    assert_eq!(remove_char(&chars("a\nb\n"), '\n'), chars("ab"));
}

#[test]
fn chars_of_a_string() {
    assert_eq!(chars_of(""), Vec::<char>::new());
    assert_eq!(chars_of("f 1 2\n"), vec!['f', ' ', '1', ' ', '2', '\n']);
    assert_eq!(chars_of("é💣"), vec!['é', '💣']);
}

#[test]
fn words_are_runs_between_spaces() {
    assert_eq!(words("f 1 2"), vec!["f", "1", "2"]);
    assert_eq!(words("  f   1\t2 \n"), vec!["f", "1", "2"]);
    assert_eq!(words("one"), vec!["one"]);
    assert_eq!(words("a b"), vec!["a", "b"]);
    assert_eq!(words("ab  cd"), vec!["ab", "cd"]);
    assert_eq!(words(""), Vec::<String>::new());
    assert_eq!(words(" \n\t "), Vec::<String>::new());
    assert_eq!(words("x "), vec!["x"]);
    assert_eq!(words(" x"), vec!["x"]);
}

#[test]
fn words_agree_with_the_standard_split() {
    for s in [
        "", " ", "a", " a", "a ", "a b", "a  b", "\ta\nb\r\nc\u{b}d\u{c}e", "1\u{a0}2",
        "1\u{85}2\u{1680}3", "a\u{2000}b\u{200a}c\u{2028}d\u{2029}e\u{202f}f\u{205f}g\u{3000}h",
        "a\u{200b}b", "a\u{180e}b", "a\u{feff}b", "a\u{1f}b", "f 10 20 30\n",
    ] {
        let standard: Vec<String> = s.split_whitespace().map(|w| w.to_string()).collect();
        assert_eq!(words(s), standard);
    }
}

#[test]
fn spaces_are_the_white_space_characters() {
    for n in 0..=0x3100u32 {
        if let Some(c) = char::from_u32(n) {
            assert_eq!(is_whitespace(c), c.is_whitespace());
        }
    }
    assert!(!is_whitespace('💣'));
    assert!(!is_whitespace(char::MAX));
}
