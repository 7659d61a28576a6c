use chessy::text::{parse_i32, parse_u8, push_decimal, split_words, str_eq};

fn chars(s: &str) -> Vec<char> {
    s.chars().collect()
}

#[test]
fn numbers_parse_as_std_parses_them() {
    for s in ["0", "7", "+7", "255", "256", "", "+", "-1", "12a", "007"] {
        assert_eq!(parse_u8(&chars(s)), s.parse::<u8>().ok(), "u8 {s:?}");
    }
    for s in ["0", "-0", "+15", "-35", "2147483647", "2147483648", "-2147483648", "-2147483649", "-", "x1", ""] {
        assert_eq!(parse_i32(&chars(s)), s.parse::<i32>().ok(), "i32 {s:?}");
    }
}

#[test]
fn decimals_are_written_without_leading_zeros() {
    let mut out = vec!['x'];
    push_decimal(&mut out, 0);
    push_decimal(&mut out, 1905);
    assert_eq!(out.iter().collect::<String>(), "x01905");
    let mut out = Vec::new();
    push_decimal(&mut out, u64::MAX);
    assert_eq!(out.iter().collect::<String>(), u64::MAX.to_string());
}

#[test]
fn words_split_as_split_whitespace() {
    for s in ["", "   ", "a", " info  depth\t3 \n", "x y z"] {
        let got: Vec<String> = split_words(&chars(s)).iter().map(|w| w.iter().collect()).collect();
        let want: Vec<String> = s.split_whitespace().map(|w| w.to_string()).collect();
        assert_eq!(got, want);
    }
}

#[test]
fn strings_compare_by_their_characters() {
    assert!(str_eq("FEN", "FEN"));
    assert!(!str_eq("FEN", "Fen"));
    assert!(!str_eq("FEN", "FENs"));
    assert!(str_eq("", ""));
}
