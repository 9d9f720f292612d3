use klyppd::text::{lines_of_str, parse_u64_chars, trim_str};

fn chars(s: &str) -> Vec<char> {
    s.chars().collect()
}

fn strings(v: Vec<Vec<char>>) -> Vec<String> {
    v.into_iter().map(|c| c.into_iter().collect()).collect()
}

#[test]
fn parses_unsigned_integers_like_std() {
    for s in ["0", "42", "+7", "18446744073709551615", "", "+", "-1", "1 ", "18446744073709551616", "0x10", "007"] {
        assert_eq!(parse_u64_chars(&chars(s)), s.parse::<u64>().ok(), "input {s:?}");
    }
}

#[test]
fn trims_unicode_whitespace_like_std() {
    for s in ["  a b  ", "\u{3000}x\u{2029}", "\t\r\n", "", "\u{85}y\u{a0}", "z"] {
        let t: String = trim_str(s).into_iter().collect();
        assert_eq!(t, s.trim(), "input {s:?}");
    }
}

#[test]
fn splits_lines_like_std() {
    for s in ["a\nb", "a\r\nb\r\n", "\n", "", "x\r", "a\n\nb\n", "\r\n\r\n"] {
        let got = strings(lines_of_str(s));
        let want: Vec<String> = s.lines().map(String::from).collect();
        assert_eq!(got, want, "input {s:?}");
    }
}
