use net_topology::text::{
    chars_of, contains, fields, is_empty, is_whitespace, joined, lines, same_text, split, text_of,
    trim,
};

fn strings(items: &[&str]) -> Vec<String> {
    items.iter().map(|item| item.to_string()).collect()
}

#[test]
fn whitespace_is_what_std_calls_whitespace() {
    let mut c = '\0';
    loop {
        assert_eq!(is_whitespace(c), c.is_whitespace(), "U+{:04X}", c as u32);
        if c == char::MAX {
            break;
        }
        c = match char::from_u32(c as u32 + 1) {
            Some(next) => next,
            None => '\u{E000}',
        };
    }
}

#[test]
fn chars_of_keeps_every_character() {
    assert_eq!(chars_of("a-é:z"), vec!['a', '-', 'é', ':', 'z']);
    assert_eq!(chars_of(""), Vec::<char>::new());
}

#[test]
fn text_of_cuts_by_character_index() {
    let chars = chars_of("héllo wörld");
    assert_eq!(text_of(&chars, 0, 5), "héllo");
    assert_eq!(text_of(&chars, 6, 11), "wörld");
    assert_eq!(text_of(&chars, 3, 3), "");
}

#[test]
fn same_text_compares_characters() {
    assert!(same_text("", ""));
    assert!(same_text("eth0", "eth0"));
    assert!(!same_text("eth0", "eth1"));
    assert!(!same_text("eth", "eth0"));
    assert!(!same_text("eth0", "eth"));
    assert!(!same_text("ab", "ba"));
    assert!(same_text("wörld", "wörld"));
    assert!(!same_text("wörld", "world"));
}

#[test]
fn is_empty_and_joined() {
    assert!(is_empty(&String::new()));
    assert!(!is_empty(&" ".to_string()));
    assert_eq!(joined("10.0.0.1", ":80"), "10.0.0.1:80");
    assert_eq!(joined("", ""), "");
}

#[test]
fn split_gives_one_piece_more_than_separators() {
    assert_eq!(split("a,b", ','), strings(&["a", "b"]));
    assert_eq!(split("", ','), strings(&[""]));
    assert_eq!(split(",", ','), strings(&["", ""]));
    assert_eq!(split("a,,b,", ','), strings(&["a", "", "b", ""]));
    assert_eq!(split("no separator", ','), strings(&["no separator"]));
}

#[test]
fn split_agrees_with_std() {
    for text in ["", ",", "a", "a,b,c", ",a,", "10.0.0.0/8,fc00::/7", ",,,"] {
        let expected: Vec<String> = text.split(',').map(|part| part.to_string()).collect();
        assert_eq!(split(text, ','), expected, "{:?}", text);
    }
}

#[test]
fn fields_are_runs_between_white_space() {
    assert_eq!(fields("eth0  UP   10.0.0.1/24 fe80::1/64"), strings(&["eth0", "UP", "10.0.0.1/24", "fe80::1/64"]));
    assert_eq!(fields(""), Vec::<String>::new());
    assert_eq!(fields("   \t "), Vec::<String>::new());
    assert_eq!(fields("  lead and trail \n"), strings(&["lead", "and", "trail"]));
}

#[test]
fn fields_agree_with_std() {
    for text in ["", " ", "a", " a", "a ", "a b", "a\u{a0}b\u{3000}c", "tcp LISTEN 0 128 0.0.0.0:22 0.0.0.0:* users:((\"sshd\",pid=1,fd=3))"] {
        let expected: Vec<String> = text.split_whitespace().map(|part| part.to_string()).collect();
        assert_eq!(fields(text), expected, "{:?}", text);
    }
}

#[test]
fn lines_end_at_line_feeds() {
    assert_eq!(lines("one\ntwo\n"), strings(&["one", "two"]));
    assert_eq!(lines("one\r\ntwo"), strings(&["one", "two"]));
    assert_eq!(lines(""), Vec::<String>::new());
    assert_eq!(lines("\n"), strings(&[""]));
    assert_eq!(lines("a\n\nb"), strings(&["a", "", "b"]));
    assert_eq!(lines("bare\rreturn\r\n"), strings(&["bare\rreturn"]));
}

#[test]
fn lines_agree_with_std() {
    for text in ["", "\n", "\r\n", "a", "a\n", "a\r\n", "a\nb", "a\r\nb\r\n", "\n\n", "a\r\r\nb", "x\ny\n\n"] {
        let expected: Vec<String> = text.lines().map(|line| line.to_string()).collect();
        assert_eq!(lines(text), expected, "{:?}", text);
    }
}

#[test]
fn contains_finds_a_run_of_characters() {
    assert!(contains("tcp   LISTEN 0", " LISTEN "));
    assert!(!contains("tcp   LISTENING 0", " LISTEN "));
    assert!(!contains("LISTEN 0", " LISTEN "));
    assert!(contains("anything", ""));
    assert!(contains("", ""));
    assert!(!contains("", "a"));
    assert!(!contains("ab", "abc"));
    assert!(contains("aab", "ab"));
}

#[test]
fn trim_takes_white_space_from_both_ends() {
    assert_eq!(trim("  host-a \n"), "host-a");
    assert_eq!(trim("host a"), "host a");
    assert_eq!(trim(" \t\n"), "");
    assert_eq!(trim(""), "");
    for text in ["", " ", "a", "\u{a0}a b\u{2003}", "\n\nweb\r\n"] {
        assert_eq!(trim(text), text.trim(), "{:?}", text);
    }
}
