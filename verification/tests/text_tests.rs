use adguard_cli_gui::text::{
    after_first_exec, chars_within_exec, chars_of, contains, decimal_exec, find_exec,
    lines_exec, string_of, trim_exec, trim_start_exec, utf8_longer_than,
};

fn v(s: &str) -> Vec<char> {
    s.chars().collect()
}

fn st(c: &[char]) -> String {
    c.iter().collect()
}

#[test]
fn lines_follow_str_lines() {
    for sample in ["", "a", "a\n", "a\r\nb", "\n", "x\n\ny\r", "one\ntwo\nthree\n", "\r\n\r\n"] {
        let got: Vec<String> = lines_exec(&v(sample)).iter().map(|l| st(l)).collect();
        let want: Vec<String> = sample.lines().map(|l| l.to_string()).collect();
        assert_eq!(got, want, "sample {:?}", sample);
    }
}

#[test]
fn trim_follows_str_trim() {
    for sample in ["", "  a  ", "\t\u{3000}x y\u{a0}\n", "abc", "   "] {
        assert_eq!(st(&trim_exec(&v(sample))), sample.trim());
        assert_eq!(st(&trim_start_exec(&v(sample))), sample.trim_start());
    }
}

#[test]
fn substring_search() {
    assert!(contains(&v("proxy is running"), &v("is running")));
    assert!(!contains(&v("proxy is stopped"), &v("is running")));
    assert!(contains(&v("abc"), &v("")));
    assert_eq!(find_exec(&v("a  b  c"), &v("  ")), Some(1));
    assert_eq!(find_exec(&v("abc"), &v("  ")), None);
}

#[test]
fn text_after_first_separator() {
    assert_eq!(after_first_exec(&v("License key: AB:CD"), ':').map(|x| st(&x)), Some(" AB:CD".to_string()));
    assert_eq!(after_first_exec(&v("no colon"), ':'), None);
}

#[test]
fn decimal_numbers() {
    assert_eq!(st(&decimal_exec(0)), "0");
    assert_eq!(st(&decimal_exec(7)), "7");
    assert_eq!(st(&decimal_exec(1203)), "1203");
    assert_eq!(st(&decimal_exec(usize::MAX)), usize::MAX.to_string());
}

#[test]
fn utf8_byte_counts() {
    assert!(utf8_longer_than(&v("héllo"), 5));
    assert!(!utf8_longer_than(&v("héllo"), 6));
    assert_eq!(chars_within_exec(&v("héllo"), 3), 2);
    assert_eq!(chars_within_exec(&v("héllo"), 2), 1);
    assert_eq!(chars_within_exec(&v("ab"), 3), 2);
    assert_eq!(chars_within_exec(&v("🛡x"), 3), 0);
}

#[test]
fn string_round_trip() {
    let s = "Grüße, 世界 🛡";
    assert_eq!(chars_of(s), v(s));
    assert_eq!(string_of(&v(s)), s);
}
