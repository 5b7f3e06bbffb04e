use odjk_sv::ansi::strip_ansi;
use odjk_sv::chars;
use odjk_sv::decimal;
use odjk_sv::lang;
use odjk_sv::order;
use odjk_sv::text;

fn cs(s: &str) -> Vec<char> {
    s.chars().collect()
}

fn st(s: &[char]) -> String {
    s.iter().collect()
}

const SAMPLES: [&str; 16] = [
    "",
    " ",
    "a",
    " a ",
    "\u{a0}a\u{3000}",
    "a b\tc",
    "  run: x  ",
    "one\ntwo",
    "one\r\ntwo\r\n",
    "one\rtwo\n\n",
    "\n",
    "\r",
    "last\r",
    "Сервис  менеджер\n",
    "a/b/c",
    "/etc/sv/",
];

#[test]
fn character_classes_agree_with_std() {
    for u in 0u32..0x110000 {
        if let Some(c) = char::from_u32(u) {
            assert_eq!(chars::is_white_space(c), c.is_whitespace());
            assert_eq!(chars::is_alphanumeric(c), c.is_alphanumeric());
            assert_eq!(chars::is_ascii_letter(c), c.is_ascii_alphabetic());
            assert_eq!(chars::is_ascii_digit(c), c.is_ascii_digit());
        }
    }
}

#[test]
fn alphanumeric_beyond_ascii() {
    assert!(chars::is_alphanumeric('ж'));
    assert!(chars::is_alphanumeric('²'));
    assert!(!chars::is_alphanumeric('—'));
}

#[test]
fn conversions_keep_the_text() {
    for s in SAMPLES {
        assert_eq!(text::chars_of(s), cs(s));
        assert_eq!(text::string_of(&cs(s)), s);
    }
}

#[test]
fn trimming_agrees_with_std() {
    for s in SAMPLES {
        assert_eq!(st(text::trimmed(&cs(s))), s.trim());
        assert_eq!(st(text::trimmed_start(&cs(s))), s.trim_start());
        assert_eq!(st(text::trimmed_end(&cs(s))), s.trim_end());
    }
}

#[test]
fn lines_agree_with_std() {
    for s in SAMPLES {
        let got: Vec<String> = text::split_lines(&cs(s)).iter().map(|l| st(l)).collect();
        let want: Vec<&str> = s.lines().collect();
        assert_eq!(got, want);
    }
}

#[test]
fn words_agree_with_std() {
    for s in SAMPLES {
        let got: Vec<String> = text::split_words(&cs(s)).iter().map(|l| st(l)).collect();
        let want: Vec<&str> = s.split_whitespace().collect();
        assert_eq!(got, want);
    }
}

#[test]
fn searching_agrees_with_std() {
    for s in ["", "x", "a(pid b", "(pid ", "(pi(pid 1)", "((pid (pid ", "pid )"] {
        for pat in ["(pid ", "x", ""] {
            assert_eq!(text::position(&cs(s), &cs(pat)), s.find(pat));
            assert_eq!(text::starts_with(&cs(s), &cs(pat)), s.starts_with(pat));
        }
        assert_eq!(text::same(&cs(s), &cs("x")), s == "x");
    }
}

#[test]
fn parts_of_a_text() {
    assert_eq!(st(text::part_before(&cs("run: x: y"), ':')), "run");
    assert_eq!(st(text::part_before(&cs("run"), ':')), "run");
    assert_eq!(text::skip_to(&cs("ab:c"), ':'), 2);
    assert_eq!(text::skip_to(&cs("abc"), ':'), 3);
    assert_eq!(st(text::part_after_last(&cs("/usr/bin/foo"), '/')), "foo");
    assert_eq!(st(text::part_after_last(&cs("foo"), '/')), "foo");
    assert_eq!(st(text::part_after_last(&cs("foo/"), '/')), "");
    assert_eq!(text::end_of_last(&cs("/a/b"), '/'), 3);
    assert_eq!(text::end_of_last(&cs("ab"), '/'), 0);
}

#[test]
fn escape_sequences_are_stripped() {
    assert_eq!(strip_ansi("\x1b[32mrun\x1b[0m: x"), "run: x");
    assert_eq!(strip_ansi("plain"), "plain");
    assert_eq!(strip_ansi(""), "");
    assert_eq!(strip_ansi("a\x1b[1;2"), "a");
    assert_eq!(strip_ansi("a\x1b"), "a");
    assert_eq!(strip_ansi("\x1b\x1bKb"), "b");
    assert_eq!(strip_ansi("a\x1b[Жm-Ж"), "a-Ж");
}

#[test]
fn stripping_twice_is_stripping_once() {
    for s in ["\x1b[1mа\x1b[0mб", "x", "\x1b\x1b[m\x1b", "a\x1bbb\x1b[c"] {
        let once = strip_ansi(s);
        assert!(!once.contains('\x1b'));
        assert_eq!(strip_ansi(&once), once);
    }
}

#[test]
fn decimal_numbers() {
    for n in [0u64, 7, 10, 59, 60, 100, 12345, u64::MAX - 1, u64::MAX] {
        let mut s = String::from("n=");
        decimal::push_decimal(&mut s, n);
        assert_eq!(s, format!("n={}", n));
        assert_eq!(decimal::parse(&cs(&n.to_string())), Some(n));
    }
    assert_eq!(decimal::parse(&cs("")), None);
    assert_eq!(decimal::parse(&cs("007")), Some(7));
    assert_eq!(decimal::parse(&cs("18446744073709551616")), None);
    assert_eq!(decimal::parse(&cs("99999999999999999999999")), None);
    assert_eq!(decimal::parse(&cs("00000000000000000000000018446744073709551615")), Some(u64::MAX));
}

#[test]
fn names_are_ordered_as_by_std() {
    let names = ["", "a", "A", "ab", "b", "Ж", "ж", "é", "z", "\u{ffff}", "\u{10000}", "a-", "a1"];
    for a in names {
        for b in names {
            assert_eq!(order::is_before(a, b), a < b);
        }
    }
}

#[test]
fn lowercase_agrees_with_std() {
    for s in ["", "RU", "Ru_RU.UTF-8", "en_US", "@[`{", "ПРИВЕТ", "ΑΣ", "İ", "ЯZ"] {
        assert_eq!(lang::to_lowercase(s), s.to_lowercase());
    }
    for u in 0u8..128 {
        let s = (u as char).to_string();
        assert_eq!(lang::to_lowercase(&s), s.to_lowercase());
    }
    assert_eq!(lang::to_lowercase("ПРИВЕТ"), "привет");
}

fn title(values: &[Option<&str>]) -> &'static str {
    let v: Vec<Option<String>> = values.iter().map(|x| x.map(|s| s.to_string())).collect();
    lang::detect_lang(&v).title
}

#[test]
fn language_is_detected() {
    assert_eq!(title(&[]), "Service Manager");
    assert_eq!(title(&[None, None, None, None]), "Service Manager");
    assert_eq!(title(&[Some("ru_RU.UTF-8"), None, None, None]), "Сервисный менеджер");
    assert_eq!(title(&[Some("en_US"), Some("RU"), None, None]), "Сервисный менеджер");
    assert_eq!(title(&[Some("en_US"), None, None, Some("ru")]), "Сервисный менеджер");
    assert_eq!(title(&[Some("r"), Some(""), Some("en_RU"), None]), "Service Manager");
    assert_eq!(title(&[Some("Руr"), Some("Ż"), None, None]), "Service Manager");
    assert!(lang::is_russian("ru"));
    assert!(!lang::is_russian("RU"));
    assert_eq!(lang::language_variables(), ["LANG", "LANGUAGE", "LC_ALL", "LC_MESSAGES"]);
}

#[test]
fn languages_have_their_texts() {
    assert_eq!(lang::ru().btn_stop, "остановить");
    assert_eq!(lang::en().btn_stop, "stop");
    assert_eq!(lang::en().add_hint, "Create symlink /var/service/<name> → /etc/sv/<name>");
    assert_eq!(lang::ru().sudo_placeholder, "пароль sudo…");
    assert_eq!(lang::en().wrong_password, "Wrong password");
}
