use rinputer::text::{
    chars_of, contains, find_from, matches_at, parse_i32, same_text, split_in_two, starts_with,
    strip_prefix, take_first_line,
};

const SAMPLES: [&str; 24] = [
    "",
    " ",
    "a",
    "@",
    "@@",
    "a@b",
    "a@b@c",
    "@a",
    "a@",
    "map",
    "map ",
    "map a as b",
    "map a as b as c",
    " as ",
    " as as ",
    "x as as y",
    "aaa",
    "aaaa",
    "ABS_X@5",
    "héllo wörld",
    "日本語@テスト",
    "line\nnext",
    "line\r\nnext",
    "reset now",
];

const NEEDLES: [&str; 12] =
    ["", " ", "a", "aa", "@", " as ", "map", "map ", "ABS", "ö", "語@", "\n"];

#[test]
fn chars_of_lists_characters() {
    for s in SAMPLES {
        assert_eq!(chars_of(s), s.chars().collect::<Vec<char>>());
    }
}

#[test]
fn starts_with_agrees_with_std() {
    for s in SAMPLES {
        for p in NEEDLES {
            assert_eq!(starts_with(s, p), s.starts_with(p), "{:?} {:?}", s, p);
        }
        assert!(starts_with(s, s));
    }
}

#[test]
fn strip_prefix_agrees_with_std() {
    for s in SAMPLES {
        for p in NEEDLES {
            assert_eq!(strip_prefix(s, p), s.strip_prefix(p), "{:?} {:?}", s, p);
        }
    }
    assert_eq!(strip_prefix("map a as b", "map "), Some("a as b"));
    assert_eq!(strip_prefix("map", "map "), None);
}

#[test]
fn contains_agrees_with_std() {
    for s in SAMPLES {
        for p in NEEDLES {
            assert_eq!(contains(s, p), s.contains(p), "{:?} {:?}", s, p);
        }
        for p in SAMPLES {
            assert_eq!(contains(s, p), s.contains(p), "{:?} {:?}", s, p);
        }
    }
}

#[test]
fn same_text_agrees_with_std() {
    for a in SAMPLES {
        for b in SAMPLES {
            assert_eq!(same_text(a, b), a == b);
        }
    }
}

#[test]
fn find_from_gives_first_position() {
    let hay: Vec<char> = "x as as y as".chars().collect();
    let sep: Vec<char> = " as ".chars().collect();
    assert_eq!(find_from(&hay, &sep, 0), Some(1));
    assert_eq!(find_from(&hay, &sep, 1), Some(1));
    assert_eq!(find_from(&hay, &sep, 2), Some(4));
    assert_eq!(find_from(&hay, &sep, 5), None);
    assert_eq!(find_from(&hay, &sep, 100), None);
    assert!(matches_at(&hay, &sep, 4));
    assert!(!matches_at(&hay, &sep, 3));
    assert!(!matches_at(&hay, &sep, 9));
    assert!(!matches_at(&hay, &sep, usize::MAX));
    let empty: Vec<char> = Vec::new();
    assert_eq!(find_from(&hay, &empty, 3), Some(3));
    assert_eq!(find_from(&hay, &empty, 12), Some(12));
    assert_eq!(find_from(&hay, &empty, 13), None);
    assert_eq!(find_from(&empty, &sep, 0), None);
}

#[test]
fn split_in_two_agrees_with_std() {
    for s in SAMPLES {
        for sep in NEEDLES {
            let parts: Vec<&str> = s.split(sep).collect();
            let expected = if parts.len() == 2 { Some((parts[0], parts[1])) } else { None };
            assert_eq!(split_in_two(s, sep), expected, "{:?} {:?}", s, sep);
        }
    }
}

#[test]
fn split_in_two_exact_values() {
    assert_eq!(split_in_two("a as b", " as "), Some(("a", "b")));
    assert_eq!(split_in_two("a as b as c", " as "), None);
    assert_eq!(split_in_two("a b", " as "), None);
    assert_eq!(split_in_two(" as as ", " as "), Some(("", "as ")));
    assert_eq!(split_in_two("ABS_Z@256", "@"), Some(("ABS_Z", "256")));
    assert_eq!(split_in_two("@", "@"), Some(("", "")));
    assert_eq!(split_in_two("@@", "@"), None);
    assert_eq!(split_in_two("", ""), Some(("", "")));
    assert_eq!(split_in_two("a", ""), None);
}

#[test]
fn parse_i32_agrees_with_std() {
    let inputs = [
        "",
        "0",
        "-0",
        "+0",
        "7",
        "-7",
        "+7",
        "256",
        "-1",
        "0000012",
        "-000",
        "2147483647",
        "2147483648",
        "+2147483647",
        "+2147483648",
        "-2147483648",
        "-2147483649",
        "99999999999999999999999999",
        "-99999999999999999999999999",
        "00000000000000000000000000000000000000001",
        "+",
        "-",
        "+-1",
        "--1",
        "-+1",
        "1-",
        "1+1",
        " 1",
        "1 ",
        "1_000",
        "1.0",
        "0x10",
        "12a",
        "a12",
        "١٢",
        "１２",
        "²",
        "1e3",
        "21474836470x",
    ];
    for s in inputs {
        assert_eq!(parse_i32(s), s.parse::<i32>().ok(), "{:?}", s);
    }
}

#[test]
fn parse_i32_exact_values() {
    assert_eq!(parse_i32("256"), Some(256));
    assert_eq!(parse_i32("-1"), Some(-1));
    assert_eq!(parse_i32("+32767"), Some(32767));
    assert_eq!(parse_i32("-2147483648"), Some(i32::MIN));
    assert_eq!(parse_i32("2147483647"), Some(i32::MAX));
    assert_eq!(parse_i32("2147483648"), None);
    assert_eq!(parse_i32("12 "), None);
}

#[test]
fn first_line_agrees_with_std() {
    let inputs = [
        "",
        "\n",
        "\r\n",
        "\r",
        "a",
        "a\n",
        "a\r\n",
        "a\r",
        "a\rb\n",
        "a\r\r\n",
        "a\n\nb",
        "\na",
        "Product Name\n",
        "Vendor\nsecond line\n",
        "no newline at all",
        "ünï\r\ncode",
    ];
    for s in inputs {
        assert_eq!(take_first_line(s), s.lines().next(), "{:?}", s);
    }
    for s in SAMPLES {
        assert_eq!(take_first_line(s), s.lines().next(), "{:?}", s);
    }
}
