use udisk_inspector::text::{
    chars_of, command_text, line_ranges, parse_u64_range, split_ranges, trim_range, word_ranges,
};

fn piece(v: &[char], r: (usize, usize)) -> String {
    v[r.0..r.1].iter().collect()
}

const SAMPLES: &[&str] = &[
    "",
    "a",
    "a\n",
    "a\r\n",
    "a\r",
    "\n",
    "\r\n\r\n",
    "a\nb",
    "a\n\nb\n",
    "  x y\t\u{a0}z \u{3000}",
    "\r\r\nNode,Caption\r\r\nPC,E:\r\r\n",
    "FreeSpace=12 \r\n",
    "one,,two,",
    "\u{2003}mixed\u{85}",
];

#[test]
fn lines_agree_with_std() {
    for s in SAMPLES {
        let v = chars_of(s);
        let got: Vec<String> = line_ranges(&v).into_iter().map(|r| piece(&v, r)).collect();
        let want: Vec<String> = s.lines().map(|l| l.to_string()).collect();
        assert_eq!(got, want, "lines of {:?}", s);
    }
}

#[test]
fn trim_agrees_with_std() {
    for s in SAMPLES {
        let v = chars_of(s);
        let r = trim_range(&v, 0, v.len());
        assert_eq!(piece(&v, r), s.trim(), "trim of {:?}", s);
    }
}

#[test]
fn split_agrees_with_std() {
    for s in SAMPLES {
        let v = chars_of(s);
        for c in [',', '\n', '"', 'x'] {
            let got: Vec<String> = split_ranges(&v, 0, v.len(), c).into_iter().map(|r| piece(&v, r)).collect();
            let want: Vec<String> = s.split(c).map(|p| p.to_string()).collect();
            assert_eq!(got, want, "split of {:?} on {:?}", s, c);
        }
    }
}

#[test]
fn words_agree_with_std() {
    for s in SAMPLES {
        let v = chars_of(s);
        let got: Vec<String> = word_ranges(&v, 0, v.len()).into_iter().map(|r| piece(&v, r)).collect();
        let want: Vec<String> = s.split_whitespace().map(|p| p.to_string()).collect();
        assert_eq!(got, want, "words of {:?}", s);
    }
}

#[test]
fn parse_agrees_with_std() {
    let cases = [
        "", "0", "7", "+7", "+", "-", "-1", "-0", " 1", "1 ", "007", "12a",
        "18446744073709551615", "18446744073709551616", "99999999999999999999999",
        "+18446744073709551615", "1_000", "٣",
    ];
    for s in cases {
        let v = chars_of(s);
        assert_eq!(parse_u64_range(&v, 0, v.len()), s.parse::<u64>().ok(), "parse of {:?}", s);
    }
}

#[test]
fn command_text_replaces_invalid_utf8() {
    assert_eq!(command_text(b"FreeSpace=5\r\n"), "FreeSpace=5\r\n");
    assert_eq!(command_text(&[0x61, 0xff, 0x62]), "a\u{fffd}b");
}
