use livefolders::registry::Tool;
use livefolders::tools::ExternalTool;
use livefolders::number::{parse_i32, to_decimal, to_signed_decimal};
use livefolders::order::{place, sorted_by_name, sorted_texts, Place};
use livefolders::paths::{joined_text, DiskPath};
use livefolders::split::{
    cut, cut_n, cut_once, index_in, joined, replaced, trimmed, trimmed_end_of, trimmed_start_of,
};
use livefolders::text::{
    byte_len, bytes_of, char_is_alphanumeric, char_is_space, concatenated, contains, same, starts_with,
    strip_prefix, strip_suffix,
};
use std::path::Path;

fn list(v: &[&str]) -> Vec<String> {
    v.iter().map(|s| s.to_string()).collect()
}

#[test]
fn texts_behave_like_those_of_the_standard_library() {
    let samples = [
        "", "a", " a b ", "\u{a0}x\u{3000}", "a=b=c", "=", "//a//b/", "éü=ß", "\r\n\t", "--", "a--b--", "__x__y",
        "\u{2003}é\u{85}",
    ];
    let pats = ["=", "/", "--", "é", "__", "a"];
    for s in samples {
        assert_eq!(trimmed(s), s.trim());
        assert_eq!(byte_len(s), s.len());
        assert_eq!(bytes_of(s), s.as_bytes());
        for c in ['=', '/', 'a', 'é'] {
            assert_eq!(cut(s, c), s.split(c).map(|x| x.to_string()).collect::<Vec<_>>());
            for n in 1..4 {
                assert_eq!(
                    cut_n(s, c, n),
                    s.splitn(n, c).map(|x| x.to_string()).collect::<Vec<_>>()
                );
            }
            assert_eq!(replaced(s, c, '_'), s.replace(c, "_"));
        }
        for p in pats {
            assert_eq!(
                cut_once(s, p),
                s.split_once(p).map(|(a, b)| (a.to_string(), b.to_string()))
            );
            assert_eq!(contains(s, p), s.contains(p));
            assert_eq!(starts_with(s, p), s.starts_with(p));
            assert_eq!(strip_prefix(s, p).as_deref(), s.strip_prefix(p));
            assert_eq!(strip_suffix(s, p).as_deref(), s.strip_suffix(p));
            assert_eq!(trimmed_start_of(s, p), s.trim_start_matches(p));
            assert_eq!(trimmed_end_of(s, p), s.trim_end_matches(p));
        }
        for t in samples {
            assert_eq!(same(s, t), s == t);
            let expected = match s.cmp(t) {
                std::cmp::Ordering::Less => Place::Before,
                std::cmp::Ordering::Equal => Place::Same,
                std::cmp::Ordering::Greater => Place::After,
            };
            assert_eq!(place(s, t), expected, "{:?} {:?}", s, t);
        }
    }
}

#[test]
fn characters_are_classed() {
    for n in 0..0x3100u32 {
        if let Some(c) = char::from_u32(n) {
            assert_eq!(char_is_space(c), c.is_whitespace(), "{:x}", n);
            assert_eq!(char_is_alphanumeric(c), c.is_ascii_alphanumeric(), "{:x}", n);
        }
    }
}

#[test]
fn lists_are_joined_and_sorted() {
    let v = list(&["b", "", "a", "b"]);
    assert_eq!(joined(&v, ", "), "b, , a, b");
    assert_eq!(concatenated(&v), "bab");
    assert_eq!(sorted_texts(&v), list(&["", "a", "b", "b"]));
    assert_eq!(index_in(&v, "b"), Some(0));
    assert_eq!(index_in(&v, "c"), None);
    let pairs = sorted_by_name(vec![("z".to_string(), 1), ("a".to_string(), 2)]);
    assert_eq!(pairs, vec![("a".to_string(), 2), ("z".to_string(), 1)]);
}

#[test]
fn numbers_are_written_and_read() {
    for n in [0u64, 7, 10, 99, 12345, u64::MAX] {
        assert_eq!(to_decimal(n), n.to_string());
    }
    for n in [0i32, -1, 42, i32::MIN, i32::MAX] {
        assert_eq!(to_signed_decimal(n), n.to_string());
        assert_eq!(parse_i32(&n.to_string()), Some(n));
    }
    for s in ["", "+", "-", "+5", "-0", "007", "2147483648", "-2147483649", " 1", "1a", "99999999999"] {
        assert_eq!(parse_i32(s), s.parse::<i32>().ok(), "{}", s);
    }
}

#[test]
fn paths_behave_like_those_of_the_standard_library() {
    let samples = ["", ".", "/", "a", "/a/b", "a//b/./c/", "./x", "../y/..", "/tools/", "a/.."];
    for s in samples {
        let p = DiskPath::from_text(s);
        let q = Path::new(s);
        let parts: Vec<String> =
            q.components().map(|c| c.as_os_str().to_string_lossy().to_string()).collect();
        assert_eq!(*p.parts(), parts, "{:?}", s);
        assert_eq!(p.file_name(), q.file_name().map(|n| n.to_string_lossy().to_string()), "{:?}", s);
        let parent = q.parent().map(|d| DiskPath::from_text(&d.to_string_lossy()).parts().clone());
        assert_eq!(p.parent().map(|d| d.parts().clone()), parent, "{:?}", s);
        assert_eq!(DiskPath::from_text(&p.text()).parts(), p.parts(), "{:?}", s);
        for t in samples {
            let r = DiskPath::from_text(t);
            assert_eq!(p.is(&r), q == Path::new(t), "{:?} {:?}", s, t);
            assert_eq!(joined_text(s, t), q.join(t).to_string_lossy(), "{:?} {:?}", s, t);
            assert_eq!(
                *p.join(t).parts(),
                *DiskPath::from_text(&q.join(t).to_string_lossy()).parts(),
                "{:?} {:?}",
                s,
                t
            );
            let below = q.strip_prefix(Path::new(t)).ok().map(|x| {
                x.components().map(|c| c.as_os_str().to_string_lossy().to_string()).collect::<Vec<_>>()
            });
            assert_eq!(p.relative_to(&r), below, "{:?} {:?}", s, t);
        }
    }
}

#[test]
fn paths_are_shown_as_they_were_given() {
    let dir = DiskPath::from_text("/t//x/./");
    assert_eq!(dir.text(), "/t//x/./");
    assert!(dir.is(&DiskPath::from_text("/t/x")));
    let file = dir.join("a");
    assert_eq!(file.text(), "/t//x/./a");
    assert_eq!(file.parent().unwrap().text(), "/t/x");
    let tool = ExternalTool::new("a".to_string(), file, 1);
    assert_eq!(tool.description(), "External tool at /t//x/./a");
}
