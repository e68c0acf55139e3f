use rye::bytes::{bytes_eq, followed_by, copy_texts, fold, folded_le};
use rye::paths::{join_path, normalize, strip_prefix};
use rye::words::{bin_pip_bytes, end_of_options_bytes, flag_quiet_bytes, ignore_bytes, tools_bytes};

fn p(text: &str) -> Vec<u8> {
    text.as_bytes().to_vec()
}

#[test]
fn join_puts_one_separator_between() {
    assert_eq!(join_path(&p("/a"), &p("b")), p("/a/b"));
    assert_eq!(join_path(&p("/a/"), &p("b")), p("/a/b"));
    assert_eq!(join_path(&p(""), &p("b")), p("b"));
    assert_eq!(join_path(&p("/a"), &p("")), p("/a/"));
    assert_eq!(join_path(&p("a"), &p("b/c")), p("a/b/c"));
}

#[test]
fn join_with_an_absolute_name_gives_that_name() {
    assert_eq!(join_path(&p("/a"), &p("/b")), p("/b"));
    assert_eq!(join_path(&p(""), &p("/")), p("/"));
}

#[test]
fn join_agrees_with_the_platform() {
    for (base, rel) in [("/a", "b"), ("/a/", "b"), ("", "b"), ("/a", ""), ("/a", "/b"), ("a/b", "c/d")] {
        let expected = std::path::Path::new(base).join(rel);
        assert_eq!(join_path(&p(base), &p(rel)), p(expected.to_str().unwrap()));
    }
}

#[test]
fn strip_prefix_gives_the_relative_name() {
    assert_eq!(strip_prefix(&p("/t/bin/black"), &p("/t/bin")), Some(p("black")));
    assert_eq!(strip_prefix(&p("/t/bin/black"), &p("/t/bin/")), Some(p("black")));
    assert_eq!(strip_prefix(&p("/t/bin//a/b"), &p("/t/bin")), Some(p("a/b")));
    assert_eq!(strip_prefix(&p("/t/bin"), &p("/t/bin")), Some(p("")));
    assert_eq!(strip_prefix(&p("a/b"), &p("")), Some(p("a/b")));
}

#[test]
fn strip_prefix_stops_at_whole_names() {
    assert_eq!(strip_prefix(&p("/t/binary"), &p("/t/bin")), None);
    assert_eq!(strip_prefix(&p("/t"), &p("/t/bin")), None);
    assert_eq!(strip_prefix(&p("/u/bin/x"), &p("/t/bin")), None);
}

#[test]
fn strip_prefix_agrees_with_the_platform() {
    let cases = [
        ("/t/bin/black", "/t/bin"),
        ("/t/bin/black", "/t/bin/"),
        ("/t/bin//a/b", "/t/bin"),
        ("/t/bin", "/t/bin"),
        ("/t/binary", "/t/bin"),
        ("/t", "/t/bin"),
        ("a/b", ""),
        ("/u/bin/x", "/t/bin"),
    ];
    for (path, base) in cases {
        let expected = std::path::Path::new(path)
            .strip_prefix(base)
            .ok()
            .map(|rest| p(rest.to_str().unwrap()));
        assert_eq!(strip_prefix(&p(path), &p(base)), expected);
    }
}

#[test]
fn strip_prefix_undoes_join() {
    for (base, rel) in [("/app/shims", "black"), ("/app/shims/", "a/b"), ("", "x"), ("rel", "y")] {
        let joined = join_path(&p(base), &p(rel));
        assert_eq!(strip_prefix(&joined, &p(base)), Some(p(rel)));
    }
}

#[test]
fn names_compare_without_regard_to_ascii_case() {
    assert!(folded_le(&p("alpha"), &p("Zeta")));
    assert!(!folded_le(&p("Zeta"), &p("alpha")));
    assert!(folded_le(&p("ABC"), &p("abc")));
    assert!(folded_le(&p("abc"), &p("ABC")));
    assert!(folded_le(&p("ab"), &p("abc")));
    assert!(!folded_le(&p("abc"), &p("ab")));
    assert!(folded_le(&p(""), &p("")));
    assert!(folded_le(&p("_"), &p("a")));
    assert!(folded_le(&p("_"), &p("A")));
    assert!(!folded_le(&p("A"), &p("_")));
    assert!(folded_le(&p("["), &p("Z")));
    assert!(!folded_le(&p("Z"), &p("[")));
}

#[test]
fn only_ascii_capitals_fold() {
    assert_eq!(fold(b'A'), b'a');
    assert_eq!(fold(b'Z'), b'z');
    assert_eq!(fold(b'@'), b'@');
    assert_eq!(fold(b'['), b'[');
    assert_eq!(fold(b'a'), b'a');
    assert_eq!(fold(0xc9), 0xc9);
    for b in 0..=255u8 {
        assert_eq!(fold(b), b.to_ascii_lowercase());
    }
}

#[test]
fn byte_string_helpers() {
    assert!(bytes_eq(&p("abc"), &p("abc")));
    assert!(!bytes_eq(&p("abc"), &p("abd")));
    assert!(!bytes_eq(&p("abc"), &p("ab")));
    assert!(bytes_eq(&p(""), &p("")));
    assert_eq!(followed_by(&p("ab"), &p("cd")), p("abcd"));
    assert_eq!(copy_texts(&vec![p("a"), p("")]), vec![p("a"), p("")]);
}

#[test]
fn words_spell_what_they_name() {
    assert_eq!(tools_bytes(), p("tools"));
    assert_eq!(bin_pip_bytes(), p("bin/pip"));
    assert_eq!(flag_quiet_bytes(), p("-q"));
    assert_eq!(end_of_options_bytes(), p("--"));
    assert_eq!(ignore_bytes(), p("ignore"));
}

#[test]
fn normal_form_keeps_the_parts_and_nothing_else() {
    assert_eq!(normalize(&p("/a//b/./c/")), p("/a/b/c"));
    assert_eq!(normalize(&p("a/b")), p("a/b"));
    assert_eq!(normalize(&p("./a/.")), p("a"));
    assert_eq!(normalize(&p("/")), p("/"));
    assert_eq!(normalize(&p("///")), p("/"));
    assert_eq!(normalize(&p("")), p(""));
    assert_eq!(normalize(&p(".")), p(""));
    assert_eq!(normalize(&p("/a/../b")), p("/a/../b"));
    assert_eq!(normalize(&p("/a/.b/c.")), p("/a/.b/c."));
}

#[test]
fn normal_form_agrees_with_the_platform_on_the_parts() {
    for path in ["/a//b/./c/", "/t/bin/black", "a/./b//c", "/", "/x/../y/"] {
        let theirs: Vec<Vec<u8>> = std::path::Path::new(path)
            .components()
            .map(|c| p(c.as_os_str().to_str().unwrap()))
            .collect();
        let ours: Vec<Vec<u8>> = std::path::Path::new(std::str::from_utf8(&normalize(&p(path))).unwrap())
            .components()
            .map(|c| p(c.as_os_str().to_str().unwrap()))
            .collect();
        assert_eq!(ours, theirs);
    }
}
