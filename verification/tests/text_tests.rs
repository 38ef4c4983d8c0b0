use terragrate::text::{chars_of, contains, matches_at, replace, same_text, split_lines};

const TEXTS: [&str; 12] = [
    "",
    "a",
    "aa",
    "aaa",
    "aaaaa",
    "ab",
    "abab",
    "ababab",
    "module.public_network.docker_network.network",
    "network",
    "ünï.cödé.ünï",
    "ï",
];

#[test]
fn replace_is_the_standard_replace() {
    for hay in TEXTS {
        for needle in TEXTS {
            for with in ["", "x", "aa", "module.", "é"] {
                assert_eq!(
                    replace(hay, needle, with),
                    hay.replace(needle, with),
                    "{:?} {:?} {:?}",
                    hay,
                    needle,
                    with
                );
            }
        }
    }
}

#[test]
fn replace_exact_values() {
    assert_eq!(
        replace(
            "public_network.docker_network.network",
            "public_network",
            "module.public_network"
        ),
        "module.public_network.docker_network.network"
    );
    assert_eq!(replace("aaaa", "aa", "a"), "aa");
    assert_eq!(replace("abc", "", "-"), "-a-b-c-");
    assert_eq!(replace("", "", "-"), "-");
    assert_eq!(replace("", "a", "-"), "");
    assert_eq!(replace("abc", "abcd", "-"), "abc");
    assert_eq!(replace("abc", "abc", ""), "");
}

#[test]
fn contains_is_the_standard_contains() {
    for hay in TEXTS {
        for needle in TEXTS {
            assert_eq!(
                contains(hay, needle),
                hay.contains(needle),
                "{:?} {:?}",
                hay,
                needle
            );
        }
    }
}

#[test]
fn contains_exact_values() {
    assert!(contains(
        "module.public_network.docker_network.network",
        "public_network"
    ));
    assert!(!contains(
        "module.public_network.docker_network.network",
        "private_network"
    ));
    assert!(contains("abc", ""));
    assert!(contains("", ""));
    assert!(!contains("", "a"));
    assert!(contains("abc", "c"));
    assert!(contains("abc", "abc"));
    assert!(!contains("abc", "abcd"));
}

#[test]
fn matches_at_looks_at_one_position() {
    let hay = chars_of("abcabc");
    let needle = chars_of("bc");
    let found: Vec<bool> = (0..8).map(|at| matches_at(&hay, &needle, at)).collect();
    assert_eq!(
        found,
        vec![false, true, false, false, true, false, false, false]
    );
    assert!(matches_at(&hay, &chars_of(""), 6));
    assert!(!matches_at(&hay, &chars_of(""), 7));
    assert!(!matches_at(&hay, &needle, usize::MAX));
}

#[test]
fn chars_of_counts_characters_not_bytes() {
    assert_eq!(chars_of("ünï"), vec!['ü', 'n', 'ï']);
    assert_eq!(chars_of(""), Vec::<char>::new());
}

#[test]
fn same_text_compares_characters() {
    assert!(same_text("", ""));
    assert!(same_text("MOVE", "MOVE"));
    assert!(!same_text("MOVE", "MOVED"));
    assert!(!same_text("MOVED", "MOVE"));
    assert!(!same_text("MOVE", "MOVe"));
    assert!(!same_text("", "a"));
}

#[test]
fn split_lines_exact_values() {
    assert_eq!(split_lines("foo\nbar\n\r\nbaz\r"), vec!["foo", "bar", "", "baz\r"]);
    assert_eq!(split_lines(""), Vec::<String>::new());
    assert_eq!(split_lines("\n"), vec![""]);
    assert_eq!(split_lines("a\r\n"), vec!["a"]);
    assert_eq!(split_lines("a\r\r\n"), vec!["a\r"]);
    assert_eq!(split_lines("\ra"), vec!["\ra"]);
}
