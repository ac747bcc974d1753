use nix_autobuild::arch::{architecture, detect_arch, is_architecture, ARCHITECTURE_COUNT};
use nix_autobuild::text::{
    char_is_space, chars_of, contains_string, first_line_of, has_prefix, index_of, join,
    occurs_at, replace_all, replace_char, same_chars, str_eq, strip_prefix, trim,
};

fn arch_of(path: &str) -> String {
    detect_arch(&path.chars().collect())
}

#[test]
fn chars_and_back() {
    assert_eq!(chars_of("h\u{e9}llo"), vec!['h', '\u{e9}', 'l', 'l', 'o']);
    assert_eq!(chars_of(""), Vec::<char>::new());
}

#[test]
fn prefixes_and_equality() {
    let v: Vec<char> = "abcdef".chars().collect();
    assert!(has_prefix(&v, &"abc".chars().collect()));
    assert!(has_prefix(&v, &Vec::new()));
    assert!(has_prefix(&v, &v));
    assert!(!has_prefix(&v, &"abd".chars().collect()));
    assert!(!has_prefix(&v, &"abcdefg".chars().collect()));
    assert!(same_chars(&v, &v.clone()));
    assert!(!same_chars(&v, &"abcde".chars().collect()));
    assert!(str_eq("x", "x") && !str_eq("x", "y") && !str_eq("x", "xx") && str_eq("", ""));
    assert!(occurs_at(&v, 2, &"cd".chars().collect()));
    assert!(!occurs_at(&v, 3, &"cd".chars().collect()));
    assert!(!occurs_at(&v, 5, &"fg".chars().collect()));
    assert!(occurs_at(&v, 6, &Vec::new()));
}

#[test]
fn searching() {
    assert_eq!(index_of(&"a.b.c".chars().collect(), '.'), 1);
    assert_eq!(index_of(&"abc".chars().collect(), '.'), 3);
    assert_eq!(index_of(&Vec::new(), '.'), 0);
    assert_eq!(first_line_of(&"one\ntwo\n".chars().collect()), vec!['o', 'n', 'e']);
    assert_eq!(first_line_of(&"one".chars().collect()), vec!['o', 'n', 'e']);
    assert_eq!(first_line_of(&"\nx".chars().collect()), Vec::<char>::new());
}

#[test]
fn trimming() {
    assert_eq!(trim("  a b \n"), "a b");
    assert_eq!(trim("a"), "a");
    assert_eq!(trim(""), "");
    assert_eq!(trim(" \t\r\n"), "");
    assert_eq!(trim("\u{a0}\u{3000}x\u{2003}\u{85}"), "x");
    // characters that look like space but are none stay
    assert_eq!(trim("\u{200b}x\u{200b}"), "\u{200b}x\u{200b}");
}

#[test]
fn white_space_is_what_std_says() {
    for code in 0u32..0x3100 {
        if let Some(c) = char::from_u32(code) {
            assert_eq!(char_is_space(c), c.is_whitespace(), "U+{code:04X}");
        }
    }
    assert!(!char_is_space('\u{feff}'));
}

#[test]
fn trim_is_what_std_says() {
    for s in ["", " ", "a", " a", "a ", "\n\ta b\r\n", "\u{2028}x y\u{2029}", "  \u{1680} "] {
        assert_eq!(trim(s), s.trim());
    }
}

#[test]
fn replacing() {
    assert_eq!(replace_char("a/b:c/d", '/', '_'), "a_b:c_d");
    assert_eq!(replace_char("", '/', '_'), "");
    assert_eq!(replace_all("a.b.c", ".", "--"), "a--b--c");
    assert_eq!(replace_all("aaa", "aa", "b"), "ba");
    assert_eq!(replace_all("abc", "x", "y"), "abc");
    assert_eq!(replace_all("abc", "abc", ""), "");
    assert_eq!(replace_all("", "x", "y"), "");
    assert_eq!(replace_all("ab", "", "-"), "-a-b-");
    assert_eq!(replace_all("", "", "-"), "-");
    for (s, p, t) in [("x86.x86.y", "x86", "*"), ("abab", "ab", "ba"), ("aXbXc", "X", ""), ("ab", "", "::")] {
        assert_eq!(replace_all(s, p, t), s.replace(p, t));
    }
}

#[test]
fn stripping_a_prefix() {
    assert_eq!(strip_prefix("origin/main", "origin/"), "main");
    assert_eq!(strip_prefix("origin/origin/main", "origin/"), "origin/main");
    assert_eq!(strip_prefix("main", "origin/"), "main");
    assert_eq!(strip_prefix("x/origin/main", "origin/"), "x/origin/main");
    assert_eq!(strip_prefix("origin/", "origin/"), "");
}

#[test]
fn joining() {
    assert_eq!(join(&vec!["a".to_string(), "b".to_string(), "c".to_string()], "&"), "a&b&c");
    assert_eq!(join(&vec!["a".to_string()], "&"), "a");
    assert_eq!(join(&Vec::new(), "&"), "");
    assert_eq!(join(&vec!["".to_string(), "".to_string()], ", "), ", ");
}

#[test]
fn canonical_architectures() {
    let expected = [
        "aarch64-darwin", "aarch64-linux", "armv5tel-linux", "armv6l-linux", "armv7a-linux",
        "armv7l-linux", "i686-linux", "loongarch64-linux", "m68k-linux", "microblazeel-linux",
        "microblaze-linux", "mips64el-linux", "mips64-linux", "mipsel-linux", "mips-linux",
        "powerpc64le-linux", "powerpc64-linux", "powerpc-linux", "riscv32-linux", "riscv64-linux",
        "s390-linux", "s390x-linux", "x86_64-darwin", "x86_64-linux",
    ];
    assert_eq!(ARCHITECTURE_COUNT, 24);
    for (i, tag) in expected.iter().enumerate() {
        assert_eq!(architecture(i), *tag);
        assert!(is_architecture(tag));
        assert_eq!(arch_of(&format!("packages.{tag}.hello")), *tag);
    }
    assert!(!is_architecture("unknown"));
    assert!(!is_architecture("x86_64-linu"));
    assert!(!is_architecture("x86_64-linux "));
    assert!(!is_architecture(""));
}

#[test]
fn architecture_of_a_path() {
    assert_eq!(arch_of("packages.x86_64-linux.hello"), "x86_64-linux");
    assert_eq!(arch_of("packages.x86_64-linux"), "x86_64-linux");
    assert_eq!(arch_of("packages.wasm32-linux.hello"), "unknown");
    assert_eq!(arch_of("packages"), "unknown");
    assert_eq!(arch_of(""), "unknown");
    assert_eq!(arch_of("x86_64-linux.hello"), "unknown");
    assert_eq!(arch_of("a.b.x86_64-linux"), "unknown");
    assert_eq!(arch_of(".mips-linux"), "mips-linux");
    assert_eq!(arch_of("p.mips64-linux.x"), "mips64-linux");
    assert_eq!(arch_of("p.mips64el-linux.x"), "mips64el-linux");
    assert_eq!(arch_of("p.s390x-linux.x"), "s390x-linux");
    // the tag only has to begin the segment
    assert_eq!(arch_of("p.x86_64-linux-extra.x"), "x86_64-linux");
    assert_eq!(arch_of("p.X86_64-linux.x"), "unknown");
}

#[test]
fn finding_a_string_in_a_list() {
    let list = vec!["a".to_string(), "bc".to_string()];
    assert!(contains_string(&list, "a"));
    assert!(contains_string(&list, "bc"));
    assert!(!contains_string(&list, "b"));
    assert!(!contains_string(&list, ""));
    assert!(!contains_string(&Vec::new(), "a"));
}
