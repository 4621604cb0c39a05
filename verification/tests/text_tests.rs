use gswitch::path::{FsPart, FsPath, PartKind};
use gswitch::text::{chars_of, is_whitespace, same_text, trim, trim_bounds};

#[test]
fn trim_drops_whitespace_at_both_ends() {
    assert_eq!(trim("  work  \n"), "work");
    assert_eq!(trim("work"), "work");
    assert_eq!(trim("\t a b \r\n"), "a b");
    assert_eq!(trim("\u{a0}x\u{3000}"), "x");
}

#[test]
fn trim_of_whitespace_is_empty() {
    assert_eq!(trim("   \n\t"), "");
    assert_eq!(trim(""), "");
    assert_eq!(trim("   \n  \t  \n"), "");
}

#[test]
fn trim_keeps_what_is_not_whitespace() {
    assert_eq!(trim(" \u{200b} "), "\u{200b}");
    assert_eq!(trim("é ü"), "é ü");
    assert_eq!(trim("_"), "_");
}

#[test]
fn chars_of_gives_each_character() {
    assert_eq!(chars_of("aé\n"), vec!['a', 'é', '\n']);
    assert_eq!(chars_of(""), Vec::<char>::new());
}

#[test]
fn same_text_compares_character_by_character() {
    assert!(same_text("work", "work"));
    assert!(!same_text("work", "Work"));
    assert!(!same_text("work", "work "));
    assert!(same_text("", ""));
}

fn part(text: &str, kind: PartKind) -> FsPart {
    FsPart { text: text.to_string(), kind }
}

#[test]
fn parse_splits_a_path_into_components() {
    let path = FsPath::parse("/repo/a/b");
    assert_eq!(
        path.parts,
        vec![
            part("/", PartKind::RootDir),
            part("repo", PartKind::Normal),
            part("a", PartKind::Normal),
            part("b", PartKind::Normal)
        ]
    );
    assert_eq!(
        FsPath::parse("a/b").parts,
        vec![part("a", PartKind::Normal), part("b", PartKind::Normal)]
    );
    assert_eq!(
        FsPath::parse("./a/../b").parts,
        vec![
            part(".", PartKind::CurDir),
            part("a", PartKind::Normal),
            part("..", PartKind::ParentDir),
            part("b", PartKind::Normal)
        ]
    );
    assert_eq!(FsPath::parse("").parts, Vec::<FsPart>::new());
    assert_eq!(FsPath::parse("/repo//a/./b/"), path);
}

#[test]
fn join_adds_a_component() {
    let dir = FsPath::parse("/repo/a");
    assert_eq!(dir.join(".gswitch"), FsPath::parse("/repo/a/.gswitch"));
    assert_eq!(FsPath::parse("").join("x").parts, vec![part("x", PartKind::Normal)]);
}

#[test]
fn pop_moves_to_the_parent_until_the_root() {
    let mut path = FsPath::parse("/repo/a");
    assert!(path.pop());
    assert_eq!(path, FsPath::parse("/repo"));
    assert!(path.pop());
    assert_eq!(path, FsPath::parse("/"));
    assert!(!path.pop());
    assert_eq!(path, FsPath::parse("/"));

    let mut dots = FsPath::parse("../..");
    assert!(dots.pop());
    assert_eq!(dots, FsPath::parse(".."));

    let mut relative = FsPath::parse("a");
    assert!(relative.pop());
    assert_eq!(relative.parts, Vec::<FsPart>::new());
    assert!(!relative.pop());
}

#[test]
fn equals_compares_components() {
    let a = FsPath::parse("/repo/a");
    assert!(a.equals(&FsPath::parse("/repo/a/")));
    assert!(a.equals(&a.clone()));
    assert!(!a.equals(&FsPath::parse("/repo")));
    assert!(!a.equals(&FsPath::parse("/repo/b")));
    assert!(!a.equals(&FsPath::parse("repo/a")));
    let odd = FsPath {
        parts: vec![
            part("/", PartKind::Normal),
            part("repo", PartKind::Normal),
            part("a", PartKind::Normal),
        ],
    };
    assert!(!a.equals(&odd));
    assert!(part("/", PartKind::RootDir).is_anchor());
    assert!(part("C:", PartKind::Prefix).is_anchor());
    assert!(!part("..", PartKind::ParentDir).is_anchor());
    assert!(!part(".", PartKind::CurDir).is_anchor());
    assert!(!part("a", PartKind::Normal).is_anchor());
}

#[test]
fn trim_bounds_finds_the_first_and_last_that_are_no_whitespace() {
    assert_eq!(trim_bounds(&vec![true, false, true]), (1, 2));
    assert_eq!(trim_bounds(&vec![true, true, false, true, false, true, true]), (2, 5));
    assert_eq!(trim_bounds(&vec![false, true, false]), (0, 3));
    assert_eq!(trim_bounds(&vec![false]), (0, 1));
}

#[test]
fn trim_bounds_of_whitespace_alone_are_at_the_end() {
    assert_eq!(trim_bounds(&vec![true, true, true]), (3, 3));
    assert_eq!(trim_bounds(&vec![true]), (1, 1));
    assert_eq!(trim_bounds(&Vec::new()), (0, 0));
}

#[test]
fn is_whitespace_agrees_with_the_standard_library_on_every_character() {
    let mut found = 0;
    for n in 0..=0x10FFFFu32 {
        if let Some(c) = char::from_u32(n) {
            assert_eq!(is_whitespace(c), c.is_whitespace(), "U+{:04X}", n);
            if is_whitespace(c) {
                found += 1;
            }
        }
    }
    assert_eq!(found, 25);
}

#[test]
fn is_whitespace_knows_the_common_cases() {
    for c in [' ', '\t', '\n', '\r', '\u{b}', '\u{c}', '\u{85}', '\u{a0}', '\u{2028}', '\u{3000}'] {
        assert!(is_whitespace(c));
    }
    for c in ['a', '_', '0', '\u{0}', '\u{8}', '\u{e}', '\u{200b}', '\u{180e}', '\u{feff}'] {
        assert!(!is_whitespace(c));
    }
}

#[test]
fn trim_agrees_with_the_standard_library() {
    let samples = [
        "",
        " ",
        "work",
        "  work  \n",
        "\u{2003}a b\u{205f}",
        "\u{200b} x",
        "\r\n\t",
        "a\u{85}",
        "  é  ",
    ];
    for sample in samples {
        assert_eq!(trim(sample), sample.trim());
    }
}
