use pacview::flags::{PkgFlags, PkgValidation};
use pacview::search::SearchProp;
use pacview::text::{
    compare_i64, compare_lists, compare_text, contains_ignore_ascii_case, decimal_string,
    eq_ignore_ascii_case, join_strings, split_whitespace, text_eq, trim_chars, Order,
};

#[test]
fn flags_constants_have_their_bits() {
    assert_eq!(PkgFlags::empty().bits(), 0);
    assert_eq!(PkgFlags::explicit().bits(), 1);
    assert_eq!(PkgFlags::dependency().bits(), 2);
    assert_eq!(PkgFlags::optional().bits(), 4);
    assert_eq!(PkgFlags::orphan().bits(), 8);
    assert_eq!(PkgFlags::none().bits(), 16);
    assert_eq!(PkgFlags::updates().bits(), 32);
    assert_eq!(PkgFlags::installed().bits(), 15);
    assert_eq!(PkgFlags::all().bits(), 31);
    assert_eq!(PkgFlags::default().bits(), 0);
}

#[test]
fn flags_truncate_to_defined_bits() {
    assert_eq!(PkgFlags::from_bits_truncate(0xff).bits(), 63);
    assert_eq!(PkgFlags::from_bits_truncate(0x41).bits(), 1);
}

#[test]
fn flags_set_operations() {
    let f = PkgFlags::explicit().union(PkgFlags::updates());
    assert_eq!(f.bits(), 33);
    assert!(f.intersects(PkgFlags::installed()));
    assert!(!f.intersects(PkgFlags::none()));
    assert!(f.contains(PkgFlags::explicit()));
    assert!(!f.contains(PkgFlags::installed()));
    assert!(PkgFlags::installed().contains(PkgFlags::orphan()));
    assert!(PkgFlags::empty().is_empty());
    assert!(!f.is_empty());
}

#[test]
fn validation_is_valid_without_none_bit() {
    // No bit set: neither the unknown (empty) set nor NONE is met.
    assert!(PkgValidation::unknown().is_valid());
    assert!(!PkgValidation::none().is_valid());
    assert!(PkgValidation::md5sum().is_valid());
    assert!(PkgValidation::from_bits_truncate(2 | 4 | 8).is_valid());
    assert!(!PkgValidation::from_bits_truncate(1 | 4).is_valid());
    assert!(!PkgValidation::default().is_valid());
}

#[test]
fn validation_display_joins_names() {
    assert_eq!(PkgValidation::none().display_text(), "NONE");
    assert_eq!(
        PkgValidation::from_bits_truncate(2 | 4 | 8).display_text(),
        "MD5Sum | SHA256Sum | SIGNATURE"
    );
    assert_eq!(PkgValidation::from_bits_truncate(0x30).display_text(), "");
    assert_eq!(PkgValidation::from_bits_truncate(0x30).bits(), 0);
}

#[test]
fn decimal_strings() {
    assert_eq!(decimal_string(0), "0");
    assert_eq!(decimal_string(7), "7");
    assert_eq!(decimal_string(1234567890), "1234567890");
    assert_eq!(decimal_string(u64::MAX), u64::MAX.to_string());
}

#[test]
fn trimming_and_splitting() {
    let v: Vec<char> = "  \t gtk  4 \u{3000}".chars().collect();
    let t: String = trim_chars(&v).into_iter().collect();
    assert_eq!(t, "gtk  4");
    let words = split_whitespace(&"  a bb\u{a0}ccc  ".chars().collect());
    assert_eq!(words, vec!["a".to_string(), "bb".to_string(), "ccc".to_string()]);
    assert!(split_whitespace(&"   ".chars().collect()).is_empty());
}

#[test]
fn ascii_case_matching() {
    assert!(contains_ignore_ascii_case("Linux-Firmware", "firm"));
    assert!(!contains_ignore_ascii_case("linux", "linus"));
    assert!(eq_ignore_ascii_case("GTK4", "gtk4"));
    assert!(!eq_ignore_ascii_case("gtk4", "gtk"));
    assert!(!eq_ignore_ascii_case("Ä", "ä"));
}

#[test]
fn joining() {
    let v = vec!["a".to_string(), "b".to_string(), "c".to_string()];
    assert_eq!(join_strings(&v, " | "), "a | b | c");
    assert_eq!(join_strings(&Vec::new(), ", "), "");
    assert_eq!(join_strings(&vec!["x".to_string()], ", "), "x");
}

#[test]
fn text_order_and_equality() {
    assert!(text_eq("pacman", "pacman"));
    assert!(!text_eq("pacman", "pacma"));
    assert_eq!(compare_text("abc", "abd"), Order::Less);
    assert_eq!(compare_text("abc", "ab"), Order::Greater);
    assert_eq!(compare_text("", ""), Order::Equal);
    assert_eq!(compare_i64(-3, 2), Order::Less);
    assert_eq!(compare_i64(5, 5), Order::Equal);
    assert_eq!(Order::Less.reverse(), Order::Greater);
    let a = vec!["base".to_string()];
    let b = vec!["base".to_string(), "devel".to_string()];
    assert_eq!(compare_lists(&a, &b), Order::Less);
    assert_eq!(compare_lists(&b, &b), Order::Equal);
}

#[test]
fn validation_constants_and_search_nicks() {
    assert_eq!(PkgValidation::sha256sum().bits(), 4);
    assert_eq!(PkgValidation::signature().bits(), 8);
    assert_eq!(SearchProp::default(), SearchProp::Name);
    assert_eq!(SearchProp::NameDesc.nick(), "name-desc");
    assert_eq!(SearchProp::Optdeps.nick(), "optdeps");
    assert_eq!(SearchProp::Files.next(), SearchProp::Name);
    assert_eq!(SearchProp::Name.previous(), SearchProp::Files);
}
