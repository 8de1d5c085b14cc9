use sageguard::classifier::parse_seed_list;
use sageguard::diagnostic::{decimal_text, join_texts};
use sageguard::scan::list_elements;
use sageguard::text::{
    char_is_whitespace, chars_of, comes_before, contains_text, find_char_in, find_text_in,
    same_text, starts_with_text, text_is, trim_bounds,
};

#[test]
fn decimal_text_of_small_and_large_numbers() {
    assert_eq!(decimal_text(0), "0");
    assert_eq!(decimal_text(7), "7");
    assert_eq!(decimal_text(10), "10");
    assert_eq!(decimal_text(4096), "4096");
    assert_eq!(decimal_text(usize::MAX), usize::MAX.to_string());
}

#[test]
fn join_puts_the_separator_between_neighbours_only() {
    let none: Vec<String> = Vec::new();
    assert_eq!(join_texts(&none, ", "), "");
    assert_eq!(join_texts(&vec!["a".to_string()], ", "), "a");
    assert_eq!(join_texts(&vec!["a".to_string(), "b".to_string(), "c".to_string()], ", "), "a, b, c");
}

#[test]
fn find_text_yields_first_occurrence() {
    let hay = chars_of("xx seeds = seeds");
    let needle = chars_of("seeds");
    assert_eq!(find_text_in(&hay, &needle, 0), Some(3));
    assert_eq!(find_text_in(&hay, &needle, 4), Some(11));
    assert_eq!(find_text_in(&hay, &needle, 12), None);
    assert_eq!(find_text_in(&needle, &hay, 0), None);
}

#[test]
fn find_text_of_empty_needle_is_the_start() {
    let hay = chars_of("abc");
    let empty = chars_of("");
    assert_eq!(find_text_in(&hay, &empty, 0), Some(0));
    assert_eq!(find_text_in(&hay, &empty, 3), Some(3));
    assert_eq!(find_text_in(&hay, &empty, 4), None);
}

#[test]
fn find_char_searches_from_the_given_index() {
    let hay = chars_of("[a][b]");
    assert_eq!(find_char_in(&hay, ']', 0), Some(2));
    assert_eq!(find_char_in(&hay, ']', 3), Some(5));
    assert_eq!(find_char_in(&hay, '[', 4), None);
    assert_eq!(find_char_in(&hay, '[', 100), None);
}

#[test]
fn trim_bounds_strips_both_ends() {
    let chars = chars_of("  ab \t");
    assert_eq!(trim_bounds(&chars, 0, chars.len()), (2, 4));
    assert_eq!(trim_bounds(&chars, 0, 2), (2, 2));
    assert_eq!(trim_bounds(&chars, 2, 4), (2, 4));
}

#[test]
fn white_space_is_the_unicode_property() {
    for c in [' ', '\t', '\n', '\r', '\u{0B}', '\u{0C}', '\u{85}', '\u{A0}', '\u{1680}', '\u{2000}', '\u{200A}', '\u{2028}', '\u{2029}', '\u{202F}', '\u{205F}', '\u{3000}'] {
        assert!(char_is_whitespace(c));
        assert!(c.is_whitespace());
    }
    for c in ['a', '0', '_', '\u{200B}', '\u{FEFF}', '\u{1F}'] {
        assert!(!char_is_whitespace(c));
        assert!(!c.is_whitespace());
    }
}

#[test]
fn chars_of_counts_characters_not_bytes() {
    assert_eq!(chars_of("a\u{e9}\u{4e2d}"), vec!['a', '\u{e9}', '\u{4e2d}']);
}

#[test]
fn text_comparisons() {
    let a = "alpha".to_string();
    assert!(text_is(&a, "alpha"));
    assert!(!text_is(&a, "alph"));
    assert!(same_text(&a, &"alpha".to_string()));
    assert!(!same_text(&a, &"beta".to_string()));
    let names = vec!["x".to_string(), "y".to_string()];
    assert!(contains_text(&names, &"y".to_string()));
    assert!(!contains_text(&names, &"z".to_string()));
    assert!(starts_with_text("handle_it", "handle_"));
    assert!(!starts_with_text("handl", "handle_"));
    assert!(starts_with_text("abc", ""));
}

#[test]
fn order_of_code_points() {
    let before = |a: &str, b: &str| comes_before(&chars_of(a), &chars_of(b));
    assert!(before("Alpha", "Beta"));
    assert!(!before("Beta", "Alpha"));
    assert!(before("Pool", "PoolConfig"));
    assert!(!before("PoolConfig", "Pool"));
    assert!(!before("Pool", "Pool"));
    assert!(before("", "a"));
    assert!(!before("a", ""));
    assert!(before("Z", "a"));
    for (a, b) in [("Vault", "Value"), ("a", "b"), ("abc", "abd"), ("\u{e9}", "\u{4e2d}")] {
        assert_eq!(before(a, b), a < b);
        assert_eq!(before(b, a), b < a);
    }
}

fn list(texts: &[&str]) -> Option<Vec<String>> {
    Some(texts.iter().map(|t| t.to_string()).collect())
}

#[test]
fn seed_list_is_read_up_to_the_closing_bracket() {
    assert_eq!(
        parse_seed_list("mut , seeds = [b\"pool\" , signer . key () . as_ref ()] , bump"),
        list(&["b\"pool\"", "signer . key () . as_ref ()"])
    );
    assert_eq!(parse_seed_list("mut , bump"), None);
    assert_eq!(parse_seed_list("seeds = [ ]"), list(&[""]));
    assert_eq!(parse_seed_list("x = [q] , seeds = [a]"), list(&["a"]));
}

#[test]
fn seed_list_needs_the_word_and_both_brackets() {
    assert_eq!(parse_seed_list("[a , b]"), None);
    assert_eq!(parse_seed_list("seeds = SEEDS"), None);
    assert_eq!(parse_seed_list("seeds = [a , b"), None);
    assert_eq!(parse_seed_list("seeds = [a , (b] , c)"), None);
}

#[test]
fn seed_elements_keep_their_own_commas_and_brackets() {
    assert_eq!(
        parse_seed_list("seeds = [foo (a , b) . as_ref () , c] , bump"),
        list(&["foo (a , b) . as_ref ()", "c"])
    );
    assert_eq!(parse_seed_list("seeds = [arr [0] , c]"), list(&["arr [0]", "c"]));
    assert_eq!(parse_seed_list("seeds = [& [1 , 2] , x]"), list(&["& [1 , 2]", "x"]));
    assert_eq!(
        parse_seed_list("seeds = [Key { a : 1 , b : [2 , 3] } . bytes () , d]"),
        list(&["Key { a : 1 , b : [2 , 3] } . bytes ()", "d"])
    );
}

#[test]
fn seed_elements_keep_what_stands_in_literals() {
    assert_eq!(parse_seed_list("seeds = [b\"a,b]\" , c]"), list(&["b\"a,b]\"", "c"]));
    assert_eq!(parse_seed_list("seeds = [\"q\\\"],\" , c]"), list(&["\"q\\\"],\"", "c"]));
    assert_eq!(parse_seed_list("seeds = [& [b','] , b']' , '\\''] , c"), list(&["& [b',']", "b']'", "'\\''"]));
    assert_eq!(parse_seed_list("seeds = [r\"a\\\" , c]"), list(&["r\"a\\\"", "c"]));
    assert_eq!(
        parse_seed_list("seeds = [r#\"a\"],\"# , c]"),
        list(&["r#\"a\"],\"#", "c"])
    );
    assert_eq!(
        parse_seed_list("seeds = [f :: < 'a > (x) , c]"),
        list(&["f :: < 'a > (x)", "c"])
    );
}

#[test]
fn list_elements_stop_at_the_bracket_that_closes_the_list() {
    assert_eq!(list_elements("a , b] , c]"), list(&["a", "b"]));
    assert_eq!(list_elements("[a] , [b , [c]]] , d"), list(&["[a]", "[b , [c]]"]));
    assert_eq!(list_elements("]"), list(&[""]));
    assert_eq!(list_elements(" , ]"), list(&["", ""]));
    assert_eq!(list_elements(""), None);
    assert_eq!(list_elements("a , b"), None);
    assert_eq!(list_elements("(]"), None);
    assert_eq!(list_elements(") , a]"), list(&[")", "a"]));
}
