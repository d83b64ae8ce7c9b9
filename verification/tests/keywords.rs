use pledge_unveil::promises::bytes_eq;
use pledge_unveil::promises::keywords_subset;
use pledge_unveil::promises::list_contains;
use pledge_unveil::promises::split_keywords;

fn toks(words: &[&[u8]]) -> Vec<Vec<u8>> {
    words.iter().map(|w| w.to_vec()).collect()
}

#[test]
fn keywords_split_on_spaces() {
    let r = split_keywords(b"stdio rpath wpath");
    assert_eq!(r.len(), 3);
    assert_eq!(r[0].as_slice(), b"stdio");
    assert_eq!(r[1].as_slice(), b"rpath");
    assert_eq!(r[2].as_slice(), b"wpath");
}

#[test]
fn repeated_and_edge_separators_collapse() {
    let r = split_keywords(b"  stdio   rpath ");
    assert_eq!(r.len(), 2);
    assert_eq!(r[0].as_slice(), b"stdio");
    assert_eq!(r[1].as_slice(), b"rpath");
}

#[test]
fn empty_and_blank_strings_have_no_keywords() {
    assert!(split_keywords(b"").is_empty());
    assert!(split_keywords(b"   ").is_empty());
}

#[test]
fn single_keyword_is_whole_string() {
    let r = split_keywords(b"unix");
    assert_eq!(r.len(), 1);
    assert_eq!(r[0].as_slice(), b"unix");
}

#[test]
fn byte_equality_compares_contents() {
    assert!(bytes_eq(b"stdio", b"stdio"));
    assert!(!bytes_eq(b"stdio", b"stdi"));
    assert!(!bytes_eq(b"stdio", b"rpath"));
    assert!(bytes_eq(b"", b""));
}

#[test]
fn keyword_membership() {
    let list = toks(&[b"stdio", b"rpath"]);
    assert!(list_contains(&list, b"stdio"));
    assert!(list_contains(&list, b"rpath"));
    assert!(!list_contains(&list, b"wpath"));
    assert!(!list_contains(&toks(&[]), b"stdio"));
}

#[test]
fn keyword_subset_is_set_inclusion() {
    let big = toks(&[b"stdio", b"rpath", b"wpath"]);
    let small = toks(&[b"rpath", b"stdio"]);
    let other = toks(&[b"unix"]);
    assert!(keywords_subset(&small, &big));
    assert!(!keywords_subset(&big, &small));
    assert!(!keywords_subset(&other, &big));
    assert!(keywords_subset(&toks(&[]), &big));
    // repetition is irrelevant: comparison is of sets
    let dup = toks(&[b"stdio", b"stdio"]);
    assert!(keywords_subset(&dup, &toks(&[b"stdio"])));
}
