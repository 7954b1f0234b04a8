use shuji::tool::patch::{
    apply_blocks, apply_patch_to_content, check_patch_request, parse_search_replace_blocks,
    patch_is_parsable,
};

#[test]
fn a_block_drops_the_character_after_the_separator() {
    let p = "<<<<<<< SEARCH\nold\n=======\nXnew\n>>>>>>> REPLACE";
    let blocks = parse_search_replace_blocks(p).unwrap();
    assert_eq!(blocks, vec![("old".to_string(), "new".to_string())]);
}

#[test]
fn empty_search_block() {
    let p = "<<<<<<< SEARCH\n=======\n_all new\n>>>>>>> REPLACE";
    let blocks = parse_search_replace_blocks(p).unwrap();
    assert_eq!(blocks, vec![("".to_string(), "all new".to_string())]);
}

#[test]
fn two_blocks_in_order() {
    let p = "<<<<<<< SEARCH\na\n=======\n_b\n>>>>>>> REPLACE\n<<<<<<< SEARCH\nc\n=======\n_d\n>>>>>>> REPLACE";
    let blocks = parse_search_replace_blocks(p).unwrap();
    assert_eq!(blocks.len(), 2);
    assert_eq!(blocks[1], ("c".to_string(), "d".to_string()));
}

#[test]
fn parse_errors() {
    assert_eq!(
        parse_search_replace_blocks("no blocks at all").unwrap_err(),
        "No SEARCH/REPLACE blocks found. Format:\n<<<<<<< SEARCH\nold text\n=======\nnew text\n>>>>>>> REPLACE"
    );
    assert_eq!(
        parse_search_replace_blocks("<<<<<<< SEARCH\nold\n").unwrap_err(),
        "SEARCH/REPLACE block missing '=======' separator."
    );
    assert_eq!(
        parse_search_replace_blocks("<<<<<<< SEARCH\nold\n=======\n_new\n").unwrap_err(),
        "SEARCH/REPLACE block missing '>>>>>>> REPLACE' end marker."
    );
}

#[test]
fn a_multibyte_character_after_the_separator_cannot_be_sliced() {
    assert!(!patch_is_parsable("<<<<<<< SEARCH\nold\n=======\né\n>>>>>>> REPLACE"));
    assert!(!patch_is_parsable("<<<<<<< SEARCH\nold\n=======\n"));
    assert!(patch_is_parsable("<<<<<<< SEARCH\nold\n=======\nxnew\n>>>>>>> REPLACE"));
}

#[test]
fn applying_a_unique_block() {
    let (out, msg) = apply_patch_to_content(
        "fn a() {}\nfn b() {}\n",
        "<<<<<<< SEARCH\nfn b() {}\n=======\n_fn c() {}\n>>>>>>> REPLACE",
    )
    .unwrap();
    assert_eq!(out, "fn a() {}\nfn c() {}\n");
    assert_eq!(msg, "Successfully applied 1 SEARCH/REPLACE block(s) (20 bytes -> 20 bytes)");
}

#[test]
fn search_not_found_and_ambiguous() {
    let e = apply_patch_to_content("abc", "<<<<<<< SEARCH\nzzz\n=======\n_y\n>>>>>>> REPLACE").unwrap_err();
    assert_eq!(e.code, "search_not_found");
    assert_eq!(e.message, "SEARCH block #1 not found in the file.\nSearched for text:\n```\nzzz\n```");
    let e = apply_patch_to_content("aXaXa", "<<<<<<< SEARCH\na\n=======\n_b\n>>>>>>> REPLACE").unwrap_err();
    assert_eq!(e.code, "search_ambiguous");
    assert_eq!(e.message, "SEARCH block #1 appears 3 times in the file, not unique.");
    let e = apply_patch_to_content("abc", "garbage").unwrap_err();
    assert_eq!(e.code, "parse_error");
}

#[test]
fn occurrences_are_counted_without_overlap() {
    let blocks = vec![("aa".to_string(), "b".to_string())];
    let e = apply_blocks("aaa", &blocks);
    assert_eq!(e.unwrap(), "ba");
}

#[test]
fn patch_request_checks() {
    assert_eq!(check_patch_request("", "x").unwrap_err().code, "empty_path");
    assert_eq!(check_patch_request("a", "").unwrap_err().code, "empty_patch");
    let big = "x".repeat(50001);
    let e = check_patch_request("a", &big).unwrap_err();
    assert_eq!(e.code, "patch_too_large");
    assert_eq!(
        e.message,
        "patch length 50001 exceeds max 50000 chars. Split into multiple apply_patch calls."
    );
    assert!(check_patch_request("a", &"x".repeat(50000)).is_ok());
}
