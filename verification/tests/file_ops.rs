use shuji::tool::file_ops::{
    check_append_request, check_create_request, check_edit_request, edit_content, modify_content, read_excerpt,
};

#[test]
fn edit_replaces_the_single_occurrence() {
    let (out, msg) = edit_content("let a = 1;\nlet b = 2;\n", "b = 2", "b = 3").unwrap();
    assert_eq!(out, "let a = 1;\nlet b = 3;\n");
    assert_eq!(msg, "成功替换 1 处文本（22 字节 → 22 字节）");
}

#[test]
fn edit_refuses_missing_and_repeated_text() {
    let e = edit_content("abc", "zz", "y").unwrap_err();
    assert_eq!(e.code, "search_not_found");
    assert!(e.message.contains("```\nzz\n```"));
    let e = edit_content("x x x", "x", "y").unwrap_err();
    assert_eq!(e.code, "search_ambiguous");
    assert_eq!(e.message, "SEARCH 文本在文件中出现 3 次，不唯一。请在 search 中包含更多上下文行。");
}

#[test]
fn long_search_text_is_previewed_to_120_bytes() {
    let s = "q".repeat(200);
    let e = edit_content("abc", &s, "y").unwrap_err();
    assert!(e.message.contains(&format!("{}...", "q".repeat(120))));
    assert!(!e.message.contains(&"q".repeat(121)));
}

#[test]
fn modify_checks_in_order() {
    assert_eq!(modify_content("abc", "", "x").unwrap_err().code, "empty_old_text");
    assert_eq!(modify_content("abc", &"a".repeat(801), "x").unwrap_err().code, "text_too_long");
    assert_eq!(modify_content("abc", "zz", "x").unwrap_err().code, "not_found");
    let (out, msg) = modify_content("a b a", "a", "c").unwrap();
    assert_eq!(out, "c b a");
    assert_eq!(msg, "替换成功（替换 1 字节）");
}

#[test]
fn file_request_checks() {
    assert_eq!(check_append_request("", "x").unwrap_err().code, "empty_path");
    assert_eq!(check_append_request("a", "").unwrap_err().code, "empty_content");
    assert_eq!(check_append_request("a", &"x".repeat(2001)).unwrap_err().code, "content_too_long");
    assert!(check_append_request("a", "x").is_ok());
    assert_eq!(check_edit_request("", "x").unwrap_err().code, "empty_path");
    assert_eq!(check_edit_request("a", "").unwrap_err().code, "empty_search");
    assert!(check_edit_request("a", "x").is_ok());
}

#[test]
fn excerpt_numbers_lines_from_the_offset() {
    let s = read_excerpt("src/a.rs", "one\ntwo\nthree\n", 1, 1).unwrap();
    assert_eq!(s, "src/a.rs（共 3 行，显示 2-2）\n   2| two");
    let all = read_excerpt("a", "x\r\ny", 0, u64::MAX).unwrap();
    assert_eq!(all, "a（共 2 行，显示 1-2）\n   1| x\n   2| y");
}

#[test]
fn whole_read_of_a_long_file_is_refused() {
    let content = "l\n".repeat(201);
    let e = read_excerpt("a", &content, 0, u64::MAX).unwrap_err();
    assert_eq!(e.code, "too_large");
    assert_eq!(e.message, "文件过大（共 201 行）。请用 offset 和 limit 参数分段读取。");
    assert!(read_excerpt("a", &content, 0, 10).is_ok());
}

#[test]
fn offset_past_the_end_shows_nothing() {
    let s = read_excerpt("a", "x\ny\n", 10, 5).unwrap();
    assert_eq!(s, "a（共 2 行，显示 3-2）\n");
}

#[test]
fn create_requests_are_checked() {
    let e = check_create_request("", "x").unwrap_err();
    assert_eq!((e.code.as_str(), e.message.as_str()), ("empty_path", "File path is empty"));
    let e = check_create_request("a.txt", &"é".repeat(4001)).unwrap_err();
    assert_eq!(e.code, "content_too_long");
    assert_eq!(
        e.message,
        "content length 8002 exceeds max 8000 chars. Use create_file + append_file to write in chunks."
    );
    assert!(check_create_request("a.txt", "").is_ok());
    assert!(check_create_request("a.txt", &"x".repeat(8000)).is_ok());
}
