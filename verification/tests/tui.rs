use llmfit::cursor::{visible_dm_dir_input, visible_search_query, DM_MODELS_DIR_LABEL};
use llmfit::tui::truncate_str;

#[test]
fn truncate_str_handles_multibyte_utf8() {
    assert_eq!(truncate_str("hello", 10), "hello");
    assert_eq!(truncate_str("hello world", 5), "hell~");
    assert_eq!(truncate_str("こんにちは世界", 4), "こんに~");
    assert_eq!(truncate_str("🚀 hello", 4), "🚀 h~");
    assert_eq!(truncate_str("abc", 3), "abc");
}

#[test]
fn visible_search_query_keeps_short_query_unchanged() {
    assert_eq!(visible_search_query("hello", 3, 10), ("hello".to_string(), 3));
}

#[test]
fn visible_search_query_scrolls_to_keep_end_cursor_visible() {
    assert_eq!(
        visible_search_query("abcdefghijklmnopqrstuvwxyz", 26, 8),
        ("tuvwxyz".to_string(), 7)
    );
}

#[test]
fn visible_search_query_keeps_middle_cursor_visible() {
    assert_eq!(
        visible_search_query("abcdefghijklmnopqrstuvwxyz", 13, 8),
        ("ghijklm".to_string(), 7)
    );
}

#[test]
fn visible_search_query_handles_multibyte_cursor_boundaries() {
    assert_eq!(
        visible_search_query("你好世界abc", "你好世界abc".len(), 5),
        ("abc".to_string(), 3)
    );

    assert_eq!(visible_search_query("你好世界abc", 1, 5), ("你好".to_string(), 0));
}

#[test]
fn visible_search_query_uses_terminal_cell_width() {
    assert_eq!(visible_search_query("ab😀cd", "ab😀cd".len(), 5), ("😀cd".to_string(), 4));

    assert_eq!(
        visible_search_query("你好世界abc", "你好世界abc".len(), 6),
        ("界abc".to_string(), 5)
    );
}

#[test]
fn visible_dm_dir_input_keeps_unicode_cursor_visible() {
    let input = "/tmp/模型/一二三四";

    assert_eq!(
        visible_dm_dir_input(input, input.len(), (DM_MODELS_DIR_LABEL.len() + 8) as u16),
        ("二三四".to_string(), 6)
    );
}
