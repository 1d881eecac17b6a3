use mailcore::text::{
    calculate_text_hash, map_folder_name, prepare_email_text, strip_html, truncate_text,
};

#[test]
fn test_prepare_email_text() {
    let text = prepare_email_text(
        "Meeting Tomorrow",
        "John Doe",
        "<html><body>Let's meet at 3pm</body></html>",
    );
    assert!(text.contains("Meeting Tomorrow"));
    assert!(text.contains("John Doe"));
    assert!(text.contains("meet at 3pm"));
}

#[test]
fn test_strip_html() {
    let html = "<p>Hello <b>World</b></p>";
    let text = strip_html(html);
    assert_eq!(text, "Hello World");
}

#[test]
fn test_calculate_text_hash() {
    let hash1 = calculate_text_hash("hello");
    let hash2 = calculate_text_hash("hello");
    let hash3 = calculate_text_hash("world");

    assert_eq!(hash1, hash2);
    assert_ne!(hash1, hash3);
}

#[test]
fn hash_matches_known_digest() {
    let hash = calculate_text_hash("hello");
    assert_eq!(hash, "5d41402abc4b2a76b9719d911017c592");
    assert_eq!(hash.len(), 32);
}

#[test]
fn strip_collapses_whitespace_runs() {
    assert_eq!(strip_html("  a \n\n b  "), "a b");
    assert_eq!(strip_html(""), "");
    assert_eq!(strip_html("<br/>"), "");
}

#[test]
fn truncate_keeps_short_text() {
    assert_eq!(truncate_text("abc", 10), "abc");
    assert_eq!(truncate_text("", 0), "");
}

#[test]
fn truncate_appends_ellipsis() {
    assert_eq!(truncate_text("abcdef", 3), "abc...");
    assert_eq!(truncate_text("abcd", 3), "abc...");
}

#[test]
fn folder_names_map_case_insensitively() {
    assert_eq!(map_folder_name("Inbox"), "INBOX");
    assert_eq!(map_folder_name("inbox"), "INBOX");
    assert_eq!(map_folder_name("SENT"), "Sent");
    assert_eq!(map_folder_name("drafts"), "Drafts");
    assert_eq!(map_folder_name("TRASH"), "Trash");
    assert_eq!(map_folder_name("Spam"), "Spam");
    assert_eq!(map_folder_name("Archive"), "Archive");
}
