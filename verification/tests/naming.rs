use vaultfetch::filename::{after_last_slash, pending_name, sanitize_filename};
use vaultfetch::links::{is_vault_url, link_of_line};
use vaultfetch::transfer::{download_request_url, filename_from_disposition, is_success_status,
    record_progress};

#[test]
fn sanitize_strips_site_marker() {
    assert_eq!(sanitize_filename("Vimm's Lair - Game (USA)", "123"), "Game (USA)");
}

#[test]
fn sanitize_replaces_forbidden_characters() {
    assert_eq!(sanitize_filename("A: B/C*D?E", "9"), "A_ B_C_D_E");
}

#[test]
fn sanitize_short_title_uses_vault_id() {
    assert_eq!(sanitize_filename("  x  ", "77"), "item_77");
}

#[test]
fn sanitize_marker_only_title_uses_vault_id() {
    assert_eq!(sanitize_filename("Vimm's Lair", "5"), "item_5");
}

#[test]
fn sanitize_caps_length_at_200() {
    let long: String = std::iter::repeat('a').take(400).collect();
    assert_eq!(sanitize_filename(&long, "1").chars().count(), 200);
}

#[test]
fn sanitize_removes_every_marker_occurrence() {
    assert_eq!(
        sanitize_filename("Vimm's Lair - Vimm's Lair - Game (USA)", "123"),
        "Game (USA)"
    );
}

#[test]
fn sanitize_keeps_unicode_characters() {
    assert_eq!(sanitize_filename("Pokémon Rouge", "1"), "Pokémon Rouge");
}

#[test]
fn pending_name_appends_suffix() {
    assert_eq!(pending_name("Game (USA).7z"), "Game (USA).7z.pending");
}

#[test]
fn vault_id_is_last_url_segment() {
    assert_eq!(after_last_slash("https://vimm.net/vault/123"), "123");
    assert_eq!(after_last_slash("no-slash"), "no-slash");
}

#[test]
fn disposition_filename_quoted() {
    assert_eq!(
        filename_from_disposition("attachment; filename=\"Army Men (USA).7z\"", "fallback"),
        "Army Men (USA).7z"
    );
}

#[test]
fn disposition_filename_unquoted() {
    assert_eq!(filename_from_disposition("attachment; filename=abc.7z", "fallback"), "abc.7z");
}

#[test]
fn disposition_takes_text_between_repeated_markers() {
    // The text between the first and second marker is taken, with only
    // the surrounding quotes removed.
    assert_eq!(
        filename_from_disposition("filename=\"a\"; filename=\"b\"", "fb"),
        "a\"; "
    );
}

#[test]
fn disposition_without_filename_falls_back() {
    assert_eq!(filename_from_disposition("inline", "Game.7z"), "Game.7z");
}

#[test]
fn status_classification() {
    assert!(is_success_status(200));
    assert!(is_success_status(299));
    assert!(!is_success_status(199));
    assert!(!is_success_status(404));
    assert!(!is_success_status(500));
}

#[test]
fn request_url_carries_media_id() {
    assert_eq!(
        download_request_url("https://vimm.net/dl", "123"),
        "https://vimm.net/dl?mediaId=123"
    );
}

#[test]
fn progress_accumulates() {
    assert_eq!(record_progress(0, 8192), 8192);
    assert_eq!(record_progress(8192, 100), 8292);
}

#[test]
fn link_lines_are_trimmed() {
    assert_eq!(link_of_line("  https://vimm.net/vault/1  "), Some("https://vimm.net/vault/1".to_string()));
}

#[test]
fn comment_and_blank_lines_are_ignored() {
    assert_eq!(link_of_line("# a comment"), None);
    assert_eq!(link_of_line("   "), None);
    assert_eq!(link_of_line(""), None);
}

#[test]
fn vault_urls_are_recognised() {
    assert!(is_vault_url("https://vimm.net/vault/123"));
    assert!(!is_vault_url("https://example.com/other"));
}
