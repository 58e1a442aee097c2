use vaultfetch::page::{extract_hash, extract_target, PageError};

const PAGE: &str = "<html><head><title>Vimm's Lair - Game (USA)</title></head><body><span id=\"data-crc\">1A2B3C4D</span><form action=\"/dl/123\"><input name=\"mediaId\" value=\"123\"></form></body></html>";

#[test]
fn full_page_yields_target() {
    let t = extract_target(PAGE, "https://vimm.net/vault/123").unwrap();
    assert_eq!(t.download_url, "https://vimm.net/dl/123");
    assert_eq!(t.media_id, "123");
    assert_eq!(t.expected_crc, "1a2b3c4d");
    assert_eq!(t.filename, "Game (USA)");
}

#[test]
fn protocol_relative_action_gets_scheme() {
    let page = "<html><head><title>Vimm's Lair - Game (USA)</title></head><body><span id=\"data-crc\">1a2b3c4d</span><form action=\"//download.vimm.net/\"><input name=\"mediaId\" value=\"9\"></form></body></html>";
    let t = extract_target(page, "https://vimm.net/vault/9").unwrap();
    assert_eq!(t.download_url, "https://download.vimm.net/");
    assert_eq!(t.media_id, "9");
}

#[test]
fn form_without_media_id_is_skipped() {
    let page = "<html><head><title>Vimm's Lair - Game (USA)</title></head><body><span id=\"data-crc\">1a2b3c4d</span><form action=\"/dl/none\"></form><form action=\"/dl/123\"><input name=\"mediaId\" value=\"123\"></form></body></html>";
    let t = extract_target(page, "https://vimm.net/vault/123").unwrap();
    assert_eq!(t.media_id, "123");
}

#[test]
fn page_without_form_is_rejected() {
    let page = "<html><body><span id=\"data-crc\">1a2b3c4d</span></body></html>";
    assert!(matches!(
        extract_target(page, "https://vimm.net/vault/1"),
        Err(PageError::MissingDownloadForm)
    ));
}

#[test]
fn page_without_checksum_is_rejected() {
    let page = "<html><body><form action=\"/dl/123\"><input name=\"mediaId\" value=\"123\"></form></body></html>";
    assert!(matches!(
        extract_target(page, "https://vimm.net/vault/1"),
        Err(PageError::MissingChecksum)
    ));
}

#[test]
fn missing_title_falls_back_to_generic_name() {
    let page = "<html><body><span id=\"data-crc\">1a2b3c4d</span><form action=\"/dl/123\"><input name=\"mediaId\" value=\"123\"></form></body></html>";
    let t = extract_target(page, "https://vimm.net/vault/123").unwrap();
    assert_eq!(t.filename, "download");
}

#[test]
fn hash_is_trimmed_and_lowercased() {
    let page = "<html><body><span id=\"data-crc\">  CAFEF00D\n</span></body></html>";
    assert_eq!(extract_hash(page, "data-crc"), Some("cafef00d".to_string()));
}

#[test]
fn hash_trims_unicode_whitespace() {
    let page = "<html><body><span id=\"data-crc\">\u{00A0}CAFEF00D\u{00A0}</span></body></html>";
    assert_eq!(extract_hash(page, "data-crc"), Some("cafef00d".to_string()));
}

#[test]
fn hash_absent_when_span_missing() {
    let page = "<html><body></body></html>";
    assert_eq!(extract_hash(page, "data-crc"), None);
}
