use lapidary::download::{
    ascii_fallback, check_variant, content_disposition, download_filename, percent_encode,
    sanitize, served_intact, DownloadQuery, VariantCheck, MAX_FILENAME_BYTES,
};

#[test]
fn a_turkish_name_survives_in_one_half_and_degrades_in_the_other() {
    let filename = download_filename("Şaft yatak kapağı, LP-3120-05", "stl");
    assert_eq!(filename, "Şaft yatak kapağı, LP-3120-05.stl");
    assert_eq!(
        content_disposition(&filename),
        "attachment; filename=\"_aft yatak kapa__, LP-3120-05.stl\"; filename*=UTF-8''%C5%9Eaft%20yatak%20kapa%C4%9F%C4%B1%2C%20LP-3120-05.stl"
    );
}

#[test]
fn a_name_cannot_carry_a_path_a_quote_or_a_control_character() {
    assert_eq!(
        download_filename("../../etc/passwd", "step"),
        "....etcpasswd.step",
        "a separator is dropped, so the dots that remain cannot traverse anywhere"
    );
    assert_eq!(
        download_filename("Kapak\"; rm -rf /\r\n", "stl"),
        "Kapak; rm -rf .stl",
        "the quote that would close the ASCII half, and the CRLF that would end the header, are both gone"
    );
    assert_eq!(download_filename("   ", "3mf"), "download.3mf");
}

#[test]
fn the_characters_attr_char_excludes_are_escaped_rather_than_passed_through() {
    assert_eq!(
        content_disposition(&download_filename("M8'lik flanş, %20 dolgu *taslak*, LP-4415-02", "stl")),
        "attachment; filename=\"M8'lik flan_, %20 dolgu *taslak*, LP-4415-02.stl\"; filename*=UTF-8''M8%27lik%20flan%C5%9F%2C%20%2520%20dolgu%20%2Ataslak%2A%2C%20LP-4415-02.stl"
    );
    assert_eq!(
        content_disposition(&download_filename("Rulman%2FLP-4415-02", "step")),
        "attachment; filename=\"Rulman%2FLP-4415-02.step\"; filename*=UTF-8''Rulman%252FLP-4415-02.step"
    );
}

#[test]
fn a_long_turkish_name_is_capped_in_bytes_without_splitting_a_character() {
    let name = "ğ".repeat(300);
    let filename = download_filename(&name, "step");
    assert!(filename.len() <= MAX_FILENAME_BYTES, "capped in bytes, got {} for {filename}", filename.len());
    assert!(filename.ends_with("ğ.step"), "and not mid-character: {filename}");
}

#[test]
fn a_long_name_fills_exactly_the_bytes_the_extension_leaves() {
    let filename = download_filename(&"a".repeat(500), "step");
    assert_eq!(filename.len(), MAX_FILENAME_BYTES);
    assert_eq!(filename, format!("{}.step", "a".repeat(MAX_FILENAME_BYTES - 5)));
}

#[test]
fn an_extension_that_leaves_no_room_gets_no_stem() {
    let format = "x".repeat(250);
    assert_eq!(download_filename("bracket", &format), format!(".{format}"));
}

#[test]
fn the_variant_is_original_or_is_answered_for_what_it_is() {
    assert_eq!(check_variant(&DownloadQuery { variant: Some("original".to_owned()) }), VariantCheck::Original);
    assert_eq!(check_variant(&DownloadQuery { variant: Some("3mf".to_owned()) }), VariantCheck::Unknown);
    assert_eq!(check_variant(&DownloadQuery { variant: Some(String::new()) }), VariantCheck::Missing);
    assert_eq!(check_variant(&DownloadQuery { variant: None }), VariantCheck::Missing);
}

#[test]
fn each_half_of_the_header_on_its_own() {
    assert_eq!(sanitize("a/b\\c\"d\u{7f}e\u{85}f"), "abcdef");
    assert_eq!(ascii_fallback("Ünïcode ok"), "_n_code ok");
    assert_eq!(percent_encode("a b~c"), "a%20b~c");
    assert_eq!(percent_encode("ğ"), "%C4%9F");
}

#[test]
fn a_download_is_served_only_when_its_bytes_hash_to_the_revision() {
    let bytes = b"solid flange\nendsolid flange\n";
    let stored = blake3::hash(bytes).to_hex().to_string();
    assert!(served_intact(&stored, bytes));
    assert!(!served_intact(&stored, b"solid flange\nendsolid flangE\n"));
    assert!(!served_intact(&stored.to_uppercase(), bytes));
    assert!(served_intact("af1349b9f5f9a1a6a0404dea36dcc9499bcb25c9adc112b7cc9a93cae41f3262", b""));
}

#[test]
fn a_percent_encoded_name_keeps_every_byte_of_the_original() {
    assert_eq!(percent_encode("Rulman%2FLP-4415-02.step"), "Rulman%252FLP-4415-02.step");
    assert_eq!(percent_encode("a b/ç"), "a%20b%2F%C3%A7");
    assert_eq!(percent_encode("!#$&+-.^_`|~"), "!#$&+-.^_`|~");
}

#[test]
fn an_encoded_name_holds_only_attr_chars_and_uppercase_triplets() {
    let plain = "Rulman-LP_4415.02!#$&+^`|~";
    assert_eq!(percent_encode(plain), plain);
    let encoded = percent_encode("Şaft yatak kapağı, LP-3120-05.stl");
    assert_eq!(encoded, "%C5%9Eaft%20yatak%20kapa%C4%9F%C4%B1%2C%20LP-3120-05.stl");
    assert!(encoded.chars().all(|c| c.is_ascii_alphanumeric() || "!#$&+-.^_`|~%".contains(c)));
}
