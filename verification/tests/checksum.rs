use terustry::RegistryError;
use terustry::checksum::{build_needle, extract};

#[test]
fn extract_picks_first_matching_line() {
    let first_hex = "aaaaaaaaaaaaaaaaaaaaaaaaaaaaaaaaaaaaaaaaaaaaaaaaaaaaaaaaaaaaaaaa";
    let other_hex = "bbbbbbbbbbbbbbbbbbbbbbbbbbbbbbbbbbbbbbbbbbbbbbbbbbbbbbbbbbbbbbbb";
    let manifest = format!("abc def_amd64 {}\nxyz def_amd64 {}", first_hex, other_hex);
    let got = extract(&manifest, "def", "amd64");
    assert_eq!(got, Ok(first_hex.to_string()));
}

#[test]
fn extract_is_deterministic() {
    let hex = "0123456789abcdef0123456789abcdef0123456789abcdef0123456789abcdef";
    let manifest = format!("pkg_1.0.0_linux_amd64.zip {}", hex);
    let a = extract(&manifest, "linux", "amd64");
    let b = extract(&manifest, "linux", "amd64");
    assert_eq!(a, b);
    assert_eq!(a, Ok(hex.to_string()));
}

#[test]
fn extract_line_not_found_when_no_line_mentions_platform() {
    let hex = "0123456789abcdef0123456789abcdef0123456789abcdef0123456789abcdef";
    let manifest = format!("pkg_1.0.0_linux_amd64.zip {}", hex);
    let got = extract(&manifest, "windows", "arm64");
    assert_eq!(got, Err(RegistryError::LineNotFound));
}

#[test]
fn extract_checksum_not_parsable_when_line_has_no_64_char_token() {
    let manifest = "pkg_linux_amd64.zip deadbeef\nother line";
    let got = extract(manifest, "linux", "amd64");
    assert_eq!(got, Err(RegistryError::ChecksumNotParsable));
}

#[test]
fn extract_on_empty_manifest_is_line_not_found() {
    assert_eq!(extract("", "linux", "amd64"), Err(RegistryError::LineNotFound));
}

#[test]
fn extract_takes_first_64_char_token_within_the_line() {
    let first_hex = "cccccccccccccccccccccccccccccccccccccccccccccccccccccccccccccccc";
    let second_hex = "dddddddddddddddddddddddddddddddddddddddddddddddddddddddddddddddd";
    let manifest = format!("x {} pkg_linux_amd64.zip {}", first_hex, second_hex);
    assert_eq!(extract(&manifest, "linux", "amd64"), Ok(first_hex.to_string()));
}

#[test]
fn extract_treats_tab_as_a_token_separator() {
    let hex = "0123456789abcdef0123456789abcdef0123456789abcdef0123456789abcdef";
    let manifest = format!("pkg_linux_amd64.zip\t{}", hex);
    assert_eq!(extract(&manifest, "linux", "amd64"), Ok(hex.to_string()));
}

#[test]
fn extract_never_returns_a_token_holding_whitespace() {
    // Splitting on the space alone would see one 64-character field here;
    // the tab inside it separates two shorter tokens, so no digest exists.
    let field = format!("def_amd64\t{}", "x".repeat(54));
    assert_eq!(field.chars().count(), 64);
    let manifest = format!("{} other", field);
    assert_eq!(extract(&manifest, "def", "amd64"), Err(RegistryError::ChecksumNotParsable));
}

#[test]
fn extract_matches_are_case_sensitive() {
    let hex = "eeeeeeeeeeeeeeeeeeeeeeeeeeeeeeeeeeeeeeeeeeeeeeeeeeeeeeeeeeeeeeee";
    let manifest = format!("pkg_LINUX_amd64.zip {}", hex);
    assert_eq!(extract(&manifest, "linux", "amd64"), Err(RegistryError::LineNotFound));
}

#[test]
fn build_needle_joins_os_and_arch() {
    assert_eq!(build_needle("linux", "amd64"), "linux_amd64");
}
