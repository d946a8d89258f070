use riplakish::codegen::{encode_hex, generate_code, generate_token};
use riplakish::guard::check_string_injection;

#[test]
fn whitelist_strings_pass() {
    assert!(!check_string_injection(""));
    assert!(!check_string_injection("abcd"));
    assert!(!check_string_injection("ABCDxyz0189"));
    assert!(!check_string_injection("https://example.com:8080/path_to/page-1.html"));
    assert!(!check_string_injection("127.0.0.1"));
    assert!(!check_string_injection("._-:/"));
}

#[test]
fn any_character_outside_the_whitelist_rejects() {
    assert!(check_string_injection(" "));
    assert!(check_string_injection("a b"));
    assert!(check_string_injection("a'b"));
    assert!(check_string_injection("a\"b"));
    assert!(check_string_injection("a;DROP TABLE redirects"));
    assert!(check_string_injection("a?b"));
    assert!(check_string_injection("a=b"));
    assert!(check_string_injection("a%20b"));
    assert!(check_string_injection("a\nb"));
    assert!(check_string_injection("caf\u{e9}"));
    assert!(check_string_injection("abc\u{1F600}"));
}

#[test]
fn one_bad_character_among_good_ones_rejects() {
    assert!(check_string_injection("https://example.com/a b"));
    assert!(check_string_injection("abcd!"));
    assert!(check_string_injection("!abcd"));
}

#[test]
fn hex_encoding_is_exact() {
    assert_eq!(encode_hex(&vec![]), "");
    assert_eq!(encode_hex(&vec![0x00]), "00");
    assert_eq!(encode_hex(&vec![0x0F]), "0F");
    assert_eq!(encode_hex(&vec![0xAB, 0x00, 0xFF]), "AB00FF");
    assert_eq!(encode_hex(&vec![0x12, 0x34]), "1234");
}

#[test]
fn generated_code_is_four_hex_digits() {
    let code = generate_code();
    assert_eq!(code.len(), 4);
    assert!(code.chars().all(|c| c.is_ascii_hexdigit()));
    assert!(!check_string_injection(code.as_str()));
}

#[test]
fn generated_token_is_thirty_two_hex_digits() {
    let token = generate_token();
    assert_eq!(token.len(), 32);
    assert!(token.chars().all(|c| c.is_ascii_hexdigit()));
    assert!(!check_string_injection(token.as_str()));
}
