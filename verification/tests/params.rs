use pastebin::params::{
    code_char, valid_device_code, DeviceCode, HostHeader, IsPlaintextRequest, DEVICE_CODE_LENGTH,
};
use pastebin::text::{contains_text, head_before};

#[test]
fn device_code_has_eight_characters() {
    assert_eq!(DEVICE_CODE_LENGTH, 8);
}

#[test]
fn code_char_takes_upper_case_and_digits() {
    assert!(code_char('A'));
    assert!(code_char('Z'));
    assert!(code_char('0'));
    assert!(code_char('9'));
    assert!(!code_char('a'));
    assert!(!code_char('z'));
    assert!(!code_char('@'));
    assert!(!code_char('['));
    assert!(!code_char('/'));
    assert!(!code_char(':'));
    assert!(!code_char('\u{c9}'));
}

#[test]
fn well_formed_device_codes_pass() {
    assert!(valid_device_code("DEVICE01"));
    assert!(valid_device_code("ABCDEFGH"));
    assert!(valid_device_code("01234567"));
    assert!(valid_device_code("ZZZZ9999"));
}

#[test]
fn ill_formed_device_codes_fail() {
    assert!(!valid_device_code(""));
    assert!(!valid_device_code("DEVICE0"));
    assert!(!valid_device_code("DEVICE001"));
    assert!(!valid_device_code("device01"));
    assert!(!valid_device_code("DEVICE0a"));
    assert!(!valid_device_code("DEVICE-1"));
    assert!(!valid_device_code("DEVICE 1"));
    assert!(!valid_device_code("DEVIC\u{c9}01"));
    assert!(!valid_device_code("DEVI\u{c9}01"));
    assert!(!valid_device_code("DEVICE0\u{c9}"));
}

#[test]
fn device_code_header_is_kept_when_well_formed() {
    assert_eq!(DeviceCode::from_header(Some("DEVICE01")).0, Some("DEVICE01".to_string()));
}

#[test]
fn device_code_header_is_dropped_when_missing_or_ill_formed() {
    assert_eq!(DeviceCode::from_header(None).0, None);
    assert_eq!(DeviceCode::from_header(Some("device01")).0, None);
    assert_eq!(DeviceCode::from_header(Some("DEVICE001")).0, None);
    assert_eq!(DeviceCode::from_header(Some("")).0, None);
}

#[test]
fn plain_content_type_wants_plaintext() {
    assert!(IsPlaintextRequest::from_headers("text/plain", Some("Mozilla/5.0")).0);
    assert!(IsPlaintextRequest::from_headers("text/plain", None).0);
}

#[test]
fn missing_agent_wants_plaintext() {
    assert!(IsPlaintextRequest::from_headers("", None).0);
    assert!(IsPlaintextRequest::from_headers("text/html", None).0);
}

#[test]
fn console_clients_want_plaintext() {
    assert!(IsPlaintextRequest::from_headers("", Some("curl/8.4.0")).0);
    assert!(IsPlaintextRequest::from_headers("", Some("Wget/1.21")).0);
    assert!(IsPlaintextRequest::from_headers("", Some("HTTPie/3.2.1")).0);
    assert!(IsPlaintextRequest::from_headers("", Some("curl")).0);
    assert!(IsPlaintextRequest::from_headers("application/json", Some("curl/7/extra")).0);
}

#[test]
fn browsers_do_not_want_plaintext() {
    assert!(!IsPlaintextRequest::from_headers("", Some("Mozilla/5.0 (X11; Linux)")).0);
    assert!(!IsPlaintextRequest::from_headers("text/html", Some("Mozilla/5.0")).0);
    assert!(!IsPlaintextRequest::from_headers("", Some("")).0);
    assert!(!IsPlaintextRequest::from_headers("", Some("/curl")).0);
    assert!(!IsPlaintextRequest::from_headers("", Some("curlx/1.0")).0);
    assert!(!IsPlaintextRequest::from_headers("", Some("CURL/1.0")).0);
    assert!(!IsPlaintextRequest::from_headers("", Some("wget/1.0")).0);
    assert!(!IsPlaintextRequest::from_headers("text/plain; charset=utf-8", Some("Mozilla/5.0")).0);
}

#[test]
fn plaintext_request_derefs_to_its_flag() {
    let wanted = IsPlaintextRequest(true);
    assert!(*wanted);
    let unwanted = IsPlaintextRequest(false);
    assert!(!*unwanted);
}

#[test]
fn host_header_holds_the_host() {
    let host = HostHeader(Some("example.org".to_string()));
    assert_eq!(host.0, Some("example.org".to_string()));
    assert_eq!(HostHeader(None).0, None);
}

#[test]
fn head_before_stops_at_the_first_separator() {
    assert_eq!(head_before("abc.txt", '.'), "abc");
    assert_eq!(head_before("abc.tar.gz", '.'), "abc");
    assert_eq!(head_before("abc", '.'), "abc");
    assert_eq!(head_before("", '.'), "");
    assert_eq!(head_before(".hidden", '.'), "");
    assert_eq!(head_before("abc.", '.'), "abc");
    assert_eq!(head_before("\u{e9}t\u{e9}.rs", '.'), "\u{e9}t\u{e9}");
    assert_eq!(head_before("curl/8.4.0", '/'), "curl");
}

#[test]
fn contains_text_finds_whole_texts_only() {
    let list = vec!["DEVICE01".to_string(), "DEVICE02".to_string()];
    assert!(contains_text(&list, "DEVICE01"));
    assert!(contains_text(&list, "DEVICE02"));
    assert!(!contains_text(&list, "DEVICE0"));
    assert!(!contains_text(&list, "DEVICE03"));
    assert!(!contains_text(&list, ""));
    assert!(!contains_text(&Vec::new(), "DEVICE01"));
}
