//! Base64 and shell quoting.
use mox::encode::{base64_encode, bash_command_text, shell_quote};

#[test]
fn base64_matches_known_vectors() {
    // RFC 4648 test vectors.
    assert_eq!(base64_encode(b""), "");
    assert_eq!(base64_encode(b"f"), "Zg==");
    assert_eq!(base64_encode(b"fo"), "Zm8=");
    assert_eq!(base64_encode(b"foo"), "Zm9v");
    assert_eq!(base64_encode(b"foob"), "Zm9vYg==");
    assert_eq!(base64_encode(b"fooba"), "Zm9vYmE=");
    assert_eq!(base64_encode(b"foobar"), "Zm9vYmFy");
}

#[test]
fn base64_covers_its_whole_alphabet() {
    assert_eq!(base64_encode(&[0xfb, 0xff, 0xbf]), "+/+/");
    assert_eq!(base64_encode(&[0, 16, 131, 16, 81, 135]), "ABCDEFGH");
    assert_eq!(base64_encode(&[255]), "/w==");
}

#[test]
fn shell_quote_neutralizes_injection() {
    assert_eq!(shell_quote("web-01"), "'web-01'");
    // A value trying to break out stays a single literal argument.
    assert_eq!(shell_quote("a'; rm -rf /"), "'a'\\''; rm -rf /'");
}

#[test]
fn an_empty_argument_stays_an_argument() {
    assert_eq!(shell_quote(""), "''");
    let args: Vec<String> = vec!["1".into(), "".into(), "it's".into()];
    assert_eq!(bash_command_text(&args), "bash -s -- '1' '' 'it'\\''s'");
}

#[test]
fn base64_texts_are_padded_to_fours() {
    let bytes: Vec<u8> = (0..=255).collect();
    for n in 0..=bytes.len() {
        let text = base64_encode(&bytes[..n]);
        assert_eq!(text.len(), n.div_ceil(3) * 4, "{n}");
        let body = text.trim_end_matches('=');
        assert_eq!(text.len() - body.len(), [0, 2, 1][n % 3], "{n}");
        assert!(body.chars().all(|c| c.is_ascii_alphanumeric() || c == '+' || c == '/'), "{n}");
    }
}
