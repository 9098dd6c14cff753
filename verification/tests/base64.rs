use camoufox::api::base64::decode_base64;

#[test]
fn test_decode_base64_empty() {
    assert_eq!(decode_base64("").unwrap(), Vec::<u8>::new());
}

#[test]
fn test_decode_base64_hello() {
    assert_eq!(decode_base64("SGVsbG8=").unwrap(), b"Hello".to_vec());
}

#[test]
fn test_decode_base64_no_padding() {
    assert_eq!(decode_base64("SGVsbG8").unwrap(), b"Hello".to_vec());
}

#[test]
fn test_decode_base64_with_whitespace() {
    assert_eq!(decode_base64("SGVs\nbG8=").unwrap(), b"Hello".to_vec());
}

#[test]
fn test_decode_base64_invalid_char() {
    assert!(decode_base64("SGVs!G8=").is_err());
}

#[test]
fn invalid_char_error_names_the_character() {
    assert_eq!(
        decode_base64("SGVs!G8=").unwrap_err(),
        "invalid base64 character: '!'".to_string()
    );
}

#[test]
fn newlines_returns_and_spaces_are_skipped() {
    assert_eq!(decode_base64(" S G V s\r\nbG8= ").unwrap(), b"Hello".to_vec());
}

#[test]
fn tab_is_not_skipped() {
    assert_eq!(
        decode_base64("SGVs\tbG8=").unwrap_err(),
        "invalid base64 character: '\\t'".to_string()
    );
}

#[test]
fn text_after_padding_is_ignored() {
    assert_eq!(decode_base64("TQ==!!!!").unwrap(), b"M".to_vec());
}

#[test]
fn full_alphabet_decodes() {
    // "+/" are the last two sextets (62, 63).
    assert_eq!(decode_base64("+/+/").unwrap(), vec![0xfb, 0xff, 0xbf]);
    assert_eq!(decode_base64("AAAA").unwrap(), vec![0, 0, 0]);
    assert_eq!(decode_base64("////").unwrap(), vec![0xff, 0xff, 0xff]);
}

#[test]
fn partial_groups_keep_whole_bytes_only() {
    assert_eq!(decode_base64("TQ==").unwrap(), b"M".to_vec());
    assert_eq!(decode_base64("TWE=").unwrap(), b"Ma".to_vec());
    assert_eq!(decode_base64("TWFu").unwrap(), b"Man".to_vec());
    assert_eq!(decode_base64("T").unwrap(), Vec::<u8>::new());
}

fn encode(bytes: &[u8], padded: bool) -> String {
    const ALPHABET: &[u8; 64] = b"ABCDEFGHIJKLMNOPQRSTUVWXYZabcdefghijklmnopqrstuvwxyz0123456789+/";
    let mut out = String::new();
    for group in bytes.chunks(3) {
        let b0 = group[0];
        let b1 = *group.get(1).unwrap_or(&0);
        let b2 = *group.get(2).unwrap_or(&0);
        let sextets = [b0 >> 2, ((b0 & 3) << 4) | (b1 >> 4), ((b1 & 15) << 2) | (b2 >> 6), b2 & 63];
        for s in sextets.iter().take(group.len() + 1) {
            out.push(ALPHABET[*s as usize] as char);
        }
        if padded {
            for _ in group.len()..3 {
                out.push('=');
            }
        }
    }
    out
}

#[test]
fn decoding_undoes_encoding() {
    let all: Vec<u8> = (0..=255u8).collect();
    for len in 0..=all.len() {
        let bytes = &all[..len];
        assert_eq!(decode_base64(&encode(bytes, true)).unwrap(), bytes.to_vec());
        assert_eq!(decode_base64(&encode(bytes, false)).unwrap(), bytes.to_vec());
    }
}
