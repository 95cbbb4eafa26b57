use wim::encoding::{basic_auth, can_encode, data_url, decode_base64, upload_payload};

#[test]
fn credentials_in_base64() {
    assert_eq!(basic_auth("Aladdin", "open sesame"), "Basic QWxhZGRpbjpvcGVuIHNlc2FtZQ==");
    assert_eq!(basic_auth("", ""), "Basic Og==");
    assert_eq!(basic_auth("é", "x"), "Basic w6k6eA==");
}

#[test]
fn data_urls() {
    assert_eq!(data_url("image/png", &[]), "data:image/png;base64,");
    assert_eq!(data_url("image/png", &[0xff]), "data:image/png;base64,/w==");
    assert_eq!(data_url("image/gif", b"GIF89a"), "data:image/gif;base64,R0lGODlh");
    assert_eq!(data_url("a", &[0xfb, 0xef, 0xbe]), "data:a;base64,++++");
}

#[test]
fn decodes_base64() {
    assert_eq!(decode_base64(""), Ok(vec![]));
    assert_eq!(decode_base64("R0lGODlh"), Ok(b"GIF89a".to_vec()));
    assert_eq!(decode_base64("/w=="), Ok(vec![0xff]));
}

#[test]
fn refuses_what_encoding_does_not_produce() {
    // A stray bit, missing padding, too much of it, a foreign symbol, white space.
    for text in ["/x==", "/w", "/w=", "/w===", "R0lG-Dlh", "R0lG ODlh", "data:", "é"] {
        assert!(decode_base64(text).is_err(), "{}", text);
    }
}

#[test]
fn says_why_it_refuses() {
    assert_eq!(decode_base64("a:bc"), Err("Invalid symbol 58, offset 1.".to_string()));
}

#[test]
fn decoding_undoes_base64() {
    let bytes: Vec<u8> = (0..=255).collect();
    for n in [0, 1, 2, 3, 4, 5, 255, 256] {
        let url = data_url("x", &bytes[..n]);
        assert_eq!(decode_base64(&url["data:x;base64,".len()..]), Ok(bytes[..n].to_vec()));
    }
}

#[test]
fn different_bytes_have_different_texts() {
    assert_ne!(data_url("x", &[0]), data_url("x", &[0, 0]));
    assert_ne!(data_url("x", &[0, 0, 1]), data_url("x", &[0, 0, 2]));
}

#[test]
fn payload_of_an_upload() {
    assert_eq!(upload_payload("data:image/png;base64,AAAA"), "AAAA");
    assert_eq!(upload_payload(" \n data:image/png;base64,AA\nAA "), "AAAA");
    assert_eq!(upload_payload("data:image/png;charset=x,AA,AA"), "AA,AA");
    assert_eq!(upload_payload("data:no comma"), "data:nocomma");
    assert_eq!(upload_payload("AA AA\r\n"), "AAAA");
    assert_eq!(upload_payload("AA,AA"), "AA,AA");
    assert_eq!(upload_payload(""), "");
}

#[test]
fn uploads_carry_the_bytes() {
    let bytes = vec![1u8, 2, 3, 4, 5];
    let url = data_url("image/jpeg", &bytes);
    assert_eq!(decode_base64(&upload_payload(&url)), Ok(bytes));
    assert_eq!(decode_base64(&upload_payload("R0lG\n ODlh\t")), Ok(b"GIF89a".to_vec()));
}

#[test]
fn room_for_base64() {
    let most = isize::MAX as usize / 4 * 3;
    assert!(can_encode(0));
    assert!(can_encode(most));
    assert!(!can_encode(most + 1));
    assert!(!can_encode(usize::MAX));
}
