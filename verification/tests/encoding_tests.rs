use wmcssh::contracts::errors::AppErrorCode;
use wmcssh::encoding::{decode_base64, encode_base64};

#[test]
fn encoding_matches_the_standard_alphabet_with_padding() {
    assert_eq!(encode_base64(b""), "");
    assert_eq!(encode_base64(b"f"), "Zg==");
    assert_eq!(encode_base64(b"fo"), "Zm8=");
    assert_eq!(encode_base64(b"foo"), "Zm9v");
    assert_eq!(encode_base64(&[0xfb, 0xff]), "+/8=");
}

#[test]
fn decoding_undoes_encoding() {
    let data: Vec<u8> = (0u8..=255).collect();
    assert_eq!(decode_base64(&encode_base64(&data)).unwrap(), data);
}

#[test]
fn invalid_base64_is_an_io_error() {
    let e = decode_base64("Zm9v!").unwrap_err();
    assert_eq!(e.code, AppErrorCode::IoError);
    assert_eq!(e.message, "Invalid base64 input");
    assert!(e.details.is_some());
    assert!(!e.retryable);
    assert!(decode_base64("Zg").is_err());
}
