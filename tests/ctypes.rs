use cxx_memory_abi::ctypes::{c_char, c_schar};

#[test]
fn c_char_from_str_keeps_each_byte() {
    let chars = c_char::from_str("hi!");
    assert_eq!(chars.len(), 3);
    assert_eq!(chars[0], c_char::from('h'));
    assert_eq!(char::from(chars[2]), '!');
    assert_eq!(c_char::into_bytes(&chars), b"hi!".to_vec());
}

#[test]
fn c_char_bytes_round_trip() {
    let bytes: Vec<u8> = vec![0, 1, 65, 127, 128, 200, 255];
    let chars = c_char::from_bytes(&bytes);
    assert_eq!(chars.len(), bytes.len());
    assert_eq!(c_char::into_bytes(&chars), bytes);
}

#[test]
fn c_schar_converts_both_ways() {
    let raw: core::ffi::c_schar = -5;
    let wrapped = c_schar::from(raw);
    assert_eq!(core::ffi::c_schar::from(wrapped), -5);
}
