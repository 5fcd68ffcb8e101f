use base64::Engine;
use cipher::generic_array::GenericArray;
use cipher::{BlockEncrypt, KeyInit};
use garlemald_client::crypto::{build_launch_arguments, LaunchArgumentsError};

fn sample_session_id() -> String {
    "0123456789abcdef0123456789abcdef0123456789abcdef01234567".to_string()
}

fn expected_argument(session_id: &str, tick: u32) -> String {
    let mut buf = format!(" T ={tick} /LANG =en-us /REGION =2 /SERVER_UTC =1356916742 /SESSION_ID ={session_id}")
        .into_bytes();
    buf.push(0);
    let key = format!("{:08x}", tick & !0xFFFF_u32);
    let cipher = blowfish::BlowfishLE::new_from_slice(key.as_bytes()).unwrap();
    let full = buf.len() & !7;
    for off in (0..full).step_by(8) {
        cipher.encrypt_block(GenericArray::from_mut_slice(&mut buf[off..off + 8]));
    }
    let encoded = base64::engine::general_purpose::STANDARD.encode(&buf).replace('+', "-").replace('/', "_");
    format!("sqex0002{encoded}!////")
}

#[test]
fn rejects_wrong_session_id_length() {
    let err = build_launch_arguments("short", 0).unwrap_err();
    assert!(err.message().contains("session id"));
    assert_eq!(err, LaunchArgumentsError::WrongSessionIdLength { len: 5 });
    assert_eq!(err.message(), "expected a 56-character session id, got 5");
}

#[test]
fn starts_with_sqex0002_and_ends_with_bangslashes() {
    let args = build_launch_arguments(&sample_session_id(), 0x12345678).unwrap();
    assert!(args.encoded_argument.starts_with("sqex0002"));
    assert!(args.encoded_argument.ends_with("!////"));
}

#[test]
fn base64_body_is_url_safe() {
    let args = build_launch_arguments(&sample_session_id(), 0xDEADBEEF).unwrap();
    let body = args.encoded_argument.trim_start_matches("sqex0002");
    let body = body.trim_end_matches("!////");
    assert!(!body.contains('+') && !body.contains('/'), "expected url-safe base64, got {body}");
}

#[test]
fn deterministic_for_fixed_tick() {
    let s = sample_session_id();
    let a = build_launch_arguments(&s, 42).unwrap().encoded_argument;
    let b = build_launch_arguments(&s, 42).unwrap().encoded_argument;
    assert_eq!(a, b);
}

#[test]
fn key_masks_low_16_bits() {
    let s = sample_session_id();
    let out1 = build_launch_arguments(&s, 0x0001_0000).unwrap();
    let out2 = build_launch_arguments(&s, 0x0001_0000).unwrap();
    assert_eq!(out1.encoded_argument, out2.encoded_argument);
}

#[test]
fn argument_matches_the_reference_construction() {
    let s = sample_session_id();
    for tick in [0u32, 42, 0x0001_0000, 0x1234_5678, 0xDEAD_BEEF, u32::MAX] {
        let args = build_launch_arguments(&s, tick).unwrap();
        assert_eq!(args.tick_count, tick);
        assert_eq!(args.encoded_argument, expected_argument(&s, tick));
    }
}

#[test]
fn body_decodes_to_plaintext_length() {
    for tick in [0u32, 7, 123_456, u32::MAX] {
        let arg = build_launch_arguments(&sample_session_id(), tick).unwrap().encoded_argument;
        let body = &arg["sqex0002".len()..arg.len() - "!////".len()];
        let standard: String = body.chars().map(|c| match c { '-' => '+', '_' => '/', c => c }).collect();
        let bytes = base64::engine::general_purpose::STANDARD.decode(standard).unwrap();
        assert_eq!(bytes.len(), 123 + tick.to_string().len());
    }
}
