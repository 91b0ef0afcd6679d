use base64::engine::general_purpose::STANDARD;
use base64::Engine;
use hmac::Mac;
use proximiti_server::crypt::claims::Claims;
use proximiti_server::crypt::token::{
    create_token, create_token_at, verify_token, verify_token_at, Error, TokenCodec,
};

const T0: i64 = 1_700_000_000;

fn codec() -> TokenCodec {
    TokenCodec::new(b"an example of a signing secret".to_vec(), 3600)
}

fn tag_of(secret: &[u8], message: &[u8]) -> Vec<u8> {
    let mut mac = hmac::SimpleHmac::<blake3::Hasher>::new_from_slice(secret).unwrap();
    mac.update(message);
    mac.finalize().into_bytes().to_vec()
}

fn signed(secret: &[u8], payload: &[u8]) -> String {
    let left = STANDARD.encode(payload);
    let right = STANDARD.encode(tag_of(secret, left.as_bytes()));
    format!("{left}.{right}")
}

fn swap_char(text: &str, at: usize) -> String {
    let mut bytes = text.as_bytes().to_vec();
    bytes[at] = if bytes[at] == b'A' { b'B' } else { b'A' };
    String::from_utf8(bytes).unwrap()
}

#[test]
fn token_has_the_wire_format() {
    let token = create_token_at(&codec(), 42, T0).unwrap();
    let payload = b"{\"exp\":1700003600,\"user_id\":42}";
    assert_eq!(token, signed(b"an example of a signing secret", payload));
    let (left, right) = token.split_once('.').unwrap();
    assert_eq!(STANDARD.decode(left).unwrap(), payload.to_vec());
    assert_eq!(STANDARD.decode(right).unwrap().len(), 32);
}

#[test]
fn token_is_not_its_payload() {
    let token = create_token_at(&codec(), 42, T0).unwrap();
    assert_ne!(token.as_bytes(), b"{\"exp\":1700003600,\"user_id\":42}");
    assert!(token.is_ascii());
    assert_eq!(token.matches('.').count(), 1);
}

#[test]
fn issue_is_deterministic() {
    let a = create_token_at(&codec(), 7, T0).unwrap();
    let b = create_token_at(&codec(), 7, T0).unwrap();
    assert_eq!(a, b);
    assert_ne!(a, create_token_at(&codec(), 8, T0).unwrap());
    assert_ne!(a, create_token_at(&codec(), 7, T0 + 1).unwrap());
    let other = TokenCodec::new(b"another secret".to_vec(), 3600);
    assert_ne!(a, create_token_at(&other, 7, T0).unwrap());
}

#[test]
fn verify_returns_the_user_before_expiry() {
    for user_id in [0, 1, 42, -5, i64::MAX, i64::MIN] {
        let token = create_token_at(&codec(), user_id, T0).unwrap();
        assert_eq!(verify_token_at(&codec(), &token, T0), Ok(user_id));
        assert_eq!(verify_token_at(&codec(), &token, T0 + 3599), Ok(user_id));
    }
}

#[test]
fn scenario_one_hour_token() {
    let token = create_token_at(&codec(), 42, T0).unwrap();
    assert_eq!(verify_token_at(&codec(), &token, T0 + 10), Ok(42));
    assert_eq!(verify_token_at(&codec(), &token, T0 + 3700), Err(Error::Expired));
}

#[test]
fn deadline_itself_is_expired() {
    let token = create_token_at(&codec(), 42, T0).unwrap();
    assert_eq!(verify_token_at(&codec(), &token, T0 + 3599), Ok(42));
    assert_eq!(verify_token_at(&codec(), &token, T0 + 3600), Err(Error::Expired));
    assert_eq!(verify_token_at(&codec(), &token, T0 + 3601), Err(Error::Expired));
}

#[test]
fn deadline_saturates() {
    let token = create_token_at(&codec(), 1, i64::MAX - 5).unwrap();
    let (left, _) = token.split_once('.').unwrap();
    assert_eq!(
        STANDARD.decode(left).unwrap(),
        b"{\"exp\":9223372036854775807,\"user_id\":1}".to_vec()
    );
    assert_eq!(verify_token_at(&codec(), &token, i64::MAX - 1), Ok(1));
    assert_eq!(verify_token_at(&codec(), &token, i64::MAX), Err(Error::Expired));
}

#[test]
fn zero_ttl_token_is_born_expired() {
    let codec = TokenCodec::new(b"k".to_vec(), 0);
    let token = create_token_at(&codec, 3, T0).unwrap();
    assert_eq!(verify_token_at(&codec, &token, T0), Err(Error::Expired));
    assert_eq!(verify_token_at(&codec, &token, T0 - 1), Ok(3));
}

#[test]
fn tampered_signature_fails_verification() {
    let token = create_token_at(&codec(), 42, T0).unwrap();
    let dot = token.find('.').unwrap();
    for at in [dot + 1, dot + 10, token.len() - 3] {
        let forged = swap_char(&token, at);
        assert_ne!(forged, token);
        assert_eq!(verify_token_at(&codec(), &forged, T0), Err(Error::VerificationFailed));
    }
}

#[test]
fn signature_broken_as_base64_is_malformed() {
    let token = create_token_at(&codec(), 42, T0).unwrap();
    let mut bytes = token.clone().into_bytes();
    let last = bytes.len() - 2;
    bytes[last] = b'!';
    let forged = String::from_utf8(bytes).unwrap();
    assert_eq!(verify_token_at(&codec(), &forged, T0), Err(Error::Malformed));
    let short = &token[..token.len() - 1];
    assert_eq!(verify_token_at(&codec(), short, T0), Err(Error::Malformed));
}

#[test]
fn tampered_payload_fails_verification() {
    let token = create_token_at(&codec(), 42, T0).unwrap();
    let (_, right) = token.split_once('.').unwrap();
    let other = STANDARD.encode(b"{\"exp\":1700003600,\"user_id\":43}");
    let forged = format!("{other}.{right}");
    assert_eq!(verify_token_at(&codec(), &forged, T0), Err(Error::VerificationFailed));
    let later = STANDARD.encode(b"{\"exp\":1800003600,\"user_id\":42}");
    let forged = format!("{later}.{right}");
    assert_eq!(verify_token_at(&codec(), &forged, T0), Err(Error::VerificationFailed));
    let forged = swap_char(&token, 4);
    assert_eq!(verify_token_at(&codec(), &forged, T0), Err(Error::VerificationFailed));
}

#[test]
fn token_of_another_secret_fails_verification() {
    let other = TokenCodec::new(b"another secret".to_vec(), 3600);
    let token = create_token_at(&other, 42, T0).unwrap();
    assert_eq!(verify_token_at(&codec(), &token, T0), Err(Error::VerificationFailed));
}

#[test]
fn missing_or_extra_dots_are_malformed() {
    let token = create_token_at(&codec(), 42, T0).unwrap();
    let (left, right) = token.split_once('.').unwrap();
    for bad in [
        String::new(),
        "no-delimiter-here".to_string(),
        format!("{left}{right}"),
        format!("{left}.{right}."),
        format!(".{left}.{right}"),
        format!("{left}..{right}"),
        format!("{left}.{right}.{right}"),
        "..".to_string(),
    ] {
        assert_eq!(verify_token_at(&codec(), &bad, T0), Err(Error::Malformed));
    }
}

#[test]
fn segments_that_are_no_base64_are_malformed() {
    let token = create_token_at(&codec(), 42, T0).unwrap();
    let (left, right) = token.split_once('.').unwrap();
    for bad in [
        format!("{left}.not base64"),
        format!("***.{right}"),
        format!("{left}.{right}é"),
        format!("{}.{right}", &left[..left.len() - 1]),
    ] {
        assert_eq!(verify_token_at(&codec(), &bad, T0), Err(Error::Malformed));
    }
}

#[test]
fn empty_segments_fail_verification() {
    assert_eq!(verify_token_at(&codec(), ".", T0), Err(Error::VerificationFailed));
    let right = STANDARD.encode(tag_of(b"an example of a signing secret", b""));
    assert_eq!(
        verify_token_at(&codec(), &format!(".{right}"), T0),
        Err(Error::VerificationFailed)
    );
}

#[test]
fn signature_is_over_the_encoded_payload() {
    let payload = b"{\"exp\":1700003600,\"user_id\":42}";
    let left = STANDARD.encode(payload);
    let over_raw = STANDARD.encode(tag_of(b"an example of a signing secret", payload));
    let forged = format!("{left}.{over_raw}");
    assert_eq!(verify_token_at(&codec(), &forged, T0), Err(Error::VerificationFailed));
    let over_text = STANDARD.encode(tag_of(b"an example of a signing secret", left.as_bytes()));
    assert_eq!(verify_token_at(&codec(), &format!("{left}.{over_text}"), T0), Ok(42));
}

#[test]
fn signed_payload_that_is_no_claims_fails_verification() {
    let secret = b"an example of a signing secret";
    for payload in [
        &b"hello"[..],
        b"",
        b"{}",
        b"{\"user_id\":42,\"exp\":1700003600}",
        b"{\"exp\":1700003600, \"user_id\":42}",
        b"{\"exp\":01700003600,\"user_id\":42}",
        b"{\"exp\":1700003600,\"user_id\":42} ",
        b"{\"exp\":1700003600,\"user_id\":9223372036854775808}",
        b"{\"exp\":-0,\"user_id\":42}",
        b"{\"exp\":1700003600,\"user_id\":}",
    ] {
        let token = signed(secret, payload);
        assert_eq!(verify_token_at(&codec(), &token, T0), Err(Error::VerificationFailed));
    }
}

#[test]
fn signed_claims_from_elsewhere_verify() {
    let secret = b"an example of a signing secret";
    let token = signed(secret, b"{\"exp\":-5,\"user_id\":-9223372036854775808}");
    assert_eq!(verify_token_at(&codec(), &token, -6), Ok(i64::MIN));
    assert_eq!(verify_token_at(&codec(), &token, -5), Err(Error::Expired));
}

#[test]
fn truncated_tag_fails_verification() {
    let payload = b"{\"exp\":1700003600,\"user_id\":42}";
    let left = STANDARD.encode(payload);
    let tag = tag_of(b"an example of a signing secret", left.as_bytes());
    let short = STANDARD.encode(&tag[..31]);
    assert_eq!(
        verify_token_at(&codec(), &format!("{left}.{short}"), T0),
        Err(Error::VerificationFailed)
    );
}

#[test]
fn clock_bound_issue_and_check_agree() {
    let codec = codec();
    let token = create_token(&codec, 42).unwrap();
    assert_eq!(verify_token(&codec, &token), Ok(42));
    let now = time::OffsetDateTime::now_utc().unix_timestamp();
    assert_eq!(verify_token_at(&codec, &token, now), Ok(42));
    assert_eq!(verify_token_at(&codec, &token, now + 3601), Err(Error::Expired));
    let (left, _) = token.split_once('.').unwrap();
    let claims = Claims::from_bytes(&STANDARD.decode(left).unwrap()).unwrap();
    assert!(claims.exp >= now + 3599 && claims.exp <= now + 3601);
}

#[test]
fn clock_bound_check_refuses_an_old_token() {
    let codec = codec();
    let old = create_token_at(&codec, 42, T0 - 1_000_000_000).unwrap();
    assert_eq!(verify_token(&codec, &old), Err(Error::Expired));
}

#[test]
fn codec_keeps_its_ttl() {
    assert_eq!(codec().ttl_seconds(), 3600);
}

#[test]
fn segments_in_loose_base64_are_malformed() {
    let token = create_token_at(&codec(), 42, T0).unwrap();
    let (left, right) = token.split_once('.').unwrap();
    let bare = right.trim_end_matches('=');
    assert_ne!(bare, right);
    for bad in [
        format!("{left}.{bare}"),
        format!("{left}.{bare}=="),
        format!("{left}.QR=="),
        format!("{left}.QQ="),
        format!("{left}.QQ"),
        format!("{left}.Q"),
        format!("{left}.QQ==QQ=="),
        format!("{left}.{right}\n"),
        format!("{left} .{right}"),
        format!("{}.{right}", left.replace('=', "")),
    ] {
        if bad == token {
            continue;
        }
        assert_eq!(verify_token_at(&codec(), &bad, T0), Err(Error::Malformed));
    }
    assert_eq!(
        verify_token_at(&codec(), &format!("{left}.QQ=="), T0),
        Err(Error::VerificationFailed)
    );
}

#[test]
fn lengthened_tag_fails_verification() {
    let payload = b"{\"exp\":1700003600,\"user_id\":42}";
    let left = STANDARD.encode(payload);
    let mut tag = tag_of(b"an example of a signing secret", left.as_bytes());
    tag.push(0);
    let long = STANDARD.encode(&tag);
    assert_eq!(
        verify_token_at(&codec(), &format!("{left}.{long}"), T0),
        Err(Error::VerificationFailed)
    );
    let empty = STANDARD.encode(b"");
    assert_eq!(
        verify_token_at(&codec(), &format!("{left}.{empty}"), T0),
        Err(Error::VerificationFailed)
    );
}

#[test]
fn a_segment_is_read_exactly_where_it_is_some_data_s_base64() {
    let secret = b"an example of a signing secret";
    let symbols = [b'A', b'B', b'Q', b'/', b'+', b'9', b'=', b'!', b' ', b'-'];
    let mut texts: Vec<Vec<u8>> = vec![Vec::new()];
    let mut last: Vec<Vec<u8>> = vec![Vec::new()];
    for _ in 0..4 {
        let mut next = Vec::new();
        for text in &last {
            for symbol in symbols {
                let mut longer = text.clone();
                longer.push(symbol);
                next.push(longer);
            }
        }
        texts.extend(next.iter().cloned());
        last = next;
    }
    assert_eq!(texts.len(), 11111);
    let mut read = 0;
    for text in texts {
        let text = String::from_utf8(text).unwrap();
        let right = STANDARD.encode(tag_of(secret, text.as_bytes()));
        let outcome = verify_token_at(&codec(), &format!("{text}.{right}"), T0);
        match STANDARD.decode(&text) {
            Ok(data) => {
                assert_eq!(STANDARD.encode(&data), text);
                assert_eq!(outcome, Err(Error::VerificationFailed));
                read += 1;
            }
            Err(_) => assert_eq!(outcome, Err(Error::Malformed)),
        }
    }
    assert!(read > 100);
}

#[test]
fn any_key_length_signs() {
    for len in [0usize, 1, 31, 32, 63, 64, 65, 200] {
        let secret = vec![7u8; len];
        let codec = TokenCodec::new(secret.clone(), 60);
        let token = create_token_at(&codec, 5, T0).unwrap();
        assert_eq!(token, signed(&secret, b"{\"exp\":1700000060,\"user_id\":5}"));
        assert_eq!(verify_token_at(&codec, &token, T0), Ok(5));
    }
}
