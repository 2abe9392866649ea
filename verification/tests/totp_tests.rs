use drawbridge_vpn::totp::{build_totp, normalize_base32_secret, Totp, TotpAlgorithm};

#[test]
fn secrets_are_cleaned_upper_cased_and_padded() {
    assert_eq!(normalize_base32_secret("jbsw y3dp ehpk 3pxp"), "JBSWY3DPEHPK3PXP");
    assert_eq!(normalize_base32_secret("abc"), "ABC=====");
    assert_eq!(normalize_base32_secret("ab==\n"), "AB======");
    assert_eq!(normalize_base32_secret(""), "");
    assert_eq!(normalize_base32_secret("\u{3000}ab\u{a0}"), "AB======");
    // Padding counts UTF-8 bytes: 'é' takes two.
    assert_eq!(normalize_base32_secret("é"), "é======");
}

#[test]
fn normalising_twice_changes_nothing_more() {
    for s in ["jbsw y3dp", "ABC=", " = ", "mixed Case 123", "é z"] {
        let once = normalize_base32_secret(s);
        assert_eq!(normalize_base32_secret(&once), once);
        assert_eq!(once.len() % 8, 0);
    }
}

#[test]
fn a_valid_secret_builds_a_six_digit_generator() {
    let totp = build_totp("jbsw y3dp ehpk 3pxp").expect("valid secret");
    assert_eq!(totp.secret, b"Hello!\xde\xad\xbe\xef".to_vec());
    assert_eq!(totp.algorithm, TotpAlgorithm::Sha1);
    assert_eq!((totp.digits, totp.skew, totp.step), (6, 1, 30));
    let code = totp.generate_current().expect("clock after 1970");
    assert_eq!(code.len(), 6);
    assert!(code.chars().all(|c| c.is_ascii_digit()));
}

#[test]
fn an_invalid_secret_is_refused() {
    assert_eq!(build_totp("not base32!").err(), Some("Invalid TOTP secret: ParseBase32".to_string()));
    // The padding added for a short secret is not accepted by the decoder.
    assert_eq!(build_totp("JBSWY3DPEHPK3PX").err(), Some("Invalid TOTP secret: ParseBase32".to_string()));
}

fn rfc_generator(digits: usize) -> Totp {
    Totp {
        algorithm: TotpAlgorithm::Sha1,
        secret: b"12345678901234567890".to_vec(),
        digits,
        skew: 1,
        step: 30,
    }
}

#[test]
fn codes_match_the_rfc_6238_sha1_vectors() {
    let totp = rfc_generator(8);
    assert_eq!(totp.code_at(59), "94287082");
    assert_eq!(totp.code_at(1111111109), "07081804");
    assert_eq!(totp.code_at(1111111111), "14050471");
    assert_eq!(totp.code_at(1234567890), "89005924");
    assert_eq!(rfc_generator(6).code_at(59), "287082");
}

#[test]
fn the_current_code_is_the_code_for_some_nearby_time() {
    let totp = rfc_generator(6);
    let before = std::time::SystemTime::now().duration_since(std::time::UNIX_EPOCH).unwrap().as_secs();
    let code = totp.generate_current().expect("clock after 1970");
    let after = std::time::SystemTime::now().duration_since(std::time::UNIX_EPOCH).unwrap().as_secs();
    assert!(code == totp.code_at(before) || code == totp.code_at(after));
}
