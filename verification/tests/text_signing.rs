use base64::engine::general_purpose::URL_SAFE_NO_PAD;
use base64::Engine;
use rcli::cli::text::TextSignFormat;
use rcli::process::text::{
    decode_signature, digest_matches, encode_signature, process_generate_key, process_text_sign,
    process_text_verify, Blake3, Ed25519Signer, Ed25519Verifier, KeyGenerator, KeyLoader,
    TextError, TextSign, TextVerify,
};

const SYMMETRIC_KEY: &[u8; 32] = b"whats the Elvish word for friend";

const SECRET_KEY: [u8; 32] = [
    157, 97, 177, 157, 239, 253, 90, 96, 186, 132, 74, 244, 146, 236, 44, 196, 68, 73, 197, 105,
    123, 50, 105, 25, 112, 59, 172, 3, 28, 174, 127, 96,
];

const PUBLIC_KEY: [u8; 32] = [
    215, 90, 152, 1, 130, 177, 10, 183, 213, 75, 254, 211, 201, 100, 7, 58, 14, 225, 114, 243,
    218, 166, 35, 37, 175, 2, 26, 104, 247, 7, 81, 26,
];

const SIGNATURE_OF_NOTHING: &str = "e5564300c360ac729086e2cc806e828a84877f1eb8e5d974d873e065224901555fb8821590a33bacc61e39701cf9b46bd25bf5f0595bbe24655141438e7a100b";

fn hex(text: &str) -> Vec<u8> {
    let digits: Vec<u8> = text
        .chars()
        .map(|c| c.to_digit(16).unwrap() as u8)
        .collect();
    digits.chunks(2).map(|pair| pair[0] * 16 + pair[1]).collect()
}

#[test]
fn test_blake3_sign_verify() {
    let blake3 = Blake3::load(SYMMETRIC_KEY).unwrap();

    let data = b"hello world";
    let signature = blake3.sign(&data[..]).unwrap();
    println!("signature: {}", URL_SAFE_NO_PAD.encode(&signature));
    assert!(blake3.verify(&data[..], &signature).unwrap());
}

#[test]
fn test_ed25519_sign_verify() {
    let sk = Ed25519Signer::load(&SECRET_KEY).unwrap();
    let pk = Ed25519Verifier::load(&PUBLIC_KEY).unwrap();

    let data = b"hello world";
    let signature = sk.sign(&data[..]).unwrap();
    assert!(pk.verify(&data[..], &signature).unwrap());
}

#[test]
fn keyed_hash_of_the_empty_message() {
    let blake3 = Blake3::new(*SYMMETRIC_KEY);
    assert_eq!(
        blake3.sign(b""),
        Ok(hex("92b2b75604ed3c761f9d6f62392c8a9227ad0ea3f09573e783f1498a4ed60d26"))
    );
}

#[test]
fn keyed_hash_is_that_of_blake3() {
    let blake3 = Blake3::new(*SYMMETRIC_KEY);
    for data in [&b""[..], b"hello world", &[7u8; 5000]] {
        let expected = blake3::keyed_hash(SYMMETRIC_KEY, data);
        assert_eq!(blake3.sign(data), Ok(expected.as_bytes().to_vec()));
    }
}

#[test]
fn ed25519_signature_of_the_empty_message() {
    let signer = Ed25519Signer::new(SECRET_KEY);
    assert_eq!(signer.sign(b""), Ok(hex(SIGNATURE_OF_NOTHING)));
    let verifier = Ed25519Verifier::try_new(&PUBLIC_KEY).unwrap();
    assert_eq!(verifier.verify(b"", &hex(SIGNATURE_OF_NOTHING)), Ok(true));
    assert_eq!(verifier.verify(b"x", &hex(SIGNATURE_OF_NOTHING)), Ok(false));
}

#[test]
fn signatures_have_the_width_of_their_scheme() {
    let blake3 = Blake3::new(*SYMMETRIC_KEY);
    let signer = Ed25519Signer::new(SECRET_KEY);
    for data in [&b""[..], b"a", b"hello world", &[0u8; 1000]] {
        assert_eq!(blake3.sign(data).unwrap().len(), 32);
        assert_eq!(signer.sign(data).unwrap().len(), 64);
    }
}

#[test]
fn signing_twice_gives_the_same_signature() {
    let blake3 = Blake3::new(*SYMMETRIC_KEY);
    let signer = Ed25519Signer::new(SECRET_KEY);
    assert_eq!(blake3.sign(b"hello world"), blake3.sign(b"hello world"));
    assert_eq!(signer.sign(b"hello world"), signer.sign(b"hello world"));
    assert_ne!(blake3.sign(b"hello world"), blake3.sign(b"hello worle"));
    assert_ne!(signer.sign(b"hello world"), signer.sign(b"hello worle"));
}

#[test]
fn generated_keys_have_the_width_of_their_scheme() {
    let keys = process_generate_key(TextSignFormat::Blake3).unwrap();
    assert_eq!(keys.len(), 1);
    assert_eq!(keys[0].len(), 32);
    let keys = process_generate_key(TextSignFormat::Ed25519).unwrap();
    assert_eq!(keys.len(), 2);
    assert_eq!(keys[0].len(), 32);
    assert_eq!(keys[1].len(), 32);
    assert_eq!(Blake3::generate().unwrap().len(), 1);
    assert_eq!(Ed25519Signer::generate().unwrap().len(), 2);
}

#[test]
fn generated_symmetric_key_is_a_password_of_all_classes() {
    for _ in 0..20 {
        let keys = process_generate_key(TextSignFormat::Blake3).unwrap();
        let key = String::from_utf8(keys[0].clone()).unwrap();
        assert_eq!(key.chars().count(), 32);
        assert!(key.chars().any(|c| c.is_ascii_uppercase()));
        assert!(key.chars().any(|c| c.is_ascii_lowercase()));
        assert!(key.chars().any(|c| c.is_ascii_digit()));
        assert!(key.chars().any(|c| "!@#$%^&*_".contains(c)));
        assert!(key
            .chars()
            .all(|c| c.is_ascii_alphanumeric() || "!@#$%^&*_".contains(c)));
        assert!(!key.chars().any(|c| "IOl0".contains(c)));
    }
}

#[test]
fn generated_public_key_belongs_to_the_secret() {
    let keys = process_generate_key(TextSignFormat::Ed25519).unwrap();
    assert_ne!(keys[0], keys[1]);
    let secret: [u8; 32] = keys[0].clone().try_into().unwrap();
    let expected = ed25519_dalek::SigningKey::from_bytes(&secret).verifying_key();
    assert_eq!(keys[1], expected.to_bytes().to_vec());
}

#[test]
fn generated_keys_differ_from_call_to_call() {
    let first = process_generate_key(TextSignFormat::Ed25519).unwrap();
    let second = process_generate_key(TextSignFormat::Ed25519).unwrap();
    assert_ne!(first[0], second[0]);
    let first = process_generate_key(TextSignFormat::Blake3).unwrap();
    let second = process_generate_key(TextSignFormat::Blake3).unwrap();
    assert_ne!(first, second);
}

#[test]
fn round_trip_with_generated_keys() {
    for format in [TextSignFormat::Blake3, TextSignFormat::Ed25519] {
        let keys = process_generate_key(format).unwrap();
        for message in [&b""[..], b"hello world", &[0xffu8; 4097]] {
            let signature = process_text_sign(message, &keys[0], format).unwrap();
            assert_eq!(
                process_text_verify(message, keys.last().unwrap(), &signature, format),
                Ok(true)
            );
        }
    }
}

#[test]
fn keyed_hash_scenario() {
    let keys = process_generate_key(TextSignFormat::Blake3).unwrap();
    let key = Blake3::try_new(&keys[0]).unwrap();
    let signature = key.sign(b"hello world").unwrap();
    assert_eq!(signature.len(), 32);
    let text = encode_signature(&signature);
    let decoded = decode_signature(&text).unwrap();
    assert_eq!(decoded, signature);
    assert_eq!(key.verify(b"hello world", &decoded), Ok(true));
    assert_eq!(key.verify(b"hello worle", &decoded), Ok(false));
    assert_eq!(
        process_text_verify(b"hello world", &keys[0], &text, TextSignFormat::Blake3),
        Ok(true)
    );
    assert_eq!(
        process_text_verify(b"hello worle", &keys[0], &text, TextSignFormat::Blake3),
        Ok(false)
    );
}

#[test]
fn key_pair_scenario() {
    let keys = process_generate_key(TextSignFormat::Ed25519).unwrap();
    let other = process_generate_key(TextSignFormat::Ed25519).unwrap();
    let signer = Ed25519Signer::try_new(&keys[0]).unwrap();
    let signature = signer.sign(b"hello world").unwrap();
    let verifier = Ed25519Verifier::try_new(&keys[1]).unwrap();
    assert_eq!(verifier.verify(b"hello world", &signature), Ok(true));
    let stranger = Ed25519Verifier::try_new(&other[1]).unwrap();
    assert_eq!(stranger.verify(b"hello world", &signature), Ok(false));
    let text = process_text_sign(b"hello world", &keys[0], TextSignFormat::Ed25519).unwrap();
    assert_eq!(
        process_text_verify(b"hello world", &keys[1], &text, TextSignFormat::Ed25519),
        Ok(true)
    );
    assert_eq!(
        process_text_verify(b"hello world", &other[1], &text, TextSignFormat::Ed25519),
        Ok(false)
    );
}

#[test]
fn another_key_of_the_same_scheme_rejects() {
    let first = process_generate_key(TextSignFormat::Blake3).unwrap();
    let second = process_generate_key(TextSignFormat::Blake3).unwrap();
    let text = process_text_sign(b"hello world", &first[0], TextSignFormat::Blake3).unwrap();
    assert_eq!(
        process_text_verify(b"hello world", &second[0], &text, TextSignFormat::Blake3),
        Ok(false)
    );
}

#[test]
fn a_flipped_bit_in_the_message_is_detected() {
    let message = b"hello world".to_vec();
    for (format, signing, verifying) in [
        (TextSignFormat::Blake3, &SYMMETRIC_KEY[..], &SYMMETRIC_KEY[..]),
        (TextSignFormat::Ed25519, &SECRET_KEY[..], &PUBLIC_KEY[..]),
    ] {
        let text = process_text_sign(&message, signing, format).unwrap();
        assert_eq!(process_text_verify(&message, verifying, &text, format), Ok(true));
        for bit in 0..message.len() * 8 {
            let mut altered = message.clone();
            altered[bit / 8] ^= 1 << (bit % 8);
            assert_eq!(process_text_verify(&altered, verifying, &text, format), Ok(false));
        }
    }
}

#[test]
fn a_flipped_bit_in_the_signature_is_detected() {
    let message = b"hello world";
    let blake3 = Blake3::new(*SYMMETRIC_KEY);
    let signature = blake3.sign(message).unwrap();
    for bit in 0..signature.len() * 8 {
        let mut altered = signature.clone();
        altered[bit / 8] ^= 1 << (bit % 8);
        assert_eq!(blake3.verify(message, &altered), Ok(false));
        assert_eq!(
            process_text_verify(
                message,
                SYMMETRIC_KEY,
                &encode_signature(&altered),
                TextSignFormat::Blake3
            ),
            Ok(false)
        );
    }
    let signer = Ed25519Signer::new(SECRET_KEY);
    let verifier = Ed25519Verifier::try_new(&PUBLIC_KEY).unwrap();
    let signature = signer.sign(message).unwrap();
    for bit in 0..signature.len() * 8 {
        let mut altered = signature.clone();
        altered[bit / 8] ^= 1 << (bit % 8);
        assert_eq!(verifier.verify(message, &altered), Ok(false));
    }
}

#[test]
fn a_flipped_bit_in_the_symmetric_key_is_detected() {
    let message = b"hello world";
    let text = process_text_sign(message, SYMMETRIC_KEY, TextSignFormat::Blake3).unwrap();
    for bit in 0..SYMMETRIC_KEY.len() * 8 {
        let mut altered = *SYMMETRIC_KEY;
        altered[bit / 8] ^= 1 << (bit % 8);
        assert_eq!(
            process_text_verify(message, &altered, &text, TextSignFormat::Blake3),
            Ok(false)
        );
    }
}

#[test]
fn keyed_hash_signature_of_another_width_is_no_match() {
    let blake3 = Blake3::new(*SYMMETRIC_KEY);
    let signature = blake3.sign(b"hello world").unwrap();
    assert_eq!(blake3.verify(b"hello world", &signature[..31]), Ok(false));
    assert_eq!(blake3.verify(b"hello world", &[]), Ok(false));
    let mut longer = signature.clone();
    longer.push(0);
    assert_eq!(blake3.verify(b"hello world", &longer), Ok(false));
    assert_eq!(
        process_text_verify(b"hello world", SYMMETRIC_KEY, "", TextSignFormat::Blake3),
        Ok(false)
    );
}

#[test]
fn ed25519_signature_of_another_width_is_malformed() {
    let verifier = Ed25519Verifier::try_new(&PUBLIC_KEY).unwrap();
    let signature = hex(SIGNATURE_OF_NOTHING);
    assert_eq!(
        verifier.verify(b"", &signature[..63]),
        Err(TextError::SignatureMalformed)
    );
    assert_eq!(verifier.verify(b"", &[]), Err(TextError::SignatureMalformed));
    assert_eq!(
        process_text_verify(b"", &PUBLIC_KEY, "Zm9v", TextSignFormat::Ed25519),
        Err(TextError::SignatureMalformed)
    );
}

#[test]
fn ed25519_signature_that_the_scheme_cannot_read_is_no_match() {
    let verifier = Ed25519Verifier::try_new(&PUBLIC_KEY).unwrap();
    assert_eq!(verifier.verify(b"", &[0xff; 64]), Ok(false));
}

#[test]
fn load_fails_on_a_short_symmetric_key() {
    assert_eq!(Blake3::load(&[7u8; 31]).err(), Some(TextError::KeyMalformed));
    assert_eq!(Blake3::load(&[]).err(), Some(TextError::KeyMalformed));
    assert_eq!(Blake3::try_new(&[7u8; 31]).err(), Some(TextError::KeyMalformed));
    assert!(Blake3::load(&[7u8; 32]).is_ok());
    assert_eq!(
        process_text_sign(b"hello world", &[7u8; 31], TextSignFormat::Blake3),
        Err(TextError::KeyMalformed)
    );
    let text = process_text_sign(b"hello world", &[7u8; 32], TextSignFormat::Blake3).unwrap();
    assert_eq!(
        process_text_verify(b"hello world", &[7u8; 31], &text, TextSignFormat::Blake3),
        Err(TextError::KeyMalformed)
    );
}

#[test]
fn symmetric_key_is_the_first_32_bytes() {
    let mut long = SYMMETRIC_KEY.to_vec();
    long.extend_from_slice(b"\nand more");
    let exact = Blake3::load(SYMMETRIC_KEY).unwrap();
    let truncated = Blake3::load(&long).unwrap();
    assert_eq!(exact.sign(b"hello world"), truncated.sign(b"hello world"));
    assert_eq!(
        truncated.sign(b""),
        Ok(hex("92b2b75604ed3c761f9d6f62392c8a9227ad0ea3f09573e783f1498a4ed60d26"))
    );
}

#[test]
fn ed25519_keys_must_be_32_bytes() {
    for width in [0usize, 31, 33, 64] {
        let bytes = vec![1u8; width];
        assert_eq!(
            Ed25519Signer::load(&bytes).err(),
            Some(TextError::KeyMalformed)
        );
        assert_eq!(
            Ed25519Verifier::load(&bytes).err(),
            Some(TextError::KeyMalformed)
        );
        assert_eq!(
            process_text_sign(b"hello world", &bytes, TextSignFormat::Ed25519),
            Err(TextError::KeyMalformed)
        );
    }
    let mut long = PUBLIC_KEY.to_vec();
    long.push(b'\n');
    let text = process_text_sign(b"", &SECRET_KEY, TextSignFormat::Ed25519).unwrap();
    assert_eq!(
        process_text_verify(b"", &long, &text, TextSignFormat::Ed25519),
        Err(TextError::KeyMalformed)
    );
    assert_eq!(
        process_text_verify(b"", &PUBLIC_KEY, &text, TextSignFormat::Ed25519),
        Ok(true)
    );
}

#[test]
fn public_key_must_decode() {
    let mut accepted = 0;
    let mut refused = 0;
    for first in 0..=255u8 {
        let mut bytes = [0u8; 32];
        bytes[0] = first;
        let expected = ed25519_dalek::VerifyingKey::from_bytes(&bytes).is_ok();
        match Ed25519Verifier::try_new(&bytes) {
            Ok(_) => {
                assert!(expected);
                accepted += 1;
            }
            Err(e) => {
                assert!(!expected);
                assert_eq!(e, TextError::KeyMalformed);
                refused += 1;
            }
        }
    }
    assert!(accepted > 0);
    assert!(refused > 0);
}

#[test]
fn mismatched_public_key_loads_and_then_rejects() {
    let other = process_generate_key(TextSignFormat::Ed25519).unwrap();
    let text = process_text_sign(b"hello world", &SECRET_KEY, TextSignFormat::Ed25519).unwrap();
    assert!(Ed25519Verifier::load(&other[1]).is_ok());
    assert_eq!(
        process_text_verify(b"hello world", &other[1], &text, TextSignFormat::Ed25519),
        Ok(false)
    );
}

#[test]
fn signature_text_is_unpadded_and_url_safe() {
    assert_eq!(encode_signature(&[0xfb, 0xff, 0xbf, 0xff]), "-_-__w");
    assert_eq!(decode_signature("-_-__w"), Ok(vec![0xfb, 0xff, 0xbf, 0xff]));
    let text = process_text_sign(b"hello world", SYMMETRIC_KEY, TextSignFormat::Blake3).unwrap();
    assert_eq!(text.len(), 43);
    let text = process_text_sign(b"hello world", &SECRET_KEY, TextSignFormat::Ed25519).unwrap();
    assert_eq!(text.len(), 86);
    let text = process_text_sign(b"", &SECRET_KEY, TextSignFormat::Ed25519).unwrap();
    assert_eq!(text, URL_SAFE_NO_PAD.encode(hex(SIGNATURE_OF_NOTHING)));
}

#[test]
fn signature_text_round_trip() {
    let mut signature: Vec<u8> = Vec::new();
    for n in 0..=64u8 {
        let text = encode_signature(&signature);
        assert_eq!(decode_signature(&text), Ok(signature.clone()));
        signature.push(n.wrapping_mul(151));
    }
}

#[test]
fn malformed_signature_text_is_an_error() {
    let bad = Err(TextError::SignatureMalformed);
    assert_eq!(decode_signature("Zm9*"), bad);
    assert_eq!(decode_signature("Zm9v\n"), bad);
    assert_eq!(decode_signature("Zg=="), bad);
    assert_eq!(decode_signature("+/+/"), bad);
    assert_eq!(decode_signature("Z"), bad);
    assert_eq!(decode_signature("Zh"), bad);
    for format in [TextSignFormat::Blake3, TextSignFormat::Ed25519] {
        assert_eq!(
            process_text_verify(b"hello world", &PUBLIC_KEY, "not base64!", format),
            Err(TextError::SignatureMalformed)
        );
    }
}

#[test]
fn malformed_signature_text_is_reported_before_a_malformed_key() {
    for format in [TextSignFormat::Blake3, TextSignFormat::Ed25519] {
        assert_eq!(
            process_text_verify(b"hello world", &[], "*", format),
            Err(TextError::SignatureMalformed)
        );
        assert_eq!(
            process_text_verify(b"hello world", &[], "Zm9v", format),
            Err(TextError::KeyMalformed)
        );
    }
}

#[test]
fn digest_matches_compares_every_byte() {
    let digest = [9u8; 32];
    assert!(digest_matches(&digest, &[9u8; 32]));
    assert!(!digest_matches(&digest, &[9u8; 31]));
    assert!(!digest_matches(&digest, &[9u8; 33]));
    for at in 0..32 {
        let mut other = [9u8; 32];
        other[at] = 8;
        assert!(!digest_matches(&digest, &other));
    }
}

#[test]
fn text_errors_say_what_went_wrong() {
    assert_eq!(TextError::SourceUnreadable.message(), "the input could not be read");
    assert_eq!(TextError::KeyUnreadable.message(), "the key could not be read");
    assert_eq!(TextError::KeyMalformed.message(), "the key is malformed");
    assert_eq!(TextError::SignatureMalformed.message(), "the signature is malformed");
    assert_eq!(TextError::UnsupportedFormat.message(), "Invalid text sign format");
}
