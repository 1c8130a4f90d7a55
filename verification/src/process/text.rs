//! Signing and verifying byte strings under a keyed hash or under
//! public-key signatures, with the keys each scheme needs.

use crate::cli::base64::Base64Format;
use crate::cli::text::TextSignFormat;
use crate::process::b64::{
    base64_data, base64_text, decode_url_safe, decoded_bytes, encode_url_safe, is_base64_text,
    is_well_formed, lemma_base64_texts, lemma_decode_encode, lemma_text_injective,
};
use crate::process::gen_pass::{draw_password, is_allowed, is_password};
use ed25519_dalek::{Signature, Signer, SigningKey, Verifier, VerifyingKey};
use rand::rngs::OsRng;
use vstd::prelude::*;
use vstd::slice::slice_to_vec;
use vstd::utf8::{encode_utf8, is_ascii_chars, is_ascii_chars_encode_utf8};

verus! {

/// Why a signing operation failed. A signature that does not match is no
/// failure: verification then answers `false`.
#[derive(Debug, Clone, Copy, PartialEq, Eq, Structural)]
pub enum TextError {
    /// The input could not be read.
    SourceUnreadable,
    /// The key could not be read.
    KeyUnreadable,
    /// The key has too few bytes, or not the width the scheme asks for, or
    /// the scheme refuses it.
    KeyMalformed,
    /// The signature is no base64 text, or has not the width of the scheme.
    SignatureMalformed,
    /// The format tag names no scheme.
    UnsupportedFormat,
}

impl TextError {
    /// What went wrong, in words.
    pub fn message(&self) -> (text: &'static str)
        ensures
            text@ == match self {
                TextError::SourceUnreadable => "the input could not be read"@,
                TextError::KeyUnreadable => "the key could not be read"@,
                TextError::KeyMalformed => "the key is malformed"@,
                TextError::SignatureMalformed => "the signature is malformed"@,
                TextError::UnsupportedFormat => "Invalid text sign format"@,
            },
    {
        match self {
            TextError::SourceUnreadable => "the input could not be read",
            TextError::KeyUnreadable => "the key could not be read",
            TextError::KeyMalformed => "the key is malformed",
            TextError::SignatureMalformed => "the signature is malformed",
            TextError::UnsupportedFormat => "Invalid text sign format",
        }
    }
}

/// The BLAKE3 keyed hash of `data` under the 32-byte `key`.
pub uninterp spec fn blake3_keyed_hash(key: Seq<u8>, data: Seq<u8>) -> Seq<u8>;

/// The Ed25519 public key that belongs to the 32-byte `secret`.
pub uninterp spec fn ed25519_public_key(secret: Seq<u8>) -> Seq<u8>;

/// The Ed25519 signature of `data` under the 32-byte `secret`.
pub uninterp spec fn ed25519_signature(secret: Seq<u8>, data: Seq<u8>) -> Seq<u8>;

/// Whether the 32 bytes `public` are the encoding of a curve point, which is
/// what makes them usable as an Ed25519 public key.
pub uninterp spec fn ed25519_key_decodes(public: Seq<u8>) -> bool;

/// Whether Ed25519 verification accepts the 64-byte `signature` for `data`
/// under the public key `public`.
pub uninterp spec fn ed25519_accepts(public: Seq<u8>, data: Seq<u8>, signature: Seq<u8>) -> bool;

/// `blake3::keyed_hash`, with the digest taken out as bytes.
#[verifier::external_body]
fn keyed_hash(key: &[u8; 32], data: &[u8]) -> (digest: [u8; 32])
    ensures
        digest@ == blake3_keyed_hash(key@, data@),
{
    *blake3::keyed_hash(key, data).as_bytes()
}

/// `ed25519_dalek::SigningKey::generate` on the operating system's random
/// source, with the secret taken out as bytes. Nothing is known of the
/// outcome but its width.
#[verifier::external_body]
fn fresh_secret() -> (secret: [u8; 32]) {
    SigningKey::generate(&mut OsRng).to_bytes()
}

/// `ed25519_dalek::SigningKey::verifying_key`: the public key of `secret`.
/// It is the encoding of the point that the secret scalar defines, so it
/// decodes.
#[verifier::external_body]
fn public_key_of(secret: &[u8; 32]) -> (public: [u8; 32])
    ensures
        public@ == ed25519_public_key(secret@),
        ed25519_key_decodes(public@),
{
    SigningKey::from_bytes(secret).verifying_key().to_bytes()
}

/// `ed25519_dalek::Signer::sign` for a `SigningKey`: the signature is a
/// function of the secret and the message, and verification under the
/// secret's own public key accepts it.
#[verifier::external_body]
fn ed25519_sign(secret: &[u8; 32], data: &[u8]) -> (signature: [u8; 64])
    ensures
        signature@ == ed25519_signature(secret@, data@),
        ed25519_accepts(ed25519_public_key(secret@), data@, signature@),
{
    SigningKey::from_bytes(secret).sign(data).to_bytes()
}

/// `ed25519_dalek::VerifyingKey::from_bytes`: whether it takes the bytes
/// for a public key.
#[verifier::external_body]
fn key_decodes(public: &[u8; 32]) -> (ok: bool)
    ensures
        ok == ed25519_key_decodes(public@),
{
    VerifyingKey::from_bytes(public).is_ok()
}

/// `ed25519_dalek::Verifier::verify` for a `VerifyingKey`: whether it
/// accepts the signature.
#[verifier::external_body]
fn ed25519_verify(public: &[u8; 32], data: &[u8], signature: &[u8; 64]) -> (ok: bool)
    requires
        ed25519_key_decodes(public@),
    ensures
        ok == ed25519_accepts(public@, data@, signature@),
{
    match VerifyingKey::from_bytes(public) {
        Ok(key) => key.verify(data, &Signature::from_bytes(signature)).is_ok(),
        Err(_) => false,
    }
}

/// Copies the first 32 bytes of `bytes`.
fn first_key_bytes(bytes: &[u8]) -> (key: [u8; 32])
    requires
        bytes.len() >= 32,
    ensures
        key@ == bytes@.take(32),
{
    let mut key: [u8; 32] = [0u8; 32];
    let mut i: usize = 0;
    while i < 32
        invariant
            i <= 32,
            bytes.len() >= 32,
            forall|j: int| 0 <= j < i ==> key@[j] == bytes@[j],
        decreases 32 - i,
    {
        key[i] = bytes[i];
        i += 1;
    }
    assert(key@ =~= bytes@.take(32));
    key
}

/// Copies the 64 bytes of `bytes`.
fn signature_bytes(bytes: &[u8]) -> (signature: [u8; 64])
    requires
        bytes.len() == 64,
    ensures
        signature@ == bytes@,
{
    let mut signature: [u8; 64] = [0u8; 64];
    let mut i: usize = 0;
    while i < 64
        invariant
            i <= 64,
            bytes.len() == 64,
            forall|j: int| 0 <= j < i ==> signature@[j] == bytes@[j],
        decreases 64 - i,
    {
        signature[i] = bytes[i];
        i += 1;
    }
    assert(signature@ =~= bytes@);
    signature
}

/// Whether `signature` is exactly the 32 bytes of `digest`. A signature of
/// any other length matches no digest.
///
/// The comparison stops at the first byte that differs, so the time it
/// takes tells how long a prefix matched.
pub fn digest_matches(digest: &[u8; 32], signature: &[u8]) -> (same: bool)
    ensures
        same == (digest@ == signature@),
{
    if signature.len() != 32 {
        return false;
    }
    let mut i: usize = 0;
    while i < 32
        invariant
            i <= 32,
            signature.len() == 32,
            forall|j: int| 0 <= j < i ==> digest@[j] == signature@[j],
        decreases 32 - i,
    {
        if digest[i] != signature[i] {
            return false;
        }
        i += 1;
    }
    assert(digest@ =~= signature@);
    true
}

/// The text form of a signature: unpadded base64 over the URL-safe
/// alphabet.
pub fn encode_signature(signature: &[u8]) -> (text: String)
    ensures
        text@ == base64_text(signature@, Base64Format::UrlSafe),
{
    encode_url_safe(signature)
}

/// The signature that `text` stands for, where it is the text form of one.
pub open spec fn decoded_signature(text: Seq<char>) -> Result<Seq<u8>, TextError> {
    if is_base64_text(text, Base64Format::UrlSafe) {
        Ok(base64_data(text, Base64Format::UrlSafe))
    } else {
        Err(TextError::SignatureMalformed)
    }
}

/// Reads a signature back from its text form. Fails on a character outside
/// the alphabet, on padding, on a length that no byte count gives, and on
/// stray bits in the last symbol: on every text that has not the shape of
/// an unpadded base64 text.
pub fn decode_signature(text: &str) -> (r: Result<Vec<u8>, TextError>)
    ensures
        match r {
            Ok(signature) => decoded_signature(text@) == Ok::<Seq<u8>, TextError>(signature@),
            Err(e) => decoded_signature(text@) == Err::<Seq<u8>, TextError>(e),
        },
        r is Ok <==> is_well_formed(text@, Base64Format::UrlSafe),
        r matches Ok(signature) ==> signature@ == decoded_bytes(text@, Base64Format::UrlSafe),
{
    proof {
        lemma_base64_texts(text@, Base64Format::UrlSafe);
    }
    match decode_url_safe(text) {
        Ok(signature) => {
            proof {
                lemma_text_injective(
                    signature@,
                    base64_data(text@, Base64Format::UrlSafe),
                    Base64Format::UrlSafe,
                );
            }
            Ok(signature)
        },
        Err(_) => Err(TextError::SignatureMalformed),
    }
}

/// Whether `outcome` is what signing `data` under the keyed-hash key `key`
/// comes to: the 32-byte keyed hash.
pub open spec fn keyed_hash_signs(
    key: Seq<u8>,
    data: Seq<u8>,
    outcome: Result<Seq<u8>, TextError>,
) -> bool {
    &&& outcome == Ok::<Seq<u8>, TextError>(blake3_keyed_hash(key, data))
    &&& blake3_keyed_hash(key, data).len() == 32
}

/// Whether `outcome` is what signing `data` under the Ed25519 secret
/// `secret` comes to: the 64-byte signature, which the secret's own public
/// key accepts.
pub open spec fn ed25519_signs(
    secret: Seq<u8>,
    data: Seq<u8>,
    outcome: Result<Seq<u8>, TextError>,
) -> bool {
    &&& outcome == Ok::<Seq<u8>, TextError>(ed25519_signature(secret, data))
    &&& ed25519_signature(secret, data).len() == 64
    &&& ed25519_accepts(ed25519_public_key(secret), data, ed25519_signature(secret, data))
}

/// One who can sign byte strings.
pub trait TextSign {
    /// Whether `outcome` is what signing `data` comes to: the signature, or
    /// the reason there is none.
    spec fn signs(&self, data: Seq<u8>, outcome: Result<Seq<u8>, TextError>) -> bool;

    /// Signs the whole of `data`.
    fn sign(&self, data: &[u8]) -> (r: Result<Vec<u8>, TextError>)
        ensures
            match r {
                Ok(signature) => self.signs(data@, Ok(signature@)),
                Err(e) => self.signs(data@, Err(e)),
            },
    ;
}

/// One who can check signatures on byte strings.
pub trait TextVerify {
    /// What checking `signature` against `data` comes to: whether it is
    /// accepted, or why it could not be checked.
    spec fn verdict(&self, data: Seq<u8>, signature: Seq<u8>) -> Result<bool, TextError>;

    /// Checks `signature` against the whole of `data`. A signature that
    /// does not match is `Ok(false)`, never an error.
    fn verify(&self, data: &[u8], signature: &[u8]) -> (r: Result<bool, TextError>)
        ensures
            r == self.verdict(data@, signature@),
    ;
}

/// Key material that can be built from the bytes it was persisted as.
pub trait KeyLoader: Sized {
    /// The bytes of the key.
    spec fn material(&self) -> Seq<u8>;

    /// The key bytes that persisted `bytes` hold, or why they hold none.
    spec fn loaded(bytes: Seq<u8>) -> Result<Seq<u8>, TextError>;

    /// Builds the key from persisted bytes.
    fn load(bytes: &[u8]) -> (r: Result<Self, TextError>)
        ensures
            match r {
                Ok(key) => Self::loaded(bytes@) == Ok::<Seq<u8>, TextError>(key.material()),
                Err(e) => Self::loaded(bytes@) == Err::<Seq<u8>, TextError>(e),
            },
    ;
}

/// Key material that can be made afresh.
pub trait KeyGenerator {
    /// Whether `keys` is key material of this scheme, in the order in which
    /// it is persisted.
    spec fn generated(keys: Seq<Seq<u8>>) -> bool;

    /// Makes fresh key material: the secret first, then the public half
    /// where the scheme has one.
    fn generate() -> (r: Result<Vec<Vec<u8>>, TextError>)
        ensures
            r matches Ok(keys) ==> Self::generated(keys.deep_view()),
    ;
}

/// The characters that the bytes of `key` stand for, one for each byte.
pub open spec fn key_chars(key: Seq<u8>) -> Seq<char> {
    Seq::new(key.len(), |i: int| key[i] as char)
}

/// Whether `key` is a symmetric key as generation makes it: the 32 bytes
/// of a password over all four classes of characters.
pub open spec fn is_symmetric_key(key: Seq<u8>) -> bool {
    &&& key.len() == 32
    &&& is_password(key_chars(key), 32, true, true, true, true)
}

/// Whether `public` is the public half that belongs to the secret half
/// `secret`, both 32 bytes wide.
pub open spec fn is_key_pair(secret: Seq<u8>, public: Seq<u8>) -> bool {
    &&& secret.len() == 32
    &&& public.len() == 32
    &&& public == ed25519_public_key(secret)
    &&& ed25519_key_decodes(public)
}

/// The keyed-hash scheme: holds the one secret that signs and verifies.
///
/// The secret stays in memory as it is: it is not wiped when the value is
/// dropped.
pub struct Blake3 {
    key: [u8; 32],
}

impl View for Blake3 {
    type V = Seq<u8>;

    closed spec fn view(&self) -> Seq<u8> {
        self.key@
    }
}

impl Blake3 {
    /// The scheme under `key`.
    pub fn new(key: [u8; 32]) -> (scheme: Self)
        ensures
            scheme@ == key@,
    {
        Self { key }
    }

    /// The scheme under the first 32 bytes of `key`; what follows them is
    /// ignored. Fewer than 32 bytes are no key.
    pub fn try_new(key: &[u8]) -> (r: Result<Self, TextError>)
        ensures
            match r {
                Ok(scheme) => key.len() >= 32 && scheme@ == key@.take(32),
                Err(e) => key.len() < 32 && e == TextError::KeyMalformed,
            },
    {
        if key.len() < 32 {
            return Err(TextError::KeyMalformed);
        }
        Ok(Blake3::new(first_key_bytes(key)))
    }

    /// A key is always 32 bytes wide.
    pub proof fn lemma_key_len(&self)
        ensures
            self@.len() == 32,
    {
    }
}

impl TextSign for Blake3 {
    open spec fn signs(&self, data: Seq<u8>, outcome: Result<Seq<u8>, TextError>) -> bool {
        keyed_hash_signs(self@, data, outcome)
    }

    /// The keyed hash of `data`: always 32 bytes, and the same for the same
    /// key and data.
    fn sign(&self, data: &[u8]) -> (r: Result<Vec<u8>, TextError>)
        ensures
            r matches Ok(signature) && signature.len() == 32,
    {
        let digest = keyed_hash(&self.key, data);
        Ok(slice_to_vec(&digest))
    }
}

impl TextVerify for Blake3 {
    open spec fn verdict(&self, data: Seq<u8>, signature: Seq<u8>) -> Result<bool, TextError> {
        Ok(blake3_keyed_hash(self@, data) == signature)
    }

    /// Hashes `data` again and compares all of the digest with
    /// `signature`.
    fn verify(&self, data: &[u8], signature: &[u8]) -> (r: Result<bool, TextError>) {
        let digest = keyed_hash(&self.key, data);
        Ok(digest_matches(&digest, signature))
    }
}

impl KeyGenerator for Blake3 {
    open spec fn generated(keys: Seq<Seq<u8>>) -> bool {
        keys.len() == 1 && is_symmetric_key(keys[0])
    }

    /// One key: the 32 bytes of a fresh password of 32 characters over all
    /// four classes.
    fn generate() -> (r: Result<Vec<Vec<u8>>, TextError>)
        ensures
            r is Ok,
    {
        let password = draw_password(32, true, true, true, true);
        let key = slice_to_vec(password.as_str().as_bytes());
        proof {
            lemma_password_bytes(password@, key@);
        }
        let keys = vec![key];
        assert(keys.deep_view() =~~= seq![key@]);
        Ok(keys)
    }
}

/// The bytes of a password are its characters, one byte each.
proof fn lemma_password_bytes(password: Seq<char>, key: Seq<u8>)
    requires
        is_password(password, 32, true, true, true, true),
        key == encode_utf8(password),
    ensures
        is_symmetric_key(key),
        key_chars(key) == password,
{
    assert(is_ascii_chars(password));
    is_ascii_chars_encode_utf8(password);
    assert(key_chars(key) =~= password);
}

impl KeyLoader for Blake3 {
    open spec fn material(&self) -> Seq<u8> {
        self@
    }

    open spec fn loaded(bytes: Seq<u8>) -> Result<Seq<u8>, TextError> {
        if bytes.len() >= 32 {
            Ok(bytes.take(32))
        } else {
            Err(TextError::KeyMalformed)
        }
    }

    fn load(bytes: &[u8]) -> (r: Result<Self, TextError>) {
        Self::try_new(bytes)
    }
}

/// The signing half of the public-key scheme: holds the secret key only.
///
/// The secret stays in memory as it is: it is not wiped when the value is
/// dropped.
pub struct Ed25519Signer {
    key: [u8; 32],
}

impl View for Ed25519Signer {
    type V = Seq<u8>;

    closed spec fn view(&self) -> Seq<u8> {
        self.key@
    }
}

impl Ed25519Signer {
    /// The signer under the secret `key`.
    pub fn new(key: [u8; 32]) -> (signer: Self)
        ensures
            signer@ == key@,
    {
        Self { key }
    }

    /// The signer under `key`, which must be exactly 32 bytes.
    pub fn try_new(key: &[u8]) -> (r: Result<Self, TextError>)
        ensures
            match r {
                Ok(signer) => key.len() == 32 && signer@ == key@,
                Err(e) => key.len() != 32 && e == TextError::KeyMalformed,
            },
    {
        if key.len() != 32 {
            return Err(TextError::KeyMalformed);
        }
        Ok(Ed25519Signer::new(first_key_bytes(key)))
    }

    /// A secret key is always 32 bytes wide.
    pub proof fn lemma_key_len(&self)
        ensures
            self@.len() == 32,
    {
    }
}

impl TextSign for Ed25519Signer {
    open spec fn signs(&self, data: Seq<u8>, outcome: Result<Seq<u8>, TextError>) -> bool {
        ed25519_signs(self@, data, outcome)
    }

    /// The signature of `data`: always 64 bytes, the same for the same key
    /// and data, and accepted under the public key of this secret.
    fn sign(&self, data: &[u8]) -> (r: Result<Vec<u8>, TextError>)
        ensures
            r matches Ok(signature) && signature.len() == 64,
    {
        let signature = ed25519_sign(&self.key, data);
        Ok(slice_to_vec(&signature))
    }
}

impl KeyGenerator for Ed25519Signer {
    open spec fn generated(keys: Seq<Seq<u8>>) -> bool {
        keys.len() == 2 && is_key_pair(keys[0], keys[1])
    }

    /// A fresh secret key from the operating system's random source, and
    /// after it the public key that belongs to it.
    fn generate() -> (r: Result<Vec<Vec<u8>>, TextError>)
        ensures
            r is Ok,
    {
        let secret = fresh_secret();
        let public = public_key_of(&secret);
        let secret_bytes = slice_to_vec(&secret);
        let public_bytes = slice_to_vec(&public);
        let keys = vec![secret_bytes, public_bytes];
        assert(keys.deep_view() =~~= seq![secret@, public@]);
        Ok(keys)
    }
}

impl KeyLoader for Ed25519Signer {
    open spec fn material(&self) -> Seq<u8> {
        self@
    }

    open spec fn loaded(bytes: Seq<u8>) -> Result<Seq<u8>, TextError> {
        if bytes.len() == 32 {
            Ok(bytes)
        } else {
            Err(TextError::KeyMalformed)
        }
    }

    fn load(bytes: &[u8]) -> (r: Result<Self, TextError>) {
        Self::try_new(bytes)
    }
}

/// The verifying half of the public-key scheme: holds the public key only,
/// and so can never be asked for a signature. It can be handed to those
/// who must not sign.
pub struct Ed25519Verifier {
    key: [u8; 32],
}

impl View for Ed25519Verifier {
    type V = Seq<u8>;

    closed spec fn view(&self) -> Seq<u8> {
        self.key@
    }
}

impl Ed25519Verifier {
    /// A verifier holds a key that decodes.
    #[verifier::type_invariant]
    spec fn key_is_usable(self) -> bool {
        ed25519_key_decodes(self.key@)
    }

    /// The verifier under the public `key`, which must decode.
    pub fn new(key: [u8; 32]) -> (verifier: Self)
        requires
            ed25519_key_decodes(key@),
        ensures
            verifier@ == key@,
    {
        Self { key }
    }

    /// The verifier under `key`, which must be exactly 32 bytes that
    /// decode as a public key. Whether the key belongs to any given secret
    /// is not looked at.
    pub fn try_new(key: &[u8]) -> (r: Result<Self, TextError>)
        ensures
            match r {
                Ok(verifier) => key.len() == 32 && ed25519_key_decodes(key@) && verifier@ == key@,
                Err(e) => !(key.len() == 32 && ed25519_key_decodes(key@)) && e
                    == TextError::KeyMalformed,
            },
    {
        if key.len() != 32 {
            return Err(TextError::KeyMalformed);
        }
        let public = first_key_bytes(key);
        assert(key@.take(32) =~= key@);
        if !key_decodes(&public) {
            return Err(TextError::KeyMalformed);
        }
        Ok(Ed25519Verifier::new(public))
    }

    /// A public key is always 32 bytes wide.
    pub proof fn lemma_key_len(&self)
        ensures
            self@.len() == 32,
    {
    }
}

impl TextVerify for Ed25519Verifier {
    open spec fn verdict(&self, data: Seq<u8>, signature: Seq<u8>) -> Result<bool, TextError> {
        if signature.len() == 64 {
            Ok(ed25519_accepts(self@, data, signature))
        } else {
            Err(TextError::SignatureMalformed)
        }
    }

    /// Checks a 64-byte signature. One of another length is malformed;
    /// one that the scheme refuses, for whatever reason, is `Ok(false)`.
    fn verify(&self, data: &[u8], signature: &[u8]) -> (r: Result<bool, TextError>) {
        if signature.len() != 64 {
            return Err(TextError::SignatureMalformed);
        }
        let signature = signature_bytes(signature);
        proof {
            use_type_invariant(self);
        }
        Ok(ed25519_verify(&self.key, data, &signature))
    }
}

impl KeyLoader for Ed25519Verifier {
    open spec fn material(&self) -> Seq<u8> {
        self@
    }

    open spec fn loaded(bytes: Seq<u8>) -> Result<Seq<u8>, TextError> {
        if bytes.len() == 32 && ed25519_key_decodes(bytes) {
            Ok(bytes)
        } else {
            Err(TextError::KeyMalformed)
        }
    }

    fn load(bytes: &[u8]) -> (r: Result<Self, TextError>) {
        Self::try_new(bytes)
    }
}

/// The signature of `data` under the key bytes `material`.
pub open spec fn raw_signature(material: Seq<u8>, data: Seq<u8>, format: TextSignFormat) -> Seq<
    u8,
> {
    match format {
        TextSignFormat::Blake3 => blake3_keyed_hash(material, data),
        TextSignFormat::Ed25519 => ed25519_signature(material, data),
    }
}

/// Whether `outcome` is what signing `data` under the key bytes `material`
/// comes to.
pub open spec fn scheme_signs(
    material: Seq<u8>,
    data: Seq<u8>,
    format: TextSignFormat,
    outcome: Result<Seq<u8>, TextError>,
) -> bool {
    match format {
        TextSignFormat::Blake3 => keyed_hash_signs(material, data, outcome),
        TextSignFormat::Ed25519 => ed25519_signs(material, data, outcome),
    }
}

/// The key bytes that the persisted `key` holds for signing.
pub open spec fn signing_material(key: Seq<u8>, format: TextSignFormat) -> Result<
    Seq<u8>,
    TextError,
> {
    match format {
        TextSignFormat::Blake3 => Blake3::loaded(key),
        TextSignFormat::Ed25519 => Ed25519Signer::loaded(key),
    }
}

/// Whether `outcome` is what signing `input` with the persisted `key`
/// comes to under `format`: the text form of the signature, or
/// `KeyMalformed` where the bytes hold no key of that scheme.
pub open spec fn sign_outcome(
    input: Seq<u8>,
    key: Seq<u8>,
    format: TextSignFormat,
    outcome: Result<Seq<char>, TextError>,
) -> bool {
    match signing_material(key, format) {
        Err(e) => outcome == Err::<Seq<char>, TextError>(e),
        Ok(material) => {
            &&& scheme_signs(material, input, format, Ok(raw_signature(material, input, format)))
            &&& outcome == Ok::<Seq<char>, TextError>(
                base64_text(raw_signature(material, input, format), Base64Format::UrlSafe),
            )
        },
    }
}

/// What verifying `signature`, a signature in text form, against `input`
/// with the persisted `key` comes to under `format`.
///
/// The text is decoded first, then the key is loaded, then the scheme
/// checks: the first of these to fail gives the error.
pub open spec fn verify_outcome(
    input: Seq<u8>,
    key: Seq<u8>,
    signature: Seq<char>,
    format: TextSignFormat,
) -> Result<bool, TextError> {
    match decoded_signature(signature) {
        Err(e) => Err(e),
        Ok(raw) => match format {
            TextSignFormat::Blake3 => match Blake3::loaded(key) {
                Err(e) => Err(e),
                Ok(material) => Ok(blake3_keyed_hash(material, input) == raw),
            },
            TextSignFormat::Ed25519 => match Ed25519Verifier::loaded(key) {
                Err(e) => Err(e),
                Ok(material) => if raw.len() == 64 {
                    Ok(ed25519_accepts(material, input, raw))
                } else {
                    Err(TextError::SignatureMalformed)
                },
            },
        },
    }
}

/// Signs `input` with the key persisted as `key` and returns the signature
/// in text form.
pub fn process_text_sign(input: &[u8], key: &[u8], format: TextSignFormat) -> (r: Result<
    String,
    TextError,
>)
    ensures
        match r {
            Ok(text) => sign_outcome(input@, key@, format, Ok(text@)),
            Err(e) => sign_outcome(input@, key@, format, Err(e)),
        },
{
    let signed = match format {
        TextSignFormat::Blake3 => {
            match Blake3::load(key) {
                Ok(signer) => signer.sign(input),
                Err(e) => {
                    return Err(e);
                },
            }
        },
        TextSignFormat::Ed25519 => {
            match Ed25519Signer::load(key) {
                Ok(signer) => signer.sign(input),
                Err(e) => {
                    return Err(e);
                },
            }
        },
    };
    match signed {
        Ok(signature) => {
            let text = encode_signature(signature.as_slice());
            Ok(text)
        },
        Err(e) => Err(e),
    }
}

/// Verifies `signature`, a signature in text form, against `input` with the
/// key persisted as `key`. A signature that does not match gives
/// `Ok(false)`; only a text that decodes to no signature, a malformed key
/// or a signature of the wrong width is an error.
pub fn process_text_verify(
    input: &[u8],
    key: &[u8],
    signature: &str,
    format: TextSignFormat,
) -> (r: Result<bool, TextError>)
    ensures
        r == verify_outcome(input@, key@, signature@, format),
{
    let raw = match decode_signature(signature) {
        Ok(raw) => raw,
        Err(e) => {
            return Err(e);
        },
    };
    match format {
        TextSignFormat::Blake3 => {
            match Blake3::load(key) {
                Ok(verifier) => verifier.verify(input, raw.as_slice()),
                Err(e) => Err(e),
            }
        },
        TextSignFormat::Ed25519 => {
            match Ed25519Verifier::load(key) {
                Ok(verifier) => verifier.verify(input, raw.as_slice()),
                Err(e) => Err(e),
            }
        },
    }
}

/// Whether `keys` is key material as generation makes it under `format`:
/// one symmetric key, or a secret key followed by its public key.
pub open spec fn keys_generated(keys: Seq<Seq<u8>>, format: TextSignFormat) -> bool {
    match format {
        TextSignFormat::Blake3 => Blake3::generated(keys),
        TextSignFormat::Ed25519 => Ed25519Signer::generated(keys),
    }
}

/// Makes fresh key material for `format`. What is first signs; what is
/// last verifies.
pub fn process_generate_key(format: TextSignFormat) -> (r: Result<Vec<Vec<u8>>, TextError>)
    ensures
        r matches Ok(keys) && {
            &&& keys_generated(keys.deep_view(), format)
            &&& keys.len() == (if format == TextSignFormat::Blake3 {
                1int
            } else {
                2int
            })
            &&& forall|i: int| 0 <= i < keys.len() ==> (#[trigger] keys[i]).len() == 32
        },
{
    match format {
        TextSignFormat::Blake3 => Blake3::generate(),
        TextSignFormat::Ed25519 => Ed25519Signer::generate(),
    }
}

/// The width of a signature is that of its scheme: 32 bytes for the keyed
/// hash, 64 bytes for the public-key scheme.
pub proof fn lemma_signature_width(
    material: Seq<u8>,
    data: Seq<u8>,
    format: TextSignFormat,
    signature: Seq<u8>,
)
    requires
        scheme_signs(material, data, format, Ok(signature)),
    ensures
        signature.len() == (if format == TextSignFormat::Blake3 {
            32int
        } else {
            64int
        }),
{
}

/// Generated key material has the width of its scheme: one key of 32
/// bytes for the keyed hash, and for the public-key scheme a secret and a
/// public key of 32 bytes each.
pub proof fn lemma_generated_key_width(keys: Seq<Seq<u8>>, format: TextSignFormat)
    requires
        keys_generated(keys, format),
    ensures
        keys.len() == (if format == TextSignFormat::Blake3 {
            1int
        } else {
            2int
        }),
        forall|i: int| 0 <= i < keys.len() ==> (#[trigger] keys[i]).len() == 32,
{
}

/// A signature survives its text form: decoding the text of `signature`
/// gives `signature` back.
pub proof fn lemma_signature_text_round_trip(signature: Seq<u8>)
    ensures
        decoded_signature(base64_text(signature, Base64Format::UrlSafe)) == Ok::<
            Seq<u8>,
            TextError,
        >(signature),
{
    lemma_decode_encode(signature, Base64Format::UrlSafe);
}

/// The keyed-hash scheme accepts what it signed, under the same key.
pub proof fn lemma_keyed_hash_round_trip(scheme: Blake3, data: Seq<u8>, signature: Seq<u8>)
    requires
        scheme.signs(data, Ok(signature)),
    ensures
        scheme.verdict(data, signature) == Ok::<bool, TextError>(true),
{
}

/// The keyed-hash scheme accepts one signature for each key and message,
/// the one it signs with: a signature altered in any way is refused.
pub proof fn lemma_keyed_hash_refuses_altered_signature(
    scheme: Blake3,
    data: Seq<u8>,
    signature: Seq<u8>,
    altered: Seq<u8>,
)
    requires
        scheme.signs(data, Ok(signature)),
        altered != signature,
    ensures
        scheme.verdict(data, altered) == Ok::<bool, TextError>(false),
{
}

/// A verifier that holds the public half of a signer's secret accepts what
/// that signer signed.
pub proof fn lemma_ed25519_round_trip(
    signer: Ed25519Signer,
    verifier: Ed25519Verifier,
    data: Seq<u8>,
    signature: Seq<u8>,
)
    requires
        verifier@ == ed25519_public_key(signer@),
        signer.signs(data, Ok(signature)),
    ensures
        verifier.verdict(data, signature) == Ok::<bool, TextError>(true),
{
}

/// Signing and then verifying with the same persisted symmetric key
/// answers `true`.
pub proof fn lemma_sign_then_verify_keyed_hash(input: Seq<u8>, key: Seq<u8>, text: Seq<char>)
    requires
        sign_outcome(input, key, TextSignFormat::Blake3, Ok(text)),
    ensures
        verify_outcome(input, key, text, TextSignFormat::Blake3) == Ok::<bool, TextError>(true),
{
    let material = key.take(32);
    lemma_signature_text_round_trip(blake3_keyed_hash(material, input));
}

/// Signing with the secret half of a key pair and then verifying with its
/// public half answers `true`.
pub proof fn lemma_sign_then_verify_ed25519(
    input: Seq<u8>,
    secret: Seq<u8>,
    public: Seq<u8>,
    text: Seq<char>,
)
    requires
        is_key_pair(secret, public),
        sign_outcome(input, secret, TextSignFormat::Ed25519, Ok(text)),
    ensures
        verify_outcome(input, public, text, TextSignFormat::Ed25519) == Ok::<bool, TextError>(
            true,
        ),
{
    lemma_signature_text_round_trip(ed25519_signature(secret, input));
}

/// Under the keyed-hash scheme only the signature's own text verifies: any
/// other text, whatever it decodes to, does not answer `true`.
pub proof fn lemma_verify_refuses_altered_text(
    input: Seq<u8>,
    key: Seq<u8>,
    text: Seq<char>,
    altered: Seq<char>,
)
    requires
        sign_outcome(input, key, TextSignFormat::Blake3, Ok(text)),
        altered != text,
    ensures
        verify_outcome(input, key, altered, TextSignFormat::Blake3) != Ok::<bool, TextError>(
            true,
        ),
{
}

/// Under the keyed-hash scheme, verification of a signature's text
/// answers `true` exactly when the key and message at hand give the hash
/// that the signing key and the signed message gave: for an altered
/// message, an altered key or another key it answers `false` unless the
/// hashes collide.
pub proof fn lemma_keyed_hash_verify_compares_hashes(
    input: Seq<u8>,
    key: Seq<u8>,
    signed_input: Seq<u8>,
    signing_key: Seq<u8>,
    text: Seq<char>,
)
    requires
        sign_outcome(signed_input, signing_key, TextSignFormat::Blake3, Ok(text)),
        key.len() >= 32,
    ensures
        verify_outcome(input, key, text, TextSignFormat::Blake3) == Ok::<bool, TextError>(
            blake3_keyed_hash(key.take(32), input) == blake3_keyed_hash(
                signing_key.take(32),
                signed_input,
            ),
        ),
{
    lemma_signature_text_round_trip(blake3_keyed_hash(signing_key.take(32), signed_input));
}

/// Under the public-key scheme, verification of a signature's text answers
/// what the scheme says of that signature for the public key and message
/// at hand, whichever secret signed and whatever was signed.
pub proof fn lemma_ed25519_verify_asks_the_scheme(
    input: Seq<u8>,
    public: Seq<u8>,
    signed_input: Seq<u8>,
    secret: Seq<u8>,
    text: Seq<char>,
)
    requires
        sign_outcome(signed_input, secret, TextSignFormat::Ed25519, Ok(text)),
        public.len() == 32,
        ed25519_key_decodes(public),
    ensures
        verify_outcome(input, public, text, TextSignFormat::Ed25519) == Ok::<bool, TextError>(
            ed25519_accepts(public, input, ed25519_signature(secret, signed_input)),
        ),
{
    lemma_signature_text_round_trip(ed25519_signature(secret, signed_input));
}

/// With freshly generated key material, signing with what is first and
/// verifying with what is last answers `true`, under either scheme.
pub proof fn lemma_sign_then_verify(
    input: Seq<u8>,
    keys: Seq<Seq<u8>>,
    format: TextSignFormat,
    text: Seq<char>,
)
    requires
        keys_generated(keys, format),
        sign_outcome(input, keys.first(), format, Ok(text)),
    ensures
        verify_outcome(input, keys.last(), text, format) == Ok::<bool, TextError>(true),
{
    match format {
        TextSignFormat::Blake3 => lemma_sign_then_verify_keyed_hash(input, keys[0], text),
        TextSignFormat::Ed25519 => lemma_sign_then_verify_ed25519(input, keys[0], keys[1], text),
    }
}

} // verus!
