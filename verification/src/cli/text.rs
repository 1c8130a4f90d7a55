//! Arguments of the text signing commands.

use crate::process::text::TextError;
use std::str::FromStr;
use vstd::prelude::*;
use vstd::std_specs::convert::FromSpecImpl;

verus! {

/// The signing scheme that an operation runs under.
#[derive(Debug, Clone, Copy, PartialEq, Eq, Structural)]
pub enum TextSignFormat {
    /// Keyed hash: one 32-byte secret both signs and verifies.
    Blake3,
    /// Public-key signatures: a secret key signs, its public key verifies.
    Ed25519,
}

/// What the text signing command is asked to do.
#[derive(Debug)]
pub enum TextSubCommand {
    /// Sign a message with a private or shared key.
    Sign(TextSignOpts),
    /// Verify a signed message with a public or shared key.
    Verify(TextVerifyOpts),
    /// Generate a new key.
    GenerateKey(TextKeyGenerateOpts),
}

/// Arguments of key generation.
#[derive(Debug)]
pub struct TextKeyGenerateOpts {
    /// The scheme to make a key for.
    pub format: TextSignFormat,
    /// The directory that receives the key files.
    pub output: String,
}

/// Arguments of signing.
#[derive(Debug)]
pub struct TextSignOpts {
    /// Where the message comes from: a file, or `-` for standard input.
    pub input: String,
    /// The file that holds the key.
    pub key: String,
    /// The scheme to sign under.
    pub format: TextSignFormat,
}

/// Arguments of verification.
#[derive(Debug)]
pub struct TextVerifyOpts {
    /// Where the message comes from: a file, or `-` for standard input.
    pub input: String,
    /// The file that holds the key.
    pub key: String,
    /// The scheme to verify under.
    pub format: TextSignFormat,
    /// The signature, in text form.
    pub signature: String,
}

/// The scheme that `tag` names, if it names one.
pub open spec fn format_of(tag: Seq<char>) -> Option<TextSignFormat> {
    if tag == "blake3"@ {
        Some(TextSignFormat::Blake3)
    } else if tag == "ed25519"@ {
        Some(TextSignFormat::Ed25519)
    } else {
        None
    }
}

/// The tag of `format`.
pub open spec fn format_tag(format: TextSignFormat) -> Seq<char> {
    match format {
        TextSignFormat::Blake3 => "blake3"@,
        TextSignFormat::Ed25519 => "ed25519"@,
    }
}

/// Each tag names the scheme that it is the tag of.
pub proof fn lemma_tag_names_its_format(format: TextSignFormat)
    ensures
        format_of(format_tag(format)) == Some(format),
{
    reveal_strlit("blake3");
    reveal_strlit("ed25519");
    assert("blake3"@.len() != "ed25519"@.len());
}

/// Reads a scheme's tag: `blake3` or `ed25519`, and nothing else.
pub fn parse_format(format: &str) -> (r: Result<TextSignFormat, TextError>)
    ensures
        match r {
            Ok(f) => format_of(format@) == Some(f),
            Err(e) => format_of(format@) is None && e == TextError::UnsupportedFormat,
        },
{
    let tag = format.to_owned();
    if tag == "blake3".to_owned() {
        Ok(TextSignFormat::Blake3)
    } else if tag == "ed25519".to_owned() {
        Ok(TextSignFormat::Ed25519)
    } else {
        Err(TextError::UnsupportedFormat)
    }
}

impl FromStr for TextSignFormat {
    type Err = TextError;

    /// Reads a scheme's tag, as `parse_format` does.
    fn from_str(s: &str) -> (r: Result<Self, Self::Err>)
        ensures
            match r {
                Ok(f) => format_of(s@) == Some(f),
                Err(e) => format_of(s@) is None && e == TextError::UnsupportedFormat,
            },
    {
        parse_format(s)
    }
}

impl From<TextSignFormat> for &'static str {
    fn from(format: TextSignFormat) -> (tag: &'static str) {
        match format {
            TextSignFormat::Blake3 => "blake3",
            TextSignFormat::Ed25519 => "ed25519",
        }
    }
}

impl FromSpecImpl<TextSignFormat> for &'static str {
    open spec fn obeys_from_spec() -> bool {
        true
    }

    open spec fn from_spec(format: TextSignFormat) -> &'static str {
        match format {
            TextSignFormat::Blake3 => "blake3",
            TextSignFormat::Ed25519 => "ed25519",
        }
    }
}

impl TextSignFormat {
    /// The tag of the scheme, as the command line writes it.
    pub fn to_string(&self) -> (tag: String)
        ensures
            tag@ == format_tag(*self),
    {
        let tag: &'static str = match self {
            TextSignFormat::Blake3 => "blake3",
            TextSignFormat::Ed25519 => "ed25519",
        };
        tag.to_owned()
    }
}

/// The names of the files that generated key material is written to, in
/// the order of the material: the secret first, then the public half where
/// there is one.
pub fn key_file_names(format: TextSignFormat) -> (names: Vec<&'static str>)
    ensures
        format == TextSignFormat::Blake3 ==> names@.len() == 1 && names@[0]@ == "blake3.txt"@,
        format == TextSignFormat::Ed25519 ==> names@.len() == 2 && names@[0]@ == "ed25519.sk"@
            && names@[1]@ == "ed25519.pk"@,
{
    match format {
        TextSignFormat::Blake3 => vec!["blake3.txt"],
        TextSignFormat::Ed25519 => vec!["ed25519.sk", "ed25519.pk"],
    }
}

} // verus!
