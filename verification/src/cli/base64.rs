//! Arguments of the base64 commands.

use vstd::prelude::*;
use vstd::std_specs::convert::FromSpecImpl;

verus! {

/// What the base64 command is asked to do.
#[derive(Debug)]
pub enum Base64SubCommand {
    /// Encode bytes as base64.
    Encode(Base64EncodeOpts),
    /// Decode base64 back to bytes.
    Decode(Base64DecodeOpts),
}

/// Arguments of encoding.
#[derive(Debug)]
pub struct Base64EncodeOpts {
    /// Where the bytes come from: a file, or `-` for standard input.
    pub input: String,
    /// The form to encode in.
    pub format: Base64Format,
}

/// Arguments of decoding.
#[derive(Debug)]
pub struct Base64DecodeOpts {
    /// Where the text comes from: a file, or `-` for standard input.
    pub input: String,
    /// The form to decode from.
    pub format: Base64Format,
}

/// Which base64 form is in use.
#[derive(Debug, Clone, Copy, PartialEq, Eq, Structural)]
pub enum Base64Format {
    /// Alphabet ending in `+` and `/`, padded with `=` to a multiple of four.
    Standard,
    /// Alphabet ending in `-` and `_`, never padded.
    UrlSafe,
}

/// The form that `tag` names, if it names one.
pub open spec fn base64_format_of(tag: Seq<char>) -> Option<Base64Format> {
    if tag == "standard"@ {
        Some(Base64Format::Standard)
    } else if tag == "urlsafe"@ {
        Some(Base64Format::UrlSafe)
    } else {
        None
    }
}

/// The tag of `format`.
pub open spec fn base64_format_tag(format: Base64Format) -> Seq<char> {
    match format {
        Base64Format::Standard => "standard"@,
        Base64Format::UrlSafe => "urlsafe"@,
    }
}

/// Each tag names the form that it is the tag of.
pub proof fn lemma_tag_names_its_format(format: Base64Format)
    ensures
        base64_format_of(base64_format_tag(format)) == Some(format),
{
    reveal_strlit("standard");
    reveal_strlit("urlsafe");
    assert("standard"@.len() != "urlsafe"@.len());
}

/// Reads a form's tag: `standard` or `urlsafe`, and nothing else.
pub fn parse_base64_format(format: &str) -> (r: Result<Base64Format, &'static str>)
    ensures
        match r {
            Ok(f) => base64_format_of(format@) == Some(f),
            Err(message) => base64_format_of(format@) is None && message@
                == "Invalid base64 format"@,
        },
{
    let tag = format.to_owned();
    if tag == "standard".to_owned() {
        Ok(Base64Format::Standard)
    } else if tag == "urlsafe".to_owned() {
        Ok(Base64Format::UrlSafe)
    } else {
        Err("Invalid base64 format")
    }
}

impl std::str::FromStr for Base64Format {
    type Err = &'static str;

    /// Reads a form's tag, as `parse_base64_format` does.
    fn from_str(s: &str) -> (r: Result<Self, Self::Err>)
        ensures
            match r {
                Ok(f) => base64_format_of(s@) == Some(f),
                Err(message) => base64_format_of(s@) is None && message@
                    == "Invalid base64 format"@,
            },
    {
        parse_base64_format(s)
    }
}

impl From<Base64Format> for &'static str {
    fn from(format: Base64Format) -> (tag: &'static str) {
        match format {
            Base64Format::Standard => "standard",
            Base64Format::UrlSafe => "urlsafe",
        }
    }
}

impl FromSpecImpl<Base64Format> for &'static str {
    open spec fn obeys_from_spec() -> bool {
        true
    }

    open spec fn from_spec(format: Base64Format) -> &'static str {
        match format {
            Base64Format::Standard => "standard",
            Base64Format::UrlSafe => "urlsafe",
        }
    }
}

impl Base64Format {
    /// The tag of the form, as the command line writes it.
    pub fn to_string(&self) -> (tag: String)
        ensures
            tag@ == base64_format_tag(*self),
    {
        let tag: &'static str = match self {
            Base64Format::Standard => "standard",
            Base64Format::UrlSafe => "urlsafe",
        };
        tag.to_owned()
    }
}

} // verus!
