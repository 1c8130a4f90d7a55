//! Building blocks of a small command-line toolkit: text signing and
//! verification under interchangeable schemes, key generation and loading,
//! base64 transcoding, password generation and argument validation.
//!
//! Every function here works on values already in memory. Reading inputs,
//! writing results and parsing the command line are left to the caller.

pub mod cli;
pub mod process;

pub use cli::base64::{Base64Format, Base64SubCommand};
pub use cli::csv::OutputFormat;
pub use cli::http::HttpSubCommand;
pub use cli::text::{TextSignFormat, TextSubCommand};
pub use cli::{Opts, SubCommand};
pub use process::b64::{process_decode, process_encode, Base64Error};
pub use process::gen_pass::{process_genpass, GenPassError};
pub use process::text::{
    process_generate_key, process_text_sign, process_text_verify, Blake3, Ed25519Signer,
    Ed25519Verifier, KeyGenerator, KeyLoader, TextError, TextSign, TextVerify,
};
