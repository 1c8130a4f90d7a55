use rcli::cli::base64::{parse_base64_format, Base64Format};
use rcli::cli::csv::{parse_format as parse_output_format, CsvOpts, OutputFormat};
use rcli::cli::text::{key_file_names, parse_format, TextSignFormat};
use rcli::cli::{verify_file, verify_input_file, verify_path};
use rcli::process::text::TextError;

#[test]
fn test_verify_input_file() {
    assert_eq!(verify_file("-", false), Ok("-".into()));
    assert_eq!(verify_file("*", false), Err("File does not exist"));
    assert_eq!(verify_file("Cargo.toml", true), Ok("Cargo.toml".into()));
    assert_eq!(verify_file("not-exist", false), Err("File does not exist"));
}

#[test]
fn verify_file_takes_the_dash_whether_or_not_a_file_has_that_name() {
    assert_eq!(verify_file("-", true), Ok("-".into()));
    assert_eq!(verify_file("--", false), Err("File does not exist"));
    assert_eq!(verify_file("", false), Err("File does not exist"));
}

#[test]
fn verify_input_file_takes_files_only() {
    assert_eq!(verify_input_file("Cargo.toml", true), Ok("Cargo.toml".into()));
    assert_eq!(verify_input_file("not-exist", false), Err("File does not exist"));
    assert_eq!(verify_input_file("-", false), Err("File does not exist"));
}

#[test]
fn verify_path_accepts_directories_only() {
    assert_eq!(verify_path(".", true), Ok(".".into()));
    assert_eq!(
        verify_path("Cargo.toml", false),
        Err("Path does not exist or is not a directory")
    );
}

#[test]
fn text_sign_format_tags() {
    assert_eq!(parse_format("blake3"), Ok(TextSignFormat::Blake3));
    assert_eq!(parse_format("ed25519"), Ok(TextSignFormat::Ed25519));
    assert_eq!(parse_format("Blake3"), Err(TextError::UnsupportedFormat));
    assert_eq!(parse_format("blake3 "), Err(TextError::UnsupportedFormat));
    assert_eq!(parse_format(""), Err(TextError::UnsupportedFormat));
    assert_eq!("ed25519".parse::<TextSignFormat>(), Ok(TextSignFormat::Ed25519));
    assert_eq!("rsa".parse::<TextSignFormat>(), Err(TextError::UnsupportedFormat));
}

#[test]
fn text_sign_format_names_itself() {
    assert_eq!(TextSignFormat::Blake3.to_string(), "blake3");
    assert_eq!(TextSignFormat::Ed25519.to_string(), "ed25519");
    let tag: &str = TextSignFormat::Ed25519.into();
    assert_eq!(tag, "ed25519");
    for format in [TextSignFormat::Blake3, TextSignFormat::Ed25519] {
        assert_eq!(parse_format(&format.to_string()), Ok(format));
    }
}

#[test]
fn base64_format_tags() {
    assert_eq!(parse_base64_format("standard"), Ok(Base64Format::Standard));
    assert_eq!(parse_base64_format("urlsafe"), Ok(Base64Format::UrlSafe));
    assert_eq!(parse_base64_format("url_safe"), Err("Invalid base64 format"));
    assert_eq!("urlsafe".parse::<Base64Format>(), Ok(Base64Format::UrlSafe));
    assert_eq!(Base64Format::Standard.to_string(), "standard");
    assert_eq!(Base64Format::UrlSafe.to_string(), "urlsafe");
    let tag: &str = Base64Format::Standard.into();
    assert_eq!(tag, "standard");
}

#[test]
fn output_format_tags() {
    assert_eq!(parse_output_format("json"), Ok(OutputFormat::Json));
    assert_eq!(parse_output_format("yaml"), Ok(OutputFormat::Yaml));
    assert_eq!(parse_output_format("toml"), Err("Invalid format"));
    assert_eq!("yaml".parse::<OutputFormat>(), Ok(OutputFormat::Yaml));
    assert_eq!(OutputFormat::Json.to_string(), "json");
    let tag: &str = OutputFormat::Yaml.into();
    assert_eq!(tag, "yaml");
}

#[test]
fn csv_output_name_follows_the_format_unless_given() {
    let mut opts = CsvOpts {
        input: "input.csv".into(),
        output: None,
        format: OutputFormat::Json,
        delimiter: ',',
        header: true,
    };
    assert_eq!(opts.output_name(), "output.json");
    opts.format = OutputFormat::Yaml;
    assert_eq!(opts.output_name(), "output.yaml");
    opts.output = Some("players.txt".into());
    assert_eq!(opts.output_name(), "players.txt");
}

#[test]
fn key_files_are_named_by_scheme_secret_first() {
    assert_eq!(key_file_names(TextSignFormat::Blake3), vec!["blake3.txt"]);
    assert_eq!(
        key_file_names(TextSignFormat::Ed25519),
        vec!["ed25519.sk", "ed25519.pk"]
    );
}
