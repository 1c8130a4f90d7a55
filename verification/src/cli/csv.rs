//! Arguments of the CSV conversion command.

use vstd::prelude::*;
use vstd::std_specs::convert::FromSpecImpl;
use vstd::string::StringExecFns;

verus! {

/// The format that CSV records are written out in.
#[derive(Debug, Clone, Copy, PartialEq, Eq, Structural)]
pub enum OutputFormat {
    /// JSON, pretty-printed.
    Json,
    /// YAML.
    Yaml,
}

/// Arguments of the conversion.
#[derive(Debug)]
pub struct CsvOpts {
    /// The CSV file to read.
    pub input: String,
    /// The file to write; where none is given, its name follows from the
    /// format.
    pub output: Option<String>,
    /// The format to write.
    pub format: OutputFormat,
    /// The character that separates fields.
    pub delimiter: char,
    /// Whether the first record names the fields.
    pub header: bool,
}

/// The format that `tag` names, if it names one.
pub open spec fn output_format_of(tag: Seq<char>) -> Option<OutputFormat> {
    if tag == "json"@ {
        Some(OutputFormat::Json)
    } else if tag == "yaml"@ {
        Some(OutputFormat::Yaml)
    } else {
        None
    }
}

/// The tag of `format`.
pub open spec fn output_format_tag(format: OutputFormat) -> Seq<char> {
    match format {
        OutputFormat::Json => "json"@,
        OutputFormat::Yaml => "yaml"@,
    }
}

/// Reads a format's tag: `json` or `yaml`, and nothing else.
pub fn parse_format(format: &str) -> (r: Result<OutputFormat, &'static str>)
    ensures
        match r {
            Ok(f) => output_format_of(format@) == Some(f),
            Err(message) => output_format_of(format@) is None && message@ == "Invalid format"@,
        },
{
    let tag = format.to_owned();
    if tag == "json".to_owned() {
        Ok(OutputFormat::Json)
    } else if tag == "yaml".to_owned() {
        Ok(OutputFormat::Yaml)
    } else {
        Err("Invalid format")
    }
}

impl std::str::FromStr for OutputFormat {
    type Err = &'static str;

    /// Reads a format's tag, as `parse_format` does.
    fn from_str(s: &str) -> (r: Result<Self, Self::Err>)
        ensures
            match r {
                Ok(f) => output_format_of(s@) == Some(f),
                Err(message) => output_format_of(s@) is None && message@ == "Invalid format"@,
            },
    {
        parse_format(s)
    }
}

impl From<OutputFormat> for &'static str {
    fn from(format: OutputFormat) -> (tag: &'static str) {
        match format {
            OutputFormat::Json => "json",
            OutputFormat::Yaml => "yaml",
        }
    }
}

impl FromSpecImpl<OutputFormat> for &'static str {
    open spec fn obeys_from_spec() -> bool {
        true
    }

    open spec fn from_spec(format: OutputFormat) -> &'static str {
        match format {
            OutputFormat::Json => "json",
            OutputFormat::Yaml => "yaml",
        }
    }
}

impl OutputFormat {
    /// The tag of the format, as the command line writes it.
    pub fn to_string(&self) -> (tag: String)
        ensures
            tag@ == output_format_tag(*self),
    {
        let tag: &'static str = match self {
            OutputFormat::Json => "json",
            OutputFormat::Yaml => "yaml",
        };
        tag.to_owned()
    }
}

impl CsvOpts {
    /// The file that the conversion writes: the one asked for, or
    /// `output.` followed by the format's tag.
    pub fn output_name(&self) -> (name: String)
        ensures
            name@ == match self.output {
                Some(output) => output@,
                None => "output."@ + output_format_tag(self.format),
            },
    {
        match &self.output {
            Some(output) => output.clone(),
            None => {
                let tag = self.format.to_string();
                "output.".to_owned().concat(tag.as_str())
            },
        }
    }
}

/// Each tag names the format that it is the tag of.
pub proof fn lemma_tag_names_its_format(format: OutputFormat)
    ensures
        output_format_of(output_format_tag(format)) == Some(format),
{
    reveal_strlit("json");
    reveal_strlit("yaml");
    assert("json"@[0] != "yaml"@[0]);
}

} // verus!
