use vstd::prelude::*;

verus! {

/// Errors of loading, validating and writing the configuration file.
///
/// Paths are held as strings, and the causes of read, parse and write
/// failures as the text that their own errors print.
#[derive(Debug)]
pub enum ConfigError {
    Read { path: String, source: String },
    Parse { path: String, source: String },
    Serialize { source: String },
    CreateParent { path: String, source: String },
    Write { path: String, source: String },
    InvalidField { field: String, message: String },
}

/// The text that each configuration error prints.
pub open spec fn config_error_text(e: ConfigError) -> Seq<char> {
    match e {
        ConfigError::Read { path, source } => "konfiguračný súbor `"@ + path@
            + "` sa nepodarilo načítať: "@ + source@,
        ConfigError::Parse { path, source } => "konfiguračný súbor `"@ + path@
            + "` obsahuje neplatný TOML: "@ + source@,
        ConfigError::Serialize { source } => "konfiguráciu sa nepodarilo serializovať do TOML: "@
            + source@,
        ConfigError::CreateParent { path, source } => "nepodarilo sa vytvoriť nadradený adresár pre `"@
            + path@ + "`: "@ + source@,
        ConfigError::Write { path, source } => "konfiguráciu sa nepodarilo zapísať do `"@ + path@
            + "`: "@ + source@,
        ConfigError::InvalidField { field, message } => "neplatná hodnota konfigurácie `"@ + field@
            + "`: "@ + message@,
    }
}

/// `a + b + c + d` as a new string.
pub fn join4(a: &str, b: &str, c: &str, d: &str) -> (r: String)
    ensures
        r@ == a@ + b@ + c@ + d@,
{
    let mut r = String::from_str(a);
    r.append(b);
    r.append(c);
    r.append(d);
    r
}

/// `a + b` as a new string.
pub fn join2(a: &str, b: &str) -> (r: String)
    ensures
        r@ == a@ + b@,
{
    let mut r = String::from_str(a);
    r.append(b);
    r
}

impl ConfigError {
    /// An invalid value of a configuration field.
    pub fn invalid(field: &str, message: &str) -> (e: Self)
        ensures
            e matches ConfigError::InvalidField { field: f, message: m } && f@ == field@ && m@
                == message@,
    {
        ConfigError::InvalidField { field: String::from_str(field), message: String::from_str(message) }
    }

    /// The text of the error, as it is shown to the user.
    pub fn message(&self) -> (s: String)
        ensures
            s@ == config_error_text(*self),
    {
        match self {
            ConfigError::Read { path, source } => join4(
                "konfiguračný súbor `",
                path.as_str(),
                "` sa nepodarilo načítať: ",
                source.as_str(),
            ),
            ConfigError::Parse { path, source } => join4(
                "konfiguračný súbor `",
                path.as_str(),
                "` obsahuje neplatný TOML: ",
                source.as_str(),
            ),
            ConfigError::Serialize { source } => join2(
                "konfiguráciu sa nepodarilo serializovať do TOML: ",
                source.as_str(),
            ),
            ConfigError::CreateParent { path, source } => join4(
                "nepodarilo sa vytvoriť nadradený adresár pre `",
                path.as_str(),
                "`: ",
                source.as_str(),
            ),
            ConfigError::Write { path, source } => join4(
                "konfiguráciu sa nepodarilo zapísať do `",
                path.as_str(),
                "`: ",
                source.as_str(),
            ),
            ConfigError::InvalidField { field, message } => join4(
                "neplatná hodnota konfigurácie `",
                field.as_str(),
                "`: ",
                message.as_str(),
            ),
        }
    }
}

} // verus!
