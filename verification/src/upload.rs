//! Resolution of the file-upload size limit from the command line and the
//! environment.
use vstd::prelude::*;

use crate::provider::{join, join_path};
use crate::text::{decimal, owned, parse_usize, parse_usize_spec, push_decimal, trim, trim_seq, is_blank, is_blank_str};

verus! {

/// Environment variable that holds the upload limit in MiB.
pub const UPLOAD_MAX_SIZE_ENV: &'static str = "AIONUI_UPLOAD_MAX_SIZE_MB";

/// Bytes in one MiB.
pub const MIB: usize = 1048576;

/// Stage reported by every upload-limit configuration error.
pub const UPLOAD_MAX_SIZE_STAGE: &'static str = "config.upload_max_size_mb";

/// Message of every upload-limit configuration error.
pub const UPLOAD_MAX_SIZE_MESSAGE: &'static str = "upload max size must be a positive integer number of MiB";

/// Error classes of application start-up.
#[derive(Debug, Clone, Copy, PartialEq, Eq, Structural)]
pub enum BootstrapErrorCode {
    ConfigInvalid,
    DataInitFailed,
}

/// A start-up failure: its class, the stage that failed, a message and
/// named detail fields.
#[derive(Debug)]
pub struct BootstrapError {
    pub code: BootstrapErrorCode,
    pub stage: String,
    pub message: String,
    pub fields: Vec<(String, String)>,
}

impl BootstrapError {
    pub fn code(&self) -> (c: BootstrapErrorCode)
        ensures
            c == self.code,
    {
        self.code
    }

    pub fn stage(&self) -> (s: &str)
        ensures
            s@ == self.stage@,
    {
        self.stage.as_str()
    }
}

/// The value of the named detail fields of an error, as views.
pub open spec fn field_views(fields: Seq<(String, String)>) -> Seq<(Seq<char>, Seq<char>)> {
    fields.map_values(|f: (String, String)| (f.0@, f.1@))
}

/// Whether `e` is the upload-limit configuration error for `value` (before
/// trimming) read from `source`.
pub open spec fn is_upload_max_size_error(e: BootstrapError, value: Seq<char>, source: Seq<char>) -> bool {
    &&& e.code == BootstrapErrorCode::ConfigInvalid
    &&& e.stage@ == UPLOAD_MAX_SIZE_STAGE@
    &&& e.message@ == UPLOAD_MAX_SIZE_MESSAGE@
    &&& field_views(e.fields@) == seq![("source"@, source), ("value"@, trim_seq(value))]
}

/// The configuration error for an unusable upload limit.
pub fn upload_max_size_error(value: &str, source: &str) -> (e: BootstrapError)
    ensures
        is_upload_max_size_error(e, value@, source@),
{
    let mut fields: Vec<(String, String)> = Vec::new();
    fields.push(("source".to_owned(), owned(source)));
    fields.push(("value".to_owned(), trim(value)));
    let e = BootstrapError {
        code: BootstrapErrorCode::ConfigInvalid,
        stage: UPLOAD_MAX_SIZE_STAGE.to_owned(),
        message: UPLOAD_MAX_SIZE_MESSAGE.to_owned(),
        fields,
    };
    assert(field_views(e.fields@) =~= seq![("source"@, source@), ("value"@, trim_seq(value@))]);
    e
}

/// Whether `value_mb` MiB is a usable upload limit: positive and representable.
pub open spec fn valid_upload_mb(value_mb: nat) -> bool {
    value_mb > 0 && value_mb * MIB <= usize::MAX
}

/// Converts a limit in MiB to bytes. Fails for zero and for products that
/// overflow `usize`.
pub fn upload_max_size_bytes(value_mb: usize, source: &str) -> (r: Result<usize, BootstrapError>)
    ensures
        r is Ok <==> valid_upload_mb(value_mb as nat),
        r matches Ok(v) ==> v == value_mb * MIB,
        r matches Err(e) ==> is_upload_max_size_error(e, decimal(value_mb as nat), source@),
{
    match value_mb.checked_mul(MIB) {
        Some(v) if v > 0 => Ok(v),
        _ => {
            let mut text = String::new();
            push_decimal(&mut text, value_mb as u64);
            assert(Seq::<char>::empty() + decimal(value_mb as nat) == decimal(value_mb as nat));
            Err(upload_max_size_error(text.as_str(), source))
        },
    }
}

/// What [`resolve_upload_max_size_bytes_from`] yields, in bytes, when it succeeds.
pub open spec fn resolved_upload_bytes(
    cli_value_mb: Option<usize>,
    env_value_mb: Option<Seq<char>>,
    default_bytes: usize,
) -> Option<nat> {
    match cli_value_mb {
        Some(mb) => if valid_upload_mb(mb as nat) {
            Some((mb * MIB) as nat)
        } else {
            None
        },
        None => match env_value_mb {
            Some(raw) if !is_blank(raw) => match parse_usize_spec(trim_seq(raw)) {
                Some(mb) => if valid_upload_mb(mb) {
                    Some((mb * MIB) as nat)
                } else {
                    None
                },
                None => None,
            },
            _ => Some(default_bytes as nat),
        },
    }
}

/// The command-line limit takes precedence: whatever the environment holds,
/// and whatever the default, the outcome is that of the command-line value.
pub proof fn law_command_line_limit_wins(
    cli_value_mb: usize,
    env_value_mb: Option<Seq<char>>,
    default_bytes: usize,
    other_default: usize,
)
    ensures
        resolved_upload_bytes(Some(cli_value_mb), env_value_mb, default_bytes) == resolved_upload_bytes(
            Some(cli_value_mb),
            None,
            other_default,
        ),
{
}

/// Without a command-line value, a missing or blank environment value
/// leaves the default limit in place.
pub proof fn law_blank_environment_keeps_default(env_value_mb: Option<Seq<char>>, default_bytes: usize)
    requires
        env_value_mb matches Some(raw) ==> is_blank(raw),
    ensures
        resolved_upload_bytes(None, env_value_mb, default_bytes) == Some(default_bytes as nat),
{
}

/// The upload limit in bytes: the command-line value first, then a
/// non-blank environment value (trimmed, parsed as a decimal `usize`), else
/// `default_bytes`. Every unusable value is a configuration error.
pub fn resolve_upload_max_size_bytes_from(
    cli_value_mb: Option<usize>,
    env_value_mb: Option<&str>,
    default_bytes: usize,
) -> (r: Result<usize, BootstrapError>)
    ensures
        ({
            let env = match env_value_mb {
                Some(e) => Some(e@),
                None => None,
            };
            &&& r is Ok <==> resolved_upload_bytes(cli_value_mb, env, default_bytes) is Some
            &&& r matches Ok(v) ==> resolved_upload_bytes(cli_value_mb, env, default_bytes) == Some(
                v as nat,
            )
            &&& r matches Err(e) ==> e.code == BootstrapErrorCode::ConfigInvalid && e.stage@
                == UPLOAD_MAX_SIZE_STAGE@
            &&& r matches Err(e) ==> match cli_value_mb {
                Some(mb) => is_upload_max_size_error(e, decimal(mb as nat), "command line"@),
                None => match parse_usize_spec(trim_seq(env->0)) {
                    Some(mb) => is_upload_max_size_error(e, decimal(mb), "environment"@),
                    None => is_upload_max_size_error(e, env->0, "environment"@),
                },
            }
        }),
{
    if let Some(value_mb) = cli_value_mb {
        return upload_max_size_bytes(value_mb, "command line");
    }
    match env_value_mb {
        Some(raw) => {
            if is_blank_str(raw) {
                return Ok(default_bytes);
            }
            let trimmed = trim(raw);
            match parse_usize(trimmed.as_str()) {
                Some(value_mb) => upload_max_size_bytes(value_mb, "environment"),
                None => Err(upload_max_size_error(raw, "environment")),
            }
        },
        None => Ok(default_bytes),
    }
}


/// What start-up resolves for every subcommand: the guard that keeps the
/// log writers alive for the whole process, and the configuration.
pub struct ServerEnvironment<G, C> {
    pub _log_guard: G,
    pub config: C,
}

/// The directory logs are written to: the one given on the command line,
/// else `logs` below the data directory.
pub fn log_directory(log_dir: Option<String>, data_dir: &str) -> (r: String)
    ensures
        match log_dir {
            Some(d) => r@ == d@,
            None => r@ == join_path(data_dir@, "logs"@),
        },
{
    match log_dir {
        Some(d) => d,
        None => join(data_dir, "logs"),
    }
}

} // verus!
