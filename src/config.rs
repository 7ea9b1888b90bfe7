//! Mount configuration: its records, the octal permission parser and the
//! merge of command-line settings over file settings.

use vstd::prelude::*;

verus! {

#[verifier::external_type_specification]
#[verifier::external_body]
pub struct ExUrl(url::Url);

#[verifier::external_type_specification]
#[verifier::external_body]
pub struct ExParseIntError(std::num::ParseIntError);

/// The Redis server to connect to.
#[derive(Debug)]
pub struct RedisServer {
    pub url: url::Url,
}

/// Ownership and mode for paths matching a pattern.
#[derive(Debug, Clone)]
pub struct PathPermission {
    pub pattern: String,
    pub user: Option<String>,
    pub group: Option<String>,
    pub chmod: Option<u16>,
}

/// Settings as a configuration file gives them; each may be absent.
#[derive(Debug, Default)]
pub struct ConfigFile {
    pub cluster_mode: Option<bool>,
    pub redis: Option<RedisServer>,
    pub permission: Option<Vec<PathPermission>>,
    pub disable_raw: Option<bool>,
    pub read_only: Option<bool>,
    pub allow_other: Option<bool>,
    pub user: Option<String>,
    pub group: Option<String>,
    pub chmod: Option<u16>,
    pub max_results: Option<i64>,
}

/// Settings as the command line gives them; flags are off when not given.
#[derive(Debug)]
pub struct CliSettings {
    pub server: Option<url::Url>,
    pub cluster_mode: bool,
    pub read_only: bool,
    pub disable_raw: bool,
    pub allow_other: bool,
    pub user: Option<String>,
    pub group: Option<String>,
    pub chmod: Option<u16>,
    pub max_results: Option<i64>,
}

/// The configuration a mount runs with.
#[derive(Debug)]
pub struct Config {
    pub cluster_mode: bool,
    pub redis: Option<RedisServer>,
    pub permission: Vec<PathPermission>,
    pub disable_raw: bool,
    pub read_only: bool,
    pub allow_other: bool,
    pub uid: u32,
    pub gid: u32,
    pub chmod: u16,
    pub max_results: i64,
}

/// Mode applied when neither the command line nor the file gives one.
pub const DEFAULT_CHMOD: u16 = 0o755;

/// Listing cap applied when neither the command line nor the file gives one.
pub const DEFAULT_MAX_RESULTS: i64 = 1000;

/// Largest permission value accepted.
pub const MAX_PERMISSION: u16 = 0o777;

/// Why a permission string was refused.
#[derive(Debug)]
pub enum PermissionParsingError {
    BadValue(std::num::ParseIntError),
    OutOfRange,
}

/// The value of a run of octal digits.
pub open spec fn octal_value(d: Seq<char>) -> nat
    decreases d.len(),
{
    if d.len() == 0 {
        0
    } else {
        octal_value(d.drop_last()) * 8 + ((d.last() as int) - ('0' as int)) as nat
    }
}

/// A non-empty run of the digits `0` to `7`.
pub open spec fn is_octal_digits(d: Seq<char>) -> bool {
    d.len() > 0 && forall|i: int| 0 <= i < d.len() ==> '0' <= #[trigger] d[i] && d[i] <= '7'
}

/// The digits of `s` once an optional leading `+` is taken off.
pub open spec fn octal_body(s: Seq<char>) -> Seq<char> {
    if s.len() > 0 && s[0] == '+' {
        s.drop_first()
    } else {
        s
    }
}

/// The `u16` that `s` denotes in base 8, if it denotes one.
pub open spec fn spec_octal_u16(s: Seq<char>) -> Option<u16> {
    let d = octal_body(s);
    if is_octal_digits(d) && octal_value(d) < 0x10000 {
        Some(octal_value(d) as u16)
    } else {
        None
    }
}

/// Relies on `u16::from_str_radix` in base 8: an optional `+` and a non-empty
/// run of octal digits whose value fits, and nothing else, parses.
#[verifier::external_body]
fn u16_from_octal(s: &str) -> (r: Result<u16, std::num::ParseIntError>)
    ensures
        r is Ok <==> spec_octal_u16(s@) is Some,
        r matches Ok(v) ==> spec_octal_u16(s@) == Some(v),
{
    u16::from_str_radix(s, 8)
}

/// Parses a permission written in octal, from `000` to `777`.
pub fn parse_octal(src: &str) -> (r: Result<u16, PermissionParsingError>)
    ensures
        r is Ok <==> (spec_octal_u16(src@) matches Some(v) && v <= MAX_PERMISSION),
        r matches Ok(v) ==> spec_octal_u16(src@) == Some(v),
        r matches Err(PermissionParsingError::OutOfRange) <==> (spec_octal_u16(src@) matches Some(
            v,
        ) && v > MAX_PERMISSION),
        r matches Err(PermissionParsingError::BadValue(_)) <==> spec_octal_u16(src@) is None,
{
    match u16_from_octal(src) {
        Ok(parsed) => {
            if parsed <= MAX_PERMISSION {
                Ok(parsed)
            } else {
                Err(PermissionParsingError::OutOfRange)
            }
        },
        Err(e) => Err(PermissionParsingError::BadValue(e)),
    }
}

/// A setting given on the command line, else in the file, else `default`.
pub open spec fn layered<T>(cli: Option<T>, file: Option<T>, default: T) -> T {
    match cli {
        Some(v) => v,
        None => match file {
            Some(v) => v,
            None => default,
        },
    }
}

/// A flag that is on when the command line or the file turns it on.
pub open spec fn either_flag(cli: bool, file: Option<bool>) -> bool {
    cli || file == Some(true)
}

fn flag_or(cli: bool, file: Option<bool>) -> (r: bool)
    ensures
        r == either_flag(cli, file),
{
    cli || match file {
        Some(v) => v,
        None => false,
    }
}

fn pick_or<T>(cli: Option<T>, file: Option<T>, default: T) -> (r: T)
    ensures
        r == layered(cli, file, default),
{
    match cli {
        Some(v) => v,
        None => match file {
            Some(v) => v,
            None => default,
        },
    }
}

/// The user name to mount as: the command line's, else the file's; `None`
/// stands for the current user.
pub fn chosen_user(cli: &CliSettings, file: &ConfigFile) -> (r: Option<String>)
    ensures
        r == (match cli.user {
            Some(u) => Some(u),
            None => file.user,
        }),
{
    match &cli.user {
        Some(u) => Some(u.clone()),
        None => file.user.clone(),
    }
}

/// The group name to mount as: the command line's, else the file's; `None`
/// stands for the current user's group.
pub fn chosen_group(cli: &CliSettings, file: &ConfigFile) -> (r: Option<String>)
    ensures
        r == (match cli.group {
            Some(g) => Some(g),
            None => file.group,
        }),
{
    match &cli.group {
        Some(g) => Some(g.clone()),
        None => file.group.clone(),
    }
}

/// Merges the command line over the file: a flag is on when either turns it
/// on; a value comes from the command line, else the file, else its default.
/// `uid` and `gid` are the ids of the chosen user and group, and
/// `default_server` is used when neither names a server.
pub fn merge_config(
    cli: CliSettings,
    file: ConfigFile,
    uid: u32,
    gid: u32,
    default_server: RedisServer,
) -> (r: Config)
    ensures
        r.cluster_mode == either_flag(cli.cluster_mode, file.cluster_mode),
        r.disable_raw == either_flag(cli.disable_raw, file.disable_raw),
        r.read_only == either_flag(cli.read_only, file.read_only),
        r.allow_other == either_flag(cli.allow_other, file.allow_other),
        r.redis == Some(
            layered(
                match cli.server {
                    Some(u) => Some(RedisServer { url: u }),
                    None => None,
                },
                file.redis,
                default_server,
            ),
        ),
        r.permission@ == (match file.permission {
            Some(p) => p@,
            None => Seq::<PathPermission>::empty(),
        }),
        r.uid == uid,
        r.gid == gid,
        r.chmod == layered(cli.chmod, file.chmod, DEFAULT_CHMOD),
        r.max_results == layered(cli.max_results, file.max_results, DEFAULT_MAX_RESULTS),
{
    let server = match cli.server {
        Some(u) => Some(RedisServer { url: u }),
        None => None,
    };
    let permission = match file.permission {
        Some(p) => p,
        None => Vec::new(),
    };
    Config {
        cluster_mode: flag_or(cli.cluster_mode, file.cluster_mode),
        redis: Some(pick_or(server, file.redis, default_server)),
        permission: permission,
        disable_raw: flag_or(cli.disable_raw, file.disable_raw),
        read_only: flag_or(cli.read_only, file.read_only),
        allow_other: flag_or(cli.allow_other, file.allow_other),
        uid: uid,
        gid: gid,
        chmod: pick_or(cli.chmod, file.chmod, DEFAULT_CHMOD),
        max_results: pick_or(cli.max_results, file.max_results, DEFAULT_MAX_RESULTS),
    }
}

} // verus!
