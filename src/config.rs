//! Where the ledger file is found, and the command line around it.
use crate::budget::QueryBudget;
use crate::query::QueryTransactions;
use vstd::prelude::*;

verus! {

/// Why no configuration could be had.
#[derive(Clone, Debug, PartialEq, Eq)]
pub enum ConfigError {
    /// The configuration file does not exist.
    DoesNotExist(String),
    /// The configuration path is not a regular file.
    NotAFile(String),
    /// The configuration file could not be read.
    ParseError(String),
    /// The configuration names no ledger file.
    MissingHomeBankPath,
    /// The ledger file that the configuration names does not exist.
    HomeBankFileDoesNotExist(String),
}

/// The program's configuration: the path of the ledger file.
#[derive(Clone, Debug, PartialEq, Eq)]
pub struct Config {
    path: String,
}

impl Config {
    pub closed spec fn path_spec(&self) -> Seq<char> {
        self.path@
    }

    /// A configuration for the ledger at `path`.
    pub fn new(path: &str) -> (r: Config)
        ensures
            r.path_spec() == path@,
    {
        Config { path: path.to_owned() }
    }

    /// The path of the ledger file.
    pub fn path(&self) -> (r: &str)
        ensures
            r@ == self.path_spec(),
    {
        self.path.as_str()
    }

    /// Whether a configuration file at `path` can be read, given whether the
    /// path exists and whether it is a regular file.
    pub fn check_source(path: &str, exists: bool, is_file: bool) -> (r: Result<(), ConfigError>)
        ensures
            !exists ==> (r matches Err(ConfigError::DoesNotExist(p)) && p@ == path@),
            exists && !is_file ==> (r matches Err(ConfigError::NotAFile(p)) && p@ == path@),
            exists && is_file ==> r is Ok,
    {
        if !exists {
            Err(ConfigError::DoesNotExist(path.to_owned()))
        } else if !is_file {
            Err(ConfigError::NotAFile(path.to_owned()))
        } else {
            Ok(())
        }
    }

    /// A configuration read from a file: `path` is the ledger path it named,
    /// if any, and `ledger_exists` whether that file exists.
    pub fn from_parsed(path: Option<String>, ledger_exists: bool) -> (r: Result<Config, ConfigError>)
        ensures
            path is None ==> r == Err::<Config, ConfigError>(ConfigError::MissingHomeBankPath),
            path is Some && !ledger_exists ==> (r matches Err(
                ConfigError::HomeBankFileDoesNotExist(p),
            ) && p@ == path->0@),
            path is Some && ledger_exists ==> (r matches Ok(c) && c.path_spec() == path->0@),
    {
        match path {
            None => Err(ConfigError::MissingHomeBankPath),
            Some(p) => if ledger_exists {
                Ok(Config { path: p })
            } else {
                Err(ConfigError::HomeBankFileDoesNotExist(p))
            },
        }
    }
}

/// `base` followed by `part`, with one `/` between them.
pub open spec fn join_path(base: Seq<char>, part: Seq<char>) -> Seq<char> {
    if base.len() == 0 || base.last() == '/' {
        base + part
    } else {
        base + seq!['/'] + part
    }
}

fn join(base: &str, part: &str) -> (r: String)
    ensures
        r@ == join_path(base@, part@),
{
    let mut s = base.to_owned();
    let n = base.unicode_len();
    if n > 0 && base.get_char(n - 1) != '/' {
        s.append("/");
        proof {
            reveal_strlit("/");
        }
    }
    s.append(part);
    s
}

/// The user's configuration directory, `~/.config` when there is none.
pub open spec fn config_base(config_dir: Option<&str>) -> Seq<char> {
    match config_dir {
        Some(d) => d@,
        None => "~/.config"@,
    }
}

/// The program's configuration directory: `hb` under the user's
/// configuration directory, or under `~/.config` when there is none.
pub fn default_cfg_dir(config_dir: Option<&str>) -> (r: String)
    ensures
        r@ == join_path(config_base(config_dir), "hb"@),
{
    let dir = match config_dir {
        Some(d) => d,
        None => "~/.config",
    };
    join(dir, "hb")
}

/// The default configuration file: `config.toml` in the program's
/// configuration directory.
pub fn default_cfg_file(config_dir: Option<&str>) -> (r: String)
    ensures
        r@ == join_path(join_path(config_base(config_dir), "hb"@), "config.toml"@),
{
    let app = default_cfg_dir(config_dir);
    join(app.as_str(), "config.toml")
}

/// The kind of query asked for.
#[derive(Debug)]
pub enum QueryType {
    Transactions(QueryTransactions),
    Budget(QueryBudget),
}

/// The subcommands of the program.
#[derive(Debug)]
pub enum SubCommand {
    Query(QueryType),
}

/// The command line: the configuration file, and a subcommand if one was
/// given.
#[derive(Debug)]
pub struct CliOpts {
    pub path: String,
    pub subcmd: Option<SubCommand>,
}

impl CliOpts {
    /// The configuration file path.
    pub fn path(&self) -> (r: &str)
        ensures
            r@ == self.path@,
    {
        self.path.as_str()
    }

    /// The subcommand given, if any.
    pub fn subcommand(&self) -> (r: Option<&SubCommand>)
        ensures
            r is Some <==> self.subcmd is Some,
            r is Some ==> *r->0 == self.subcmd->0,
    {
        match &self.subcmd {
            Some(sc) => Some(sc),
            None => None,
        }
    }
}

} // verus!
