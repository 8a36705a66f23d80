//! The configuration record of one wait, and how it is read from the
//! environment.
use crate::command::{parse_command, parsed_command, Command, CommandParseError};
use crate::env_reader::{env_var, env_var_exists, lookup, var_or};
use crate::text::{decimal_u64, to_int};
use vstd::prelude::*;

verus! {

/// Everything one wait needs to know.
pub struct Config {
    /// Comma-separated `host:port` addresses to wait for.
    pub hosts: String,
    /// Comma-separated filesystem paths to wait for.
    pub paths: String,
    /// The command to run once ready, beside its trimmed command line.
    pub command: Option<(Command, String)>,
    /// Time budget for all hosts and paths together.
    pub global_timeout: u64,
    /// Time budget of one connection attempt to a host.
    pub tcp_connection_timeout: u64,
    /// Unconditional sleep before the first check.
    pub wait_before: u64,
    /// Unconditional sleep once everything is ready.
    pub wait_after: u64,
    /// Sleep between two failed checks of one target.
    pub wait_sleep_interval: u64,
}

/// `s` read as an unsigned decimal, or `default` where it is not one.
pub open spec fn number_or(s: Seq<char>, default: u64) -> u64 {
    match decimal_u64(s) {
        Some(v) => v,
        None => default,
    }
}

/// The value of a setting that has a primary name and a deprecated one: the
/// primary's value where it is set, else the deprecated one's, else
/// `default`.
pub open spec fn legacy_or_new_value(
    env: Seq<(String, String)>,
    legacy: Seq<char>,
    name: Seq<char>,
    default: Seq<char>,
) -> Seq<char> {
    var_or(env, name, var_or(env, legacy, default))
}

/// The raw command line that the environment holds.
pub open spec fn command_line(env: Seq<(String, String)>) -> Seq<char> {
    var_or(env, "WAIT_COMMAND"@, Seq::empty())
}

/// Whether `c` is the configuration that the environment `env` describes,
/// field by field.
pub open spec fn config_of(env: Seq<(String, String)>, c: Config) -> bool {
    &&& c.hosts@ == var_or(env, "WAIT_HOSTS"@, Seq::empty())
    &&& c.paths@ == var_or(env, "WAIT_PATHS"@, Seq::empty())
    &&& parsed_command(command_line(env), Ok(c.command))
    &&& c.global_timeout == number_or(
        legacy_or_new_value(env, "WAIT_HOSTS_TIMEOUT"@, "WAIT_TIMEOUT"@, Seq::empty()),
        30,
    )
    &&& c.tcp_connection_timeout == number_or(
        var_or(env, "WAIT_HOST_CONNECT_TIMEOUT"@, Seq::empty()),
        5,
    )
    &&& c.wait_before == number_or(
        legacy_or_new_value(env, "WAIT_BEFORE_HOSTS"@, "WAIT_BEFORE"@, Seq::empty()),
        0,
    )
    &&& c.wait_after == number_or(
        legacy_or_new_value(env, "WAIT_AFTER_HOSTS"@, "WAIT_AFTER"@, Seq::empty()),
        0,
    )
    &&& c.wait_sleep_interval == number_or(var_or(env, "WAIT_SLEEP_INTERVAL"@, Seq::empty()), 1)
}

/// The value of the setting named `var_name`, or of its deprecated name
/// `legacy_var_name` where only that is set, or `default`.
fn legacy_or_new(
    env: &Vec<(String, String)>,
    legacy_var_name: &str,
    var_name: &str,
    default: &str,
) -> (r: String)
    ensures
        r@ == legacy_or_new_value(env@, legacy_var_name@, var_name@, default@),
{
    let mut temp_value = default.to_owned();
    if env_var_exists(env, legacy_var_name) {
        temp_value = env_var(env, legacy_var_name, temp_value);
    }
    env_var(env, var_name, temp_value)
}

/// Builds the configuration from a snapshot of the environment (name and
/// value of each variable). Numbers that do not parse fall back to their
/// defaults; a command line that cannot be split is an error.
pub fn config_from_env(env: &Vec<(String, String)>) -> (r: Result<Config, CommandParseError>)
    ensures
        match r {
            Ok(c) => config_of(env@, c),
            Err(_) => parsed_command(command_line(env@), Err(CommandParseError {})),
        },
{
    let command = match parse_command(env_var(env, "WAIT_COMMAND", String::new()).as_str()) {
        Ok(command) => command,
        Err(e) => {
            return Err(e);
        },
    };
    proof {
        reveal_strlit("");
    }
    let global_timeout = to_int(legacy_or_new(env, "WAIT_HOSTS_TIMEOUT", "WAIT_TIMEOUT", "").as_str(), 30);
    let tcp_connection_timeout = to_int(env_var(env, "WAIT_HOST_CONNECT_TIMEOUT", String::new()).as_str(), 5);
    let wait_before = to_int(legacy_or_new(env, "WAIT_BEFORE_HOSTS", "WAIT_BEFORE", "").as_str(), 0);
    let wait_after = to_int(legacy_or_new(env, "WAIT_AFTER_HOSTS", "WAIT_AFTER", "").as_str(), 0);
    let wait_sleep_interval = to_int(env_var(env, "WAIT_SLEEP_INTERVAL", String::new()).as_str(), 1);
    Ok(Config {
        hosts: env_var(env, "WAIT_HOSTS", String::new()),
        paths: env_var(env, "WAIT_PATHS", String::new()),
        command,
        global_timeout,
        tcp_connection_timeout,
        wait_before,
        wait_after,
        wait_sleep_interval,
    })
}

/// The deprecated name `legacy`, beside the name `name` that replaces it,
/// where `env` sets it.
pub open spec fn if_set(env: Seq<(String, String)>, legacy: Seq<char>, name: Seq<char>) -> Seq<
    (Seq<char>, Seq<char>),
> {
    if lookup(env, legacy) is Some {
        seq![(legacy, name)]
    } else {
        Seq::empty()
    }
}

/// The deprecated names that `env` sets, each beside its replacement: the
/// global timeout's, then the sleep before's, then the sleep after's.
pub open spec fn legacy_names_set(env: Seq<(String, String)>) -> Seq<(Seq<char>, Seq<char>)> {
    if_set(env, "WAIT_HOSTS_TIMEOUT"@, "WAIT_TIMEOUT"@) + if_set(
        env,
        "WAIT_BEFORE_HOSTS"@,
        "WAIT_BEFORE"@,
    ) + if_set(env, "WAIT_AFTER_HOSTS"@, "WAIT_AFTER"@)
}

/// The text of each pair of strings.
pub open spec fn pair_views(v: Seq<(String, String)>) -> Seq<(Seq<char>, Seq<char>)> {
    v.map_values(|p: (String, String)| (p.0@, p.1@))
}

fn note_if_set(
    env: &Vec<(String, String)>,
    legacy: &str,
    name: &str,
    found: &mut Vec<(String, String)>,
)
    ensures
        pair_views(final(found)@) == pair_views(old(found)@) + if_set(env@, legacy@, name@),
{
    let ghost before = found@;
    if env_var_exists(env, legacy) {
        found.push((legacy.to_owned(), name.to_owned()));
        assert(pair_views(found@) =~= pair_views(before) + if_set(env@, legacy@, name@));
    } else {
        assert(pair_views(found@) =~= pair_views(before) + if_set(env@, legacy@, name@));
    }
}

/// The deprecated names that the environment `env` sets, each beside the
/// name that replaces it, so that their use can be reported.
pub fn deprecated_names_in_use(env: &Vec<(String, String)>) -> (r: Vec<(String, String)>)
    ensures
        pair_views(r@) == legacy_names_set(env@),
{
    let mut found: Vec<(String, String)> = Vec::new();
    assert(pair_views(found@) =~= Seq::empty());
    note_if_set(env, "WAIT_HOSTS_TIMEOUT", "WAIT_TIMEOUT", &mut found);
    note_if_set(env, "WAIT_BEFORE_HOSTS", "WAIT_BEFORE", &mut found);
    note_if_set(env, "WAIT_AFTER_HOSTS", "WAIT_AFTER", &mut found);
    assert(pair_views(found@) =~= legacy_names_set(env@));
    found
}

/// Where both the primary and the deprecated name of a setting are set, the
/// primary one decides: for the global timeout, the sleep before and the
/// sleep after alike.
pub proof fn lemma_primary_name_wins(env: Seq<(String, String)>, c: Config)
    requires
        config_of(env, c),
    ensures
        lookup(env, "WAIT_TIMEOUT"@) matches Some(v) ==> c.global_timeout == number_or(v, 30),
        lookup(env, "WAIT_BEFORE"@) matches Some(v) ==> c.wait_before == number_or(v, 0),
        lookup(env, "WAIT_AFTER"@) matches Some(v) ==> c.wait_after == number_or(v, 0),
{
}

} // verus!
