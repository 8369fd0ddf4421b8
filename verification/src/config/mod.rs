//! Where the configuration file is looked for.
use vstd::prelude::*;
use crate::shell_core::types::PluginConfig;
use crate::text::{path_join, join_path, string_of};

verus! {

/// File name of the configuration.
pub const DEFAULT_CONFIG_FILENAME: &'static str = "shally.yaml";

/// File name of the configuration in the home directory.
pub const HOME_CONFIG_FILENAME: &'static str = ".shally.yaml";

/// The configuration file in the home directory `home`: `~/.shally.yaml`.
pub open spec fn home_config_location(home: Seq<char>) -> Seq<char> {
    path_join(home, HOME_CONFIG_FILENAME@)
}

/// The home configuration file as a candidate, when the home directory is
/// known; there is none otherwise.
pub open spec fn home_candidate(home: Option<Seq<char>>) -> Seq<(Seq<char>, bool)> {
    match home {
        Some(h) => seq![(home_config_location(h), true)],
        None => Seq::empty(),
    }
}

/// The characters of an optional string slice.
pub open spec fn opt_chars(o: Option<&str>) -> Option<Seq<char>> {
    match o {
        Some(s) => Some(s@),
        None => None,
    }
}

/// The `SHALLY_CONFIG` path as a candidate, if set.
pub open spec fn env_candidate(env_config: Option<Seq<char>>) -> Seq<(Seq<char>, bool)> {
    match env_config {
        Some(e) => seq![(e, true)],
        None => Seq::empty(),
    }
}

/// The places to look for the configuration, in order, each with whether it
/// is taken only if the file exists: an explicit path is taken as given;
/// otherwise the `SHALLY_CONFIG` path, `shally.yaml` in the working directory
/// and `~/.shally.yaml` (only when the home directory is known), each if it
/// exists.
pub open spec fn config_candidates(
    explicit: Option<Seq<char>>,
    env_config: Option<Seq<char>>,
    home: Option<Seq<char>>,
) -> Seq<(Seq<char>, bool)> {
    match explicit {
        Some(p) => seq![(p, false)],
        None => env_candidate(env_config) + seq![(DEFAULT_CONFIG_FILENAME@, true)] + home_candidate(home),
    }
}

/// The configuration read from a file, or the default one (zsh, no
/// settings) when the file could not be read or parsed.
pub fn load_config(loaded: Option<PluginConfig>) -> (r: PluginConfig)
    ensures
        match loaded {
            Some(c) => r == c,
            None => r.shell_name@ == "zsh"@ && r.settings@.len() == 0,
        },
{
    match loaded {
        Some(c) => c,
        None => PluginConfig::default(),
    }
}

/// The configuration file in the home directory, `~/.shally.yaml`, or
/// nothing when the home directory is unknown.
pub fn home_config_path(home: Option<&str>) -> (r: Option<String>)
    ensures
        match home {
            Some(h) => r matches Some(p) && p@ == home_config_location(h@),
            None => r is None,
        },
{
    match home {
        Some(h) => Some(join_path(h, HOME_CONFIG_FILENAME)),
        None => None,
    }
}

/// The places to look for the configuration, given the explicit `--config`
/// path, the `SHALLY_CONFIG` variable and the home directory.
pub fn config_path_candidates(explicit: Option<&str>, env_config: Option<&str>, home: Option<&str>) -> (r: Vec<(String, bool)>)
    ensures
        r@.map_values(|c: (String, bool)| (c.0@, c.1)) == config_candidates(
            opt_chars(explicit),
            opt_chars(env_config),
            opt_chars(home),
        ),
{
    let mut r: Vec<(String, bool)> = Vec::new();
    match explicit {
        Some(p) => {
            r.push((string_of(p), false));
        },
        None => {
            match env_config {
                Some(e) => {
                    r.push((string_of(e), true));
                },
                None => {},
            }
            r.push((string_of(DEFAULT_CONFIG_FILENAME), true));
            match home_config_path(home) {
                Some(p) => {
                    r.push((p, true));
                },
                None => {},
            }
        },
    }
    assert(r@.map_values(|c: (String, bool)| (c.0@, c.1)) =~= config_candidates(
        opt_chars(explicit),
        opt_chars(env_config),
        opt_chars(home),
    ));
    r
}

} // verus!
