//! Where the node finds the name and the password for the chain backend.

use crate::network::Network;
use crate::startup::split_once;
use crate::text::{after_first, before_first, text2, text3, text_is, trim, trimmed};
use vstd::prelude::*;
use vstd::string::*;

verus! {

/// The value that a line gives to a name, if it is `name=value`.
pub open spec fn line_value(line: Seq<char>, name: Seq<char>) -> Option<Seq<char>> {
    if before_first(trimmed(line), '=') == name {
        after_first(trimmed(line), '=')
    } else {
        None
    }
}

/// The value that the first line about a name gives to it, if there is such a line.
pub open spec fn env_value(text: Seq<char>, name: Seq<char>) -> Option<Seq<char>>
    decreases text.len(),
{
    match line_value(before_first(text, '\n'), name) {
        Some(value) => Some(value),
        None => match after_first(text, '\n') {
            Some(rest) => env_value(rest, name),
            None => None,
        },
    }
}

/// The name and the password, where both are known.
pub open spec fn both(user: Option<Seq<char>>, password: Option<Seq<char>>) -> Option<
    (Seq<char>, Seq<char>),
> {
    match (user, password) {
        (Some(user), Some(password)) => Some((user, password)),
        _ => None,
    }
}

/// The name and the password that an environment file holds.
pub open spec fn env_file_auth(text: Seq<char>) -> Option<(Seq<char>, Seq<char>)> {
    both(env_value(text, "RPC_USER"@), env_value(text, "RPC_PASSWORD"@))
}

/// The name and the password that a cookie holds: what stands before and behind its first colon.
pub open spec fn cookie_auth(text: Seq<char>) -> Option<(Seq<char>, Seq<char>)> {
    match after_first(trimmed(text), ':') {
        Some(password) => Some((before_first(trimmed(text), ':'), password)),
        None => None,
    }
}

/// What a text is, where there is one.
pub open spec fn text_of(s: Option<String>) -> Option<Seq<char>> {
    match s {
        Some(s) => Some(s@),
        None => None,
    }
}

/// What two texts are, where there are two.
pub open spec fn pair_of(p: Option<(String, String)>) -> Option<(Seq<char>, Seq<char>)> {
    match p {
        Some(p) => Some((p.0@, p.1@)),
        None => None,
    }
}

/// The name and the password for the chain backend. Those on the command line come first, then
/// those of the environment, then those of the environment file, then those of the cookie.
pub open spec fn chosen_auth(
    given: Option<(Seq<char>, Seq<char>)>,
    user: Option<Seq<char>>,
    password: Option<Seq<char>>,
    env_file: Option<Seq<char>>,
    cookie: Option<Seq<char>>,
) -> Option<(Seq<char>, Seq<char>)> {
    if given is Some {
        given
    } else if both(user, password) is Some {
        both(user, password)
    } else if env_file is Some && env_file_auth(env_file->0) is Some {
        env_file_auth(env_file->0)
    } else if cookie is Some {
        cookie_auth(cookie->0)
    } else {
        None
    }
}

/// Reads the value that a line gives to a name.
fn read_line(line: &str, name: &str) -> (r: Option<String>)
    ensures
        text_of(r) == line_value(line@, name@),
{
    let parts: (String, Option<String>) = split_once(trim(line).as_str(), '=');
    if text_is(&parts.0, name) {
        parts.1
    } else {
        None
    }
}

/// Reads the value that an environment file gives to a name.
pub fn read_env_value(text: &str, name: &str) -> (r: Option<String>)
    ensures
        text_of(r) == env_value(text@, name@),
{
    let mut parts: (String, Option<String>) = split_once(text, '\n');
    let ghost mut rest = text@;
    loop
        invariant
            env_value(rest, name@) == env_value(text@, name@),
            parts.0@ == before_first(rest, '\n'),
            text_of(parts.1) == after_first(rest, '\n'),
        decreases rest.len(),
    {
        match read_line(parts.0.as_str(), name) {
            Some(value) => return Some(value),
            None => {},
        }
        match parts.1 {
            Some(later) => {
                proof {
                    rest = later@;
                }
                parts = split_once(later.as_str(), '\n');
            },
            None => return None,
        }
    }
}

/// Reads the name and the password from a cookie.
pub fn read_cookie(text: &str) -> (r: Option<(String, String)>)
    ensures
        pair_of(r) == cookie_auth(text@),
{
    let parts: (String, Option<String>) = split_once(trim(text).as_str(), ':');
    match parts.1 {
        Some(password) => Some((parts.0, password)),
        None => None,
    }
}

/// Finds the name and the password for the chain backend.
pub fn rpc_auth(
    given: Option<(String, String)>,
    user: Option<String>,
    password: Option<String>,
    env_file: Option<String>,
    cookie: Option<String>,
) -> (r: Option<(String, String)>)
    ensures
        pair_of(r) == chosen_auth(
            pair_of(given),
            text_of(user),
            text_of(password),
            text_of(env_file),
            text_of(cookie),
        ),
{
    if given.is_some() {
        return given;
    }
    match (user, password) {
        (Some(user), Some(password)) => return Some((user, password)),
        _ => {},
    }
    match env_file {
        Some(text) => {
            match (
                read_env_value(text.as_str(), "RPC_USER"),
                read_env_value(text.as_str(), "RPC_PASSWORD"),
            ) {
                (Some(user), Some(password)) => return Some((user, password)),
                _ => {},
            }
        },
        None => {},
    }
    match cookie {
        Some(text) => read_cookie(text.as_str()),
        None => None,
    }
}

/// Where the chain backend keeps its cookie, below the home directory of the operator.
pub open spec fn cookie_path_text(home: Seq<char>, network: Network) -> Seq<char> {
    home + "/.bitcoin/"@ + (match network {
        Network::Bitcoin => ""@,
        Network::Testnet => "testnet3/"@,
        Network::Testnet4 => "testnet4/"@,
        Network::Signet => "signet/"@,
        Network::Regtest => "regtest/"@,
    }) + ".cookie"@
}

/// Says where the chain backend keeps its cookie.
pub fn cookie_path(home: &str, network: Network) -> (r: String)
    ensures
        r@ == cookie_path_text(home@, network),
{
    let part: &str = match network {
        Network::Bitcoin => "",
        Network::Testnet => "testnet3/",
        Network::Testnet4 => "testnet4/",
        Network::Signet => "signet/",
        Network::Regtest => "regtest/",
    };
    let dir: String = text2(home, "/.bitcoin/");
    text3(dir.as_str(), part, ".cookie")
}

} // verus!
