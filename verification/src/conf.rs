//! The configuration file: a TOML document whose key `server` lists the
//! endpoints to connect to.

use vstd::prelude::*;
use vstd::string::*;

verus! {

/// What the TOML parser finds under `key` at the top of the document
/// `text`: `None` where `text` is no TOML document; else `None` where the
/// key is absent or holds no array; else the array's items, each by its
/// text where it is a string.
pub uninterp spec fn toml_string_list(text: Seq<char>, key: Seq<char>) -> Option<
    Option<Seq<Option<Seq<char>>>>,
>;

/// Calls `toml::from_str` for a whole table and picks the array under
/// `key` out of it. What the parser reads depends on the text alone; this
/// contract only gives its outcome a name.
#[verifier::external_body]
fn read_string_list(text: &str, key: &str) -> (r: Option<Option<Vec<Option<String>>>>)
    ensures
        r.deep_view() == toml_string_list(text@, key@),
{
    let table = toml::from_str::<toml::Table>(text).ok()?;
    Some(
        match table.get(key) {
            Some(toml::Value::Array(items)) => Some(
                items.iter().map(|item| item.as_str().map(str::to_owned)).collect(),
            ),
            _ => None,
        },
    )
}

/// The configuration.
#[derive(Clone, Debug, PartialEq, Eq)]
pub struct Config {
    /// The endpoints to connect to, as written.
    pub server: Vec<String>,
}

/// Why a text is no configuration.
#[derive(Clone, Copy, Debug, PartialEq, Eq, Structural)]
pub enum ConfigError {
    /// The text is no TOML document.
    Syntax,
    /// The document has no array under `server`.
    MissingServer,
    /// An item of the array is no string.
    InvalidServer,
}

/// The key that lists the endpoints.
pub open spec fn server_key() -> Seq<char> {
    "server"@
}

/// The servers that a list of items spells, where every item is a string.
pub open spec fn servers_of(entries: Option<Seq<Option<Seq<char>>>>) -> Result<
    Seq<Seq<char>>,
    ConfigError,
> {
    match entries {
        None => Err(ConfigError::MissingServer),
        Some(items) => if forall|i: int| 0 <= i < items.len() ==> (#[trigger] items[i]) is Some {
            Ok(Seq::new(items.len(), |i: int| items[i]->0))
        } else {
            Err(ConfigError::InvalidServer)
        },
    }
}

/// The configuration that a document spells, given what the parser found
/// under the server key.
pub open spec fn config_of(found: Option<Option<Seq<Option<Seq<char>>>>>) -> Result<
    Seq<Seq<char>>,
    ConfigError,
> {
    match found {
        None => Err(ConfigError::Syntax),
        Some(entries) => servers_of(entries),
    }
}

impl Config {
    /// The configuration that lists `entries` as its servers.
    pub fn from_entries(entries: Option<Vec<Option<String>>>) -> (r: Result<Config, ConfigError>)
        ensures
            match servers_of(entries.deep_view()) {
                Ok(servers) => r matches Ok(config) && config.server.deep_view() == servers,
                Err(e) => r == Err::<Config, ConfigError>(e),
            },
    {
        let items = match entries {
            Some(items) => items,
            None => { return Err(ConfigError::MissingServer); },
        };
        let ghost spelled = items.deep_view();
        let mut server: Vec<String> = Vec::new();
        let mut i: usize = 0;
        while i < items.len()
            invariant
                i <= items.len(),
                spelled == items.deep_view(),
                entries.deep_view() == Some(spelled),
                server.len() == i,
                forall|j: int| 0 <= j < i ==> (#[trigger] spelled[j]) == Some(server[j]@),
            decreases items.len() - i,
        {
            match &items[i] {
                Some(text) => {
                    server.push(text.clone());
                },
                None => {
                    assert(spelled[i as int] is None);
                    return Err(ConfigError::InvalidServer);
                },
            }
            i = i + 1;
        }
        assert(server.deep_view() =~= Seq::new(spelled.len(), |i: int| spelled[i]->0));
        Ok(Config { server })
    }

    /// Reads a configuration from the text of a TOML document.
    pub fn parse(text: &str) -> (r: Result<Config, ConfigError>)
        ensures
            match config_of(toml_string_list(text@, server_key())) {
                Ok(servers) => r matches Ok(config) && config.server.deep_view() == servers,
                Err(e) => r == Err::<Config, ConfigError>(e),
            },
    {
        match read_string_list(text, "server") {
            Some(entries) => Config::from_entries(entries),
            None => Err(ConfigError::Syntax),
        }
    }
}

} // verus!
