//! All configurations of Lifeblood, below one root directory (by default
//! `~/lifeblood`).
use crate::config_data::{texts_sorted, toml_entries, with_extension, ConfigData};
use crate::paths::{join, join_path};
use crate::text::{chars_equal, strings_view, to_chars};
use vstd::prelude::*;

verus! {

/// The configuration root of the collection.
pub struct ConfigDataCollection {
    config_location: String,
}

/// Whether `os` names a system with a known configuration location.
pub open spec fn is_known_os(os: Seq<char>) -> bool {
    os == "windows"@ || os == "linux"@ || os == "macos"@
}

/// The default configuration root: the `LIFEBLOOD_CONFIG_LOCATION` value when
/// set; else, below the home directory, `lifeblood` (Windows, Linux) or
/// `Library/Preferences/lifeblood` (macOS); empty when there is no home.
pub open spec fn default_location(
    env_value: Option<Seq<char>>,
    home: Option<Seq<char>>,
    os: Seq<char>,
) -> Seq<char> {
    match env_value {
        Some(v) => v,
        None => match home {
            None => seq![],
            Some(h) => if os == "macos"@ {
                join(join(join(h, "Library"@), "Preferences"@), "lifeblood"@)
            } else {
                join(h, "lifeblood"@)
            },
        },
    }
}

/// The default configuration root: the variable's value whenever it is set;
/// without it, the same directory `lifeblood` directly below the home
/// directory on Windows and on Linux, and `Library/Preferences/lifeblood`
/// below it on macOS; nothing without a home directory.
pub proof fn law_default_location(v: Seq<char>, home: Option<Seq<char>>, os: Seq<char>, h: Seq<char>)
    ensures
        default_location(Some(v), home, os) == v,
        default_location(None, None, os) == Seq::<char>::empty(),
        default_location(None, Some(h), "windows"@) == default_location(None, Some(h), "linux"@),
        default_location(None, Some(h), "linux"@) == join(h, "lifeblood"@),
        default_location(None, Some(h), "macos"@) == join(
            join(join(h, "Library"@), "Preferences"@),
            "lifeblood"@,
        ),
{
    reveal_strlit("windows");
    reveal_strlit("linux");
    reveal_strlit("macos");
    assert("windows"@ != "macos"@) by {
        assert("windows"@[0] != "macos"@[0]);
    }
    assert("linux"@ != "macos"@) by {
        assert("linux"@[0] != "macos"@[0]);
    }
}

impl ConfigDataCollection {
    pub closed spec fn spec_location(&self) -> Seq<char> {
        self.config_location@
    }

    /// The default configuration root, from the value of the
    /// `LIFEBLOOD_CONFIG_LOCATION` variable, the home directory and the system name.
    pub fn default_config_location(env_value: Option<String>, home: Option<String>, os: &str) -> (r:
        String)
        requires
            env_value is None && home is Some ==> is_known_os(os@),
        ensures
            r@ == default_location(crate::text::opt_view(env_value), crate::text::opt_view(home), os@),
    {
        match env_value {
            Some(v) => v,
            None => match home {
                None => String::new(),
                Some(h) => {
                    let o = to_chars(os);
                    let mac = to_chars("macos");
                    if chars_equal(&o, &mac) {
                        let a = join_path(h.as_str(), "Library");
                        let b = join_path(a.as_str(), "Preferences");
                        join_path(b.as_str(), "lifeblood")
                    } else {
                        join_path(h.as_str(), "lifeblood")
                    }
                },
            },
        }
    }

    pub fn new(config_location: &str) -> (r: ConfigDataCollection)
        ensures
            r.spec_location() == config_location@,
    {
        ConfigDataCollection { config_location: config_location.to_owned() }
    }

    pub fn change_location(&mut self, new_location: &str)
        ensures
            final(self).spec_location() == new_location@,
    {
        self.config_location = new_location.to_owned();
    }

    /// The directory of configuration `config_name`.
    pub fn config_dir(&self, config_name: &str) -> (r: String)
        ensures
            r@ == join(self.spec_location(), config_name@),
    {
        join_path(self.config_location.as_str(), config_name)
    }

    /// Configuration `config_name`: the configuration named `config` in its
    /// directory, with the `.toml` files among the entries `d_entries` found
    /// in `config.d` as its parts.
    pub fn get_config_data(&self, config_name: &str, d_entries: Vec<String>) -> (r: ConfigData)
        ensures
            r.spec_name() == "config"@,
            r.spec_main() == with_extension(
                join(join(self.spec_location(), config_name@), "config"@),
                "toml"@,
            ),
            texts_sorted(r.spec_additional()),
            r.spec_additional().to_multiset() == toml_entries(strings_view(d_entries@)).map_values(
                |e: Seq<char>|
                    join(
                        with_extension(join(join(self.spec_location(), config_name@), "config"@), "d"@),
                        e,
                    ),
            ).to_multiset(),
    {
        let dir = join_path(self.config_location.as_str(), config_name);
        ConfigData::load(dir.as_str(), "config", d_entries)
    }
}

} // verus!
