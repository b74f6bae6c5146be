//! The manager's own settings: where versions are installed and which
//! launches start automatically.
use crate::config_data::{parse_toml, toml_parse, TomlValue};
use crate::wizard_config::{table_get, table_lookup, text_of};
use crate::paths::{join, join_path};
use crate::text::{chars_equal, str_eq, strings_view, to_chars};
use vstd::prelude::*;

verus! {

/// A value of an extra setting.
#[derive(Debug)]
pub enum ExtraFieldValue {
    String(String),
    Int(i64),
    StringList(Vec<String>),
}

/// The content of the settings file.
#[derive(Debug)]
pub struct MainWidgetConfigData {
    pub base_install_dir: String,
    /// Launch ids to start automatically (a set: order does not matter).
    pub launch_ids_to_autostart: Vec<String>,
    pub extra_fields: Vec<(String, ExtraFieldValue)>,
}

/// Why the settings file could not be loaded, with the system's message.
#[derive(Debug)]
pub enum ConfigReadError {
    /// There is no settings file.
    NotFound(String),
    /// The file is not a valid settings file.
    InvalidData(String),
    /// Any other failure.
    Other(String),
}

/// The manager's settings and the file they are kept in.
pub struct MainWidgetConfig {
    config_path: String,
    config_data: MainWidgetConfigData,
}

/// The settings file kept in a base directory.
pub open spec fn settings_path(base_dir: Seq<char>) -> Seq<char> {
    join(base_dir, "lifeblood-manager.config"@)
}

impl MainWidgetConfig {
    pub closed spec fn spec_path(&self) -> Seq<char> {
        self.config_path@
    }

    pub closed spec fn spec_base_install(&self) -> Seq<char> {
        self.config_data.base_install_dir@
    }

    /// The launch ids to start automatically.
    pub closed spec fn spec_ids(&self) -> Set<Seq<char>> {
        strings_view(self.config_data.launch_ids_to_autostart@).to_set()
    }

    /// The extra settings, by name, in their order.
    pub closed spec fn spec_extra(&self) -> Seq<(String, ExtraFieldValue)> {
        self.config_data.extra_fields@
    }

    /// New settings for `base_dir`, ignoring any settings file there: installs
    /// go to `base_dir`, nothing starts automatically.
    pub fn new(base_dir: &str) -> (r: MainWidgetConfig)
        ensures
            r.spec_path() == settings_path(base_dir@),
            r.spec_base_install() == base_dir@,
            r.spec_ids() == Set::<Seq<char>>::empty(),
            r.spec_extra().len() == 0,
    {
        let r = MainWidgetConfig {
            config_path: join_path(base_dir, "lifeblood-manager.config"),
            config_data: MainWidgetConfigData {
                base_install_dir: base_dir.to_owned(),
                launch_ids_to_autostart: Vec::new(),
                extra_fields: Vec::new(),
            },
        };
        assert(r.spec_ids() =~= Set::<Seq<char>>::empty());
        r
    }

    /// The settings of `base_dir`, given what reading its settings file gave:
    /// the file's content, or fresh settings when the file is missing and
    /// `empty_new_if_not_exists`, or when it is broken and `overwrite_if_broken`;
    /// any other failure is passed on.
    pub fn new_from_file(
        base_dir: &str,
        empty_new_if_not_exists: bool,
        overwrite_if_broken: bool,
        loaded: Result<MainWidgetConfigData, ConfigReadError>,
    ) -> (r: Result<MainWidgetConfig, ConfigReadError>)
        ensures
            match loaded {
                Ok(d) => r matches Ok(c) && c.spec_path() == settings_path(base_dir@)
                    && c.spec_base_install() == d.base_install_dir@ && c.spec_ids()
                    == strings_view(d.launch_ids_to_autostart@).to_set() && c.spec_extra()
                    == d.extra_fields@,
                Err(ConfigReadError::InvalidData(m)) => if overwrite_if_broken {
                    r matches Ok(c) && c.spec_path() == settings_path(base_dir@)
                        && c.spec_base_install() == base_dir@ && c.spec_ids() == Set::<
                        Seq<char>,
                    >::empty() && c.spec_extra().len() == 0
                } else {
                    r matches Err(ConfigReadError::InvalidData(m2)) && m2@ == m@
                },
                Err(ConfigReadError::NotFound(m)) => if empty_new_if_not_exists {
                    r matches Ok(c) && c.spec_path() == settings_path(base_dir@)
                        && c.spec_base_install() == base_dir@ && c.spec_ids() == Set::<
                        Seq<char>,
                    >::empty() && c.spec_extra().len() == 0
                } else {
                    r matches Err(ConfigReadError::NotFound(m2)) && m2@ == m@
                },
                Err(ConfigReadError::Other(m)) => r matches Err(ConfigReadError::Other(m2)) && m2@
                    == m@,
            },
    {
        let mut config = Self::new(base_dir);
        match loaded {
            Ok(d) => {
                config.config_data = d;
                Ok(config)
            },
            Err(ConfigReadError::InvalidData(m)) => {
                if overwrite_if_broken {
                    Ok(config)
                } else {
                    Err(ConfigReadError::InvalidData(m))
                }
            },
            Err(ConfigReadError::NotFound(m)) => {
                if empty_new_if_not_exists {
                    Ok(config)
                } else {
                    Err(ConfigReadError::NotFound(m))
                }
            },
            Err(e) => Err(e),
        }
    }

    /// Take the content read back from the settings file, or keep the
    /// settings and pass the failure on.
    pub fn reload_from_file(&mut self, loaded: Result<MainWidgetConfigData, ConfigReadError>) -> (r:
        Result<(), ConfigReadError>)
        ensures
            final(self).spec_path() == old(self).spec_path(),
            match loaded {
                Ok(d) => r is Ok && final(self).spec_base_install() == d.base_install_dir@
                    && final(self).spec_ids() == strings_view(d.launch_ids_to_autostart@).to_set()
                    && final(self).spec_extra() == d.extra_fields@,
                Err(_) => r is Err && final(self).spec_base_install()
                    == old(self).spec_base_install() && final(self).spec_ids()
                    == old(self).spec_ids() && final(self).spec_extra()
                    == old(self).spec_extra(),
            },
    {
        match loaded {
            Ok(d) => {
                self.config_data = d;
                Ok(())
            },
            Err(e) => Err(e),
        }
    }

    /// Where the settings are kept.
    pub fn config_path(&self) -> (r: &str)
        ensures
            r@ == self.spec_path(),
    {
        self.config_path.as_str()
    }

    /// The settings, as written to the file.
    pub fn config_data(&self) -> (r: &MainWidgetConfigData)
        ensures
            r.base_install_dir@ == self.spec_base_install(),
            strings_view(r.launch_ids_to_autostart@).to_set() == self.spec_ids(),
            r.extra_fields@ == self.spec_extra(),
    {
        &self.config_data
    }

    /// The launch ids to start automatically (each once).
    pub fn launch_ids_to_autostart(&self) -> (r: &Vec<String>)
        ensures
            strings_view(r@).to_set() == self.spec_ids(),
    {
        &self.config_data.launch_ids_to_autostart
    }

    pub fn has_autostart_launch_id(&self, launch_id: &str) -> (r: bool)
        ensures
            r == self.spec_ids().contains(launch_id@),
    {
        let id = to_chars(launch_id);
        let ids = &self.config_data.launch_ids_to_autostart;
        let mut i: usize = 0;
        while i < ids.len()
            invariant
                i <= ids@.len(),
                *ids == self.config_data.launch_ids_to_autostart,
                id@ == launch_id@,
                forall|j: int| 0 <= j < i ==> ids@[j]@ != launch_id@,
            decreases ids@.len() - i,
        {
            let c = to_chars(ids[i].as_str());
            if chars_equal(&c, &id) {
                assert(strings_view(ids@)[i as int] == launch_id@);
                assert(strings_view(ids@).contains(launch_id@));
                return true;
            }
            i = i + 1;
        }
        assert(!strings_view(ids@).contains(launch_id@)) by {
            assert forall|j: int| 0 <= j < strings_view(ids@).len() implies strings_view(
                ids@,
            )[j] != launch_id@ by {
                assert(strings_view(ids@)[j] == ids@[j]@);
            }
        }
        false
    }

    pub fn add_autostart_launch_id(&mut self, launch_id: &str)
        ensures
            final(self).spec_ids() == old(self).spec_ids().insert(launch_id@),
            final(self).spec_path() == old(self).spec_path(),
            final(self).spec_base_install() == old(self).spec_base_install(),
            final(self).spec_extra() == old(self).spec_extra(),
    {
        if !self.has_autostart_launch_id(launch_id) {
            let ghost before = strings_view(self.config_data.launch_ids_to_autostart@);
            self.config_data.launch_ids_to_autostart.push(launch_id.to_owned());
            let ghost after = strings_view(self.config_data.launch_ids_to_autostart@);
            assert(after =~= before.push(launch_id@));
            proof {
                broadcast use vstd::seq_lib::lemma_seq_contains_after_push;

                assert(after.to_set() =~= before.to_set().insert(launch_id@));
            }
        } else {
            assert(old(self).spec_ids().insert(launch_id@) =~= old(self).spec_ids());
        }
    }

    pub fn remove_autostart_launch_id(&mut self, launch_id: &str)
        ensures
            final(self).spec_ids() == old(self).spec_ids().remove(launch_id@),
            final(self).spec_path() == old(self).spec_path(),
            final(self).spec_base_install() == old(self).spec_base_install(),
            final(self).spec_extra() == old(self).spec_extra(),
    {
        let id = to_chars(launch_id);
        let mut kept: Vec<String> = Vec::new();
        let mut old_ids: Vec<String> = Vec::new();
        std::mem::swap(&mut old_ids, &mut self.config_data.launch_ids_to_autostart);
        let ghost src = strings_view(old_ids@);
        assert(src.to_set() == old(self).spec_ids());
        let mut i: usize = 0;
        while i < old_ids.len()
            invariant
                i <= old_ids@.len(),
                src == strings_view(old_ids@),
                id@ == launch_id@,
                forall|x: Seq<char>|
                    strings_view(kept@).contains(x) <==> (src.take(i as int).contains(x) && x
                        != launch_id@),
            decreases old_ids@.len() - i,
        {
            let c = to_chars(old_ids[i].as_str());
            let ghost k0 = strings_view(kept@);
            if !chars_equal(&c, &id) {
                kept.push(old_ids[i].clone());
                assert(strings_view(kept@) =~= k0.push(old_ids@[i as int]@));
            } else {
                assert(strings_view(kept@) =~= k0);
            }
            assert(src.take(i as int + 1) =~= src.take(i as int).push(src[i as int]));
            proof {
                broadcast use vstd::seq_lib::lemma_seq_contains_after_push;

            }
            i = i + 1;
        }
        assert(src.take(src.len() as int) =~= src);
        self.config_data.launch_ids_to_autostart = kept;
        assert(self.spec_ids() =~= old(self).spec_ids().remove(launch_id@));
    }

    /// Where versions are installed.
    pub fn base_install_path(&self) -> (r: &str)
        ensures
            r@ == self.spec_base_install(),
    {
        self.config_data.base_install_dir.as_str()
    }

    pub fn set_base_install_path(&mut self, path: &str)
        ensures
            final(self).spec_base_install() == path@,
            final(self).spec_path() == old(self).spec_path(),
            final(self).spec_ids() == old(self).spec_ids(),
            final(self).spec_extra() == old(self).spec_extra(),
    {
        self.config_data.base_install_dir = path.to_owned();
    }
}

/// Starting a launch automatically and then asking whether it starts
/// automatically answers yes; after removing it, no; adding twice is adding
/// once; and neither touches the other launches.
pub proof fn law_autostart_set(ids: Set<Seq<char>>, id: Seq<char>, other: Seq<char>)
    requires
        other != id,
    ensures
        ids.insert(id).contains(id),
        !ids.remove(id).contains(id),
        ids.insert(id).insert(id) == ids.insert(id),
        ids.insert(id).contains(other) == ids.contains(other),
        ids.remove(id).contains(other) == ids.contains(other),
        ids.insert(id).remove(id) == ids.remove(id),
{
    assert(ids.insert(id).insert(id) =~= ids.insert(id));
    assert(ids.insert(id).remove(id) =~= ids.remove(id));
}

/// All items of an array are strings.
pub open spec fn all_strings(a: Seq<TomlValue>) -> bool {
    forall|i: int| 0 <= i < a.len() ==> (#[trigger] a[i]) is String
}

/// An extra setting as TOML writes the enum: a table of one entry whose key
/// names the kind (`String`, `Int` or `StringList`) and whose value has that kind.
pub open spec fn extra_value_ok(v: TomlValue) -> bool {
    match v {
        TomlValue::Table(t) => t@.len() == 1 && {
            let (k, x) = t@[0];
            ||| k@ == "String"@ && x is String
            ||| k@ == "Int"@ && x is Integer
            ||| k@ == "StringList"@ && (x matches TomlValue::Array(a) && all_strings(a@))
        },
        _ => false,
    }
}

/// `x` is the extra setting that `v` describes.
pub open spec fn extra_value_read(x: ExtraFieldValue, v: TomlValue) -> bool {
    match (x, v->Table_0@[0].1) {
        (ExtraFieldValue::String(s), TomlValue::String(t)) => s@ == t@,
        (ExtraFieldValue::Int(i), TomlValue::Integer(j)) => i == j,
        (ExtraFieldValue::StringList(l), TomlValue::Array(a)) => strings_view(l@) == a@.map_values(
            |y: TomlValue| text_of(y),
        ),
        _ => false,
    }
}

pub open spec fn all_extra_ok(e: Seq<(String, TomlValue)>) -> bool {
    forall|i: int| 0 <= i < e.len() ==> extra_value_ok((#[trigger] e[i]).1)
}

/// A settings document has the three fields of the settings, with their types.
pub open spec fn settings_doc_ok(doc: TomlValue) -> bool {
    match doc {
        TomlValue::Table(t) => {
            &&& table_get(t@, "base_install_dir"@) matches Some(TomlValue::String(_))
            &&& table_get(t@, "launch_ids_to_autostart"@) matches Some(TomlValue::Array(a))
                && all_strings(a@)
            &&& table_get(t@, "extra_fields"@) matches Some(TomlValue::Table(e)) && all_extra_ok(e@)
        },
        _ => false,
    }
}

/// `d` holds what the settings document `doc` says.
pub open spec fn settings_read(d: MainWidgetConfigData, doc: TomlValue) -> bool {
    let t = doc->Table_0@;
    let a = table_get(t, "launch_ids_to_autostart"@)->0->Array_0@;
    let e = table_get(t, "extra_fields"@)->0->Table_0@;
    &&& d.base_install_dir@ == text_of(table_get(t, "base_install_dir"@)->0)
    &&& strings_view(d.launch_ids_to_autostart@) == a.map_values(|y: TomlValue| text_of(y))
    &&& d.extra_fields@.len() == e.len()
    &&& forall|i: int|
        0 <= i < e.len() ==> (#[trigger] d.extra_fields@[i]).0@ == e[i].0@ && extra_value_read(
            d.extra_fields@[i].1,
            e[i].1,
        )
}

/// The message of a settings document without the expected fields.
pub open spec fn settings_schema_message() -> Seq<char> {
    "settings file does not have the expected fields"@
}

fn string_list_from(a: &Vec<TomlValue>) -> (r: Vec<String>)
    requires
        all_strings(a@),
    ensures
        strings_view(r@) == a@.map_values(|y: TomlValue| text_of(y)),
{
    let mut r: Vec<String> = Vec::new();
    let mut i: usize = 0;
    while i < a.len()
        invariant
            i <= a@.len(),
            all_strings(a@),
            strings_view(r@) == a@.take(i as int).map_values(|y: TomlValue| text_of(y)),
        decreases a@.len() - i,
    {
        let ghost before = r@;
        match &a[i] {
            TomlValue::String(s) => {
                r.push(s.clone());
            },
            _ => {
                assert(a@[i as int] is String);
            },
        }
        assert(strings_view(r@) =~= strings_view(before).push(text_of(a@[i as int])));
        assert(a@.take(i as int + 1).map_values(|y: TomlValue| text_of(y)) =~= a@.take(
            i as int,
        ).map_values(|y: TomlValue| text_of(y)).push(text_of(a@[i as int])));
        i = i + 1;
    }
    assert(a@.take(a@.len() as int) =~= a@);
    r
}

fn extra_value_from(v: &TomlValue) -> (r: Option<ExtraFieldValue>)
    ensures
        r is Some <==> extra_value_ok(*v),
        r matches Some(x) ==> extra_value_read(x, *v),
{
    let t = match v {
        TomlValue::Table(t) => t,
        _ => {
            return None;
        },
    };
    if t.len() != 1 {
        return None;
    }
    let k = t[0].0.as_str();
    match &t[0].1 {
        TomlValue::String(s) => {
            if str_eq(k, "String") {
                Some(ExtraFieldValue::String(s.clone()))
            } else {
                None
            }
        },
        TomlValue::Integer(i) => {
            if str_eq(k, "Int") {
                Some(ExtraFieldValue::Int(*i))
            } else {
                None
            }
        },
        TomlValue::Array(a) => {
            if !str_eq(k, "StringList") {
                return None;
            }
            let mut ok = true;
            let mut i: usize = 0;
            while i < a.len()
                invariant
                    i <= a@.len(),
                    ok <==> forall|j: int| 0 <= j < i ==> (#[trigger] a@[j]) is String,
                decreases a@.len() - i,
            {
                match &a[i] {
                    TomlValue::String(_) => {},
                    _ => {
                        ok = false;
                    },
                }
                i = i + 1;
            }
            if ok {
                Some(ExtraFieldValue::StringList(string_list_from(a)))
            } else {
                None
            }
        },
        _ => None,
    }
}

impl MainWidgetConfigData {
    /// Read the settings document `doc`: `None` when a field is missing or
    /// does not have its type (other keys are ignored).
    pub fn from_toml(doc: &TomlValue) -> (r: Option<MainWidgetConfigData>)
        ensures
            r is Some <==> settings_doc_ok(*doc),
            r matches Some(d) ==> settings_read(d, *doc),
    {
        let t = match doc {
            TomlValue::Table(t) => t,
            _ => {
                return None;
            },
        };
        let base = match table_lookup(t, "base_install_dir") {
            Some(i) => match &t[i].1 {
                TomlValue::String(s) => s.clone(),
                _ => {
                    return None;
                },
            },
            None => {
                return None;
            },
        };
        let ids = match table_lookup(t, "launch_ids_to_autostart") {
            Some(i) => match &t[i].1 {
                TomlValue::Array(a) => {
                    let mut ok = true;
                    let mut j: usize = 0;
                    while j < a.len()
                        invariant
                            j <= a@.len(),
                            ok <==> forall|m: int| 0 <= m < j ==> (#[trigger] a@[m]) is String,
                        decreases a@.len() - j,
                    {
                        match &a[j] {
                            TomlValue::String(_) => {},
                            _ => {
                                ok = false;
                            },
                        }
                        j = j + 1;
                    }
                    if !ok {
                        return None;
                    }
                    string_list_from(a)
                },
                _ => {
                    return None;
                },
            },
            None => {
                return None;
            },
        };
        let ei = match table_lookup(t, "extra_fields") {
            Some(i) => i,
            None => {
                return None;
            },
        };
        let e = match &t[ei].1 {
            TomlValue::Table(e) => e,
            _ => {
                return None;
            },
        };
        let mut extra: Vec<(String, ExtraFieldValue)> = Vec::new();
        let mut j: usize = 0;
        while j < e.len()
            invariant
                j <= e@.len(),
                *doc == TomlValue::Table(*t),
                ei < t@.len(),
                t@[ei as int].1 == TomlValue::Table(*e),
                table_get(t@, "extra_fields"@) == Some(t@[ei as int].1),
                extra@.len() == j,
                forall|m: int| 0 <= m < j ==> extra_value_ok((#[trigger] e@[m]).1),
                forall|m: int|
                    0 <= m < j ==> (#[trigger] extra@[m]).0@ == e@[m].0@ && extra_value_read(
                        extra@[m].1,
                        e@[m].1,
                    ),
            decreases e@.len() - j,
        {
            match extra_value_from(&e[j].1) {
                Some(x) => {
                    extra.push((e[j].0.clone(), x));
                },
                None => {
                    assert(!extra_value_ok(e@[j as int].1));
                    return None;
                },
            }
            j = j + 1;
        }
        Some(MainWidgetConfigData { base_install_dir: base, launch_ids_to_autostart: ids, extra_fields: extra })
    }

    /// The settings in the text of a settings file, or why there are none:
    /// a failure to read is passed on; a text that is not TOML, or not a
    /// settings document, is invalid data.
    pub fn from_settings_text(read: Result<String, ConfigReadError>) -> (r: Result<
        MainWidgetConfigData,
        ConfigReadError,
    >)
        ensures
            match read {
                Err(e) => r == Err::<MainWidgetConfigData, ConfigReadError>(e),
                Ok(text) => match toml_parse(text@) {
                    Err((m, _)) => r matches Err(ConfigReadError::InvalidData(rm)) && rm@ == m,
                    Ok(doc) => if settings_doc_ok(doc) {
                        r matches Ok(d) && settings_read(d, doc)
                    } else {
                        r matches Err(ConfigReadError::InvalidData(rm)) && rm@
                            == settings_schema_message()
                    },
                },
            },
    {
        match read {
            Err(e) => Err(e),
            Ok(text) => {
                let parsed = parse_toml(text.as_str());
                match parsed {
                    Err((m, _)) => Err(ConfigReadError::InvalidData(m)),
                    Ok(doc) => match Self::from_toml(&doc) {
                        Some(d) => Ok(d),
                        None => Err(
                            ConfigReadError::InvalidData(
                                "settings file does not have the expected fields".to_owned(),
                            ),
                        ),
                    },
                }
            },
        }
    }
}

} // verus!
