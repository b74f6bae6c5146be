//! Launch options: the command-line arguments that one user-facing option
//! contributes to a launched Lifeblood component.
use crate::text::{i64_to_decimal, opt_view, signed_decimal, strings_view};
use vstd::prelude::*;

verus! {

/// What an option holds: free text, an integer, a menu of `(key, label)` pairs
/// with the index of the selected entry, or nothing (a bare flag).
pub enum LaunchControlDataOptionValueStorage {
    RawString(String),
    Int(i64),
    Enum((Vec<(String, String)>, usize)),
    Nothing,
}

/// A new value for an option; it must be of the kind the option already holds.
pub enum LaunchControlDataOptionValue {
    String(String),
    Int(i64),
    Enum(usize),
}

/// The argument that a stored value contributes, if any.
pub open spec fn value_args(s: LaunchControlDataOptionValueStorage) -> Seq<Seq<char>> {
    match s {
        LaunchControlDataOptionValueStorage::RawString(t) => seq![t@],
        LaunchControlDataOptionValueStorage::Int(i) => seq![signed_decimal(i as int)],
        LaunchControlDataOptionValueStorage::Enum((menu, i)) => seq![menu@[i as int].0@],
        LaunchControlDataOptionValueStorage::Nothing => seq![],
    }
}

/// The arguments of an option: its flag when it has one, then its value.
pub open spec fn option_args(
    flag: Option<String>,
    s: LaunchControlDataOptionValueStorage,
) -> Seq<Seq<char>> {
    match flag {
        Some(f) => seq![f@] + value_args(s),
        None => value_args(s),
    }
}

/// Whether a menu selection points into its menu (an argument can be built).
pub open spec fn storage_selection_ok(s: LaunchControlDataOptionValueStorage) -> bool {
    match s {
        LaunchControlDataOptionValueStorage::Enum((menu, i)) => i < menu@.len(),
        _ => true,
    }
}

/// Whether a new value is of the kind that the option holds.
pub open spec fn same_kind(
    s: LaunchControlDataOptionValueStorage,
    v: LaunchControlDataOptionValue,
) -> bool {
    match (s, v) {
        (
            LaunchControlDataOptionValueStorage::RawString(_),
            LaunchControlDataOptionValue::String(_),
        ) => true,
        (LaunchControlDataOptionValueStorage::Int(_), LaunchControlDataOptionValue::Int(_)) => true,
        (LaunchControlDataOptionValueStorage::Enum(_), LaunchControlDataOptionValue::Enum(_)) => true,
        _ => false,
    }
}

/// The stored value after a new value of the same kind is set.
pub open spec fn stored_after(
    s: LaunchControlDataOptionValueStorage,
    v: LaunchControlDataOptionValue,
) -> LaunchControlDataOptionValueStorage {
    match (s, v) {
        (LaunchControlDataOptionValueStorage::Enum((menu, _)), LaunchControlDataOptionValue::Enum(i)) => {
            LaunchControlDataOptionValueStorage::Enum((menu, i))
        },
        (_, LaunchControlDataOptionValue::Int(i)) => LaunchControlDataOptionValueStorage::Int(i),
        (_, LaunchControlDataOptionValue::String(t)) => LaunchControlDataOptionValueStorage::RawString(
            t,
        ),
        (_, LaunchControlDataOptionValue::Enum(i)) => s,
    }
}

impl LaunchControlDataOptionValueStorage {
    /// A menu of `(key, label)` pairs with its first entry selected.
    pub fn new_enum(kvp: Vec<(&str, &str)>) -> (r: LaunchControlDataOptionValueStorage)
        ensures
            match r {
                LaunchControlDataOptionValueStorage::Enum((menu, i)) => {
                    &&& i == 0
                    &&& menu@.len() == kvp@.len()
                    &&& forall|j: int|
                        0 <= j < kvp@.len() ==> (#[trigger] menu@[j]).0@ == kvp@[j].0@ && menu@[j].1@
                            == kvp@[j].1@
                },
                _ => false,
            },
    {
        let mut menu: Vec<(String, String)> = Vec::new();
        let mut i: usize = 0;
        while i < kvp.len()
            invariant
                i <= kvp@.len(),
                menu@.len() == i,
                forall|j: int|
                    0 <= j < i ==> (#[trigger] menu@[j]).0@ == kvp@[j].0@ && menu@[j].1@
                        == kvp@[j].1@,
            decreases kvp@.len() - i,
        {
            let (k, v) = kvp[i];
            menu.push((k.to_owned(), v.to_owned()));
            i = i + 1;
        }
        LaunchControlDataOptionValueStorage::Enum((menu, 0))
    }

    pub fn new_string(value: &str) -> (r: LaunchControlDataOptionValueStorage)
        ensures
            r matches LaunchControlDataOptionValueStorage::RawString(s) && s@ == value@,
    {
        LaunchControlDataOptionValueStorage::RawString(value.to_owned())
    }

    pub fn new_int(value: i64) -> (r: LaunchControlDataOptionValueStorage)
        ensures
            r == LaunchControlDataOptionValueStorage::Int(value),
    {
        LaunchControlDataOptionValueStorage::Int(value)
    }
}

/// One user-facing launch option: a label, a value, and an optional flag put
/// in front of the value on the command line.
pub struct LaunchControlDataOption {
    name: String,
    storage: LaunchControlDataOptionValueStorage,
    flag: Option<String>,
    args_cache: Option<Vec<String>>,
}

fn storage_args(s: &LaunchControlDataOptionValueStorage, out: &mut Vec<String>)
    requires
        storage_selection_ok(*s),
    ensures
        strings_view(final(out)@) == strings_view(old(out)@) + value_args(*s),
{
    let ghost before = out@;
    match s {
        LaunchControlDataOptionValueStorage::RawString(t) => {
            out.push(t.clone());
            assert(strings_view(out@) =~= strings_view(before) + value_args(*s));
        },
        LaunchControlDataOptionValueStorage::Int(i) => {
            out.push(i64_to_decimal(*i));
            assert(strings_view(out@) =~= strings_view(before) + value_args(*s));
        },
        LaunchControlDataOptionValueStorage::Enum((menu, i)) => {
            out.push(menu[*i].0.clone());
            assert(strings_view(out@) =~= strings_view(before) + value_args(*s));
        },
        LaunchControlDataOptionValueStorage::Nothing => {
            assert(strings_view(out@) =~= strings_view(before) + value_args(*s));
        },
    }
}

impl LaunchControlDataOption {
    /// The option's cached arguments, when present, are its current arguments.
    pub closed spec fn wf(&self) -> bool {
        match self.args_cache {
            Some(c) => strings_view(c@) == option_args(self.flag, self.storage),
            None => true,
        }
    }

    pub closed spec fn spec_label(&self) -> Seq<char> {
        self.name@
    }

    pub closed spec fn spec_storage(&self) -> LaunchControlDataOptionValueStorage {
        self.storage
    }

    pub closed spec fn spec_flag(&self) -> Option<String> {
        self.flag
    }

    /// The arguments this option puts on the command line.
    pub open spec fn spec_args(&self) -> Seq<Seq<char>> {
        option_args(self.spec_flag(), self.spec_storage())
    }

    pub fn new(
        name: &str,
        option_value: LaunchControlDataOptionValueStorage,
        flag: Option<&str>,
    ) -> (r: LaunchControlDataOption)
        ensures
            r.wf(),
            r.spec_label() == name@,
            r.spec_storage() == option_value,
            match (flag, r.spec_flag()) {
                (Some(a), Some(b)) => a@ == b@,
                (None, None) => true,
                _ => false,
            },
    {
        LaunchControlDataOption {
            name: name.to_owned(),
            storage: option_value,
            flag: match flag {
                Some(x) => Some(x.to_owned()),
                None => None,
            },
            args_cache: None,
        }
    }

    pub fn label(&self) -> (r: &str)
        ensures
            r@ == self.spec_label(),
    {
        self.name.as_str()
    }

    pub fn value(&self) -> (r: &LaunchControlDataOptionValueStorage)
        ensures
            *r == self.spec_storage(),
    {
        &self.storage
    }

    /// Replace the value by one of the same kind; a menu keeps its entries.
    pub fn set_value(&mut self, new_value: LaunchControlDataOptionValue)
        requires
            same_kind(old(self).spec_storage(), new_value),
        ensures
            final(self).wf(),
            final(self).spec_storage() == stored_after(old(self).spec_storage(), new_value),
            final(self).spec_label() == old(self).spec_label(),
            final(self).spec_flag() == old(self).spec_flag(),
    {
        let mut tmp = LaunchControlDataOptionValueStorage::Nothing;
        std::mem::swap(&mut tmp, &mut self.storage);
        self.storage = match (tmp, new_value) {
            (LaunchControlDataOptionValueStorage::Enum((menu, _)), LaunchControlDataOptionValue::Enum(i)) => {
                LaunchControlDataOptionValueStorage::Enum((menu, i))
            },
            (_, LaunchControlDataOptionValue::Int(i)) => LaunchControlDataOptionValueStorage::Int(i),
            (_, LaunchControlDataOptionValue::String(s)) => LaunchControlDataOptionValueStorage::RawString(
                s,
            ),
            (other, LaunchControlDataOptionValue::Enum(_)) => other,
        };
        self.args_cache = None;
    }

    /// The arguments of this option, computed afresh.
    pub fn compute_args(&self) -> (r: Vec<String>)
        requires
            storage_selection_ok(self.spec_storage()),
        ensures
            strings_view(r@) == self.spec_args(),
    {
        let mut args: Vec<String> = Vec::new();
        let ghost before = args@;
        match &self.flag {
            Some(f) => {
                args.push(f.clone());
            },
            None => {},
        }
        storage_args(&self.storage, &mut args);
        assert(strings_view(args@) =~= self.spec_args());
        args
    }

    /// The arguments of this option, kept until the value changes.
    pub fn get_args(&mut self) -> (r: &[String])
        requires
            old(self).wf(),
            storage_selection_ok(old(self).spec_storage()),
        ensures
            strings_view(r@) == old(self).spec_args(),
            final(self).wf(),
            final(self).spec_label() == old(self).spec_label(),
            final(self).spec_storage() == old(self).spec_storage(),
            final(self).spec_flag() == old(self).spec_flag(),
    {
        if self.args_cache.is_none() {
            let args = self.compute_args();
            self.args_cache = Some(args);
        }
        match &self.args_cache {
            Some(cache) => cache.as_slice(),
            None => {
                proof {
                    assert(false);
                }
                &[]
            },
        }
    }
}

/// The arguments of a launch: the fixed ones, then those of each option in turn.
pub open spec fn launch_args(
    args: Seq<Seq<char>>,
    options: Seq<LaunchControlDataOption>,
) -> Seq<Seq<char>>
    decreases options.len(),
{
    if options.len() == 0 {
        args
    } else {
        launch_args(args, options.drop_last()) + options.last().spec_args()
    }
}

/// The full argument list of a launch: fixed arguments followed by the
/// arguments of every option, in order.
pub fn full_launch_args(args: &Vec<String>, options: &Vec<LaunchControlDataOption>) -> (r: Vec<
    String,
>)
    requires
        forall|i: int|
            0 <= i < options@.len() ==> storage_selection_ok(#[trigger] options@[i].spec_storage()),
    ensures
        strings_view(r@) == launch_args(strings_view(args@), options@),
{
    let mut out: Vec<String> = args.clone();
    let mut i: usize = 0;
    assert(options@.take(0) =~= Seq::<LaunchControlDataOption>::empty());
    while i < options.len()
        invariant
            i <= options@.len(),
            forall|j: int|
                0 <= j < options@.len() ==> storage_selection_ok(
                    #[trigger] options@[j].spec_storage(),
                ),
            strings_view(out@) == launch_args(strings_view(args@), options@.take(i as int)),
        decreases options@.len() - i,
    {
        let extra = options[i].compute_args();
        let mut k: usize = 0;
        let ghost base = out@;
        while k < extra.len()
            invariant
                k <= extra@.len(),
                strings_view(out@) == strings_view(base) + strings_view(extra@).take(k as int),
            decreases extra@.len() - k,
        {
            let ghost old_out = out@;
            out.push(extra[k].clone());
            assert(strings_view(out@) =~= strings_view(old_out).push(extra@[k as int]@));
            assert(strings_view(extra@).take(k as int + 1) =~= strings_view(extra@).take(
                k as int,
            ).push(extra@[k as int]@));
            assert(strings_view(out@) =~= strings_view(base) + strings_view(extra@).take(
                k as int + 1,
            ));
            k = k + 1;
        }
        assert(strings_view(extra@).take(extra@.len() as int) =~= strings_view(extra@));
        assert(options@.take(i as int + 1).drop_last() =~= options@.take(i as int));
        assert(options@.take(i as int + 1).last() == options@[i as int]);
        i = i + 1;
    }
    assert(options@.take(options@.len() as int) =~= options@);
    out
}

/// Why a launch could not go on.
#[derive(Clone, Copy, Debug, PartialEq, Eq, Structural)]
pub enum LaunchError {
    /// No installation is chosen, so there is nothing to run.
    InstallationNotSet,
    /// No process of this launch is running.
    NotStarted,
}

impl LaunchError {
    /// The message of the error.
    pub fn message(&self) -> (r: String)
        ensures
            r@ == match self {
                LaunchError::InstallationNotSet => "installation data is not set"@,
                LaunchError::NotStarted => "not started"@,
            },
    {
        match self {
            LaunchError::InstallationNotSet => "installation data is not set".to_owned(),
            LaunchError::NotStarted => "not started".to_owned(),
        }
    }
}

/// A launch: a command of the current installation with its fixed arguments
/// and options, the process it runs, and how the last run ended.
pub struct LaunchControlData {
    id: String,
    command_label: String,
    description: String,
    command: String,
    args: Vec<String>,
    args_options: Vec<LaunchControlDataOption>,
    installation_base: Option<String>,
    process: Option<u32>,
    last_run_exit_code: Option<i32>,
}

/// What to run: the installation's directory, the command and its arguments.
#[derive(Debug)]
pub struct LaunchRequest {
    pub base_path: String,
    pub command: String,
    pub args: Vec<String>,
}

impl LaunchControlData {
    pub closed spec fn spec_id(&self) -> Seq<char> {
        self.id@
    }

    pub closed spec fn spec_command_label(&self) -> Seq<char> {
        self.command_label@
    }

    pub closed spec fn spec_description(&self) -> Seq<char> {
        self.description@
    }

    pub closed spec fn spec_command(&self) -> Seq<char> {
        self.command@
    }

    pub closed spec fn spec_args(&self) -> Seq<Seq<char>> {
        strings_view(self.args@)
    }

    pub closed spec fn spec_options(&self) -> Seq<LaunchControlDataOption> {
        self.args_options@
    }

    /// The directory of the current installation, where one is chosen.
    pub closed spec fn spec_installation(&self) -> Option<Seq<char>> {
        match self.installation_base {
            Some(b) => Some(b@),
            None => None,
        }
    }

    /// The process of this launch, while one runs.
    pub closed spec fn spec_process(&self) -> Option<u32> {
        self.process
    }

    pub closed spec fn spec_last_exit(&self) -> Option<i32> {
        self.last_run_exit_code
    }

    /// Everything but the options.
    pub open spec fn same_but_options(&self, other: &LaunchControlData) -> bool {
        &&& self.spec_id() == other.spec_id()
        &&& self.spec_command_label() == other.spec_command_label()
        &&& self.spec_description() == other.spec_description()
        &&& self.spec_command() == other.spec_command()
        &&& self.spec_args() == other.spec_args()
        &&& self.spec_installation() == other.spec_installation()
        &&& self.spec_process() == other.spec_process()
        &&& self.spec_last_exit() == other.spec_last_exit()
    }

    /// A launch `launch_id` (unique among launches) of `command` with `args`
    /// and options, in the installation at `installation_base` if one is chosen.
    pub fn new(
        launch_id: &str,
        installation_base: Option<&str>,
        command_label: &str,
        description: &str,
        command: &str,
        args: Vec<&str>,
        args_options: Option<Vec<LaunchControlDataOption>>,
    ) -> (r: LaunchControlData)
        ensures
            r.spec_id() == launch_id@,
            r.spec_installation() == match installation_base {
                Some(b) => Some(b@),
                None => None::<Seq<char>>,
            },
            r.spec_command_label() == command_label@,
            r.spec_description() == description@,
            r.spec_command() == command@,
            r.spec_args() == args@.map_values(|a: &str| a@),
            r.spec_options() == match args_options {
                Some(v) => v@,
                None => Seq::<LaunchControlDataOption>::empty(),
            },
            r.spec_process() is None,
            r.spec_last_exit() is None,
    {
        let mut owned: Vec<String> = Vec::new();
        let mut i: usize = 0;
        while i < args.len()
            invariant
                i <= args@.len(),
                strings_view(owned@) == args@.take(i as int).map_values(|a: &str| a@),
            decreases args@.len() - i,
        {
            let ghost before = owned@;
            owned.push(args[i].to_owned());
            assert(strings_view(owned@) =~= strings_view(before).push(args@[i as int]@));
            assert(args@.take(i as int + 1).map_values(|a: &str| a@) =~= args@.take(
                i as int,
            ).map_values(|a: &str| a@).push(args@[i as int]@));
            i = i + 1;
        }
        assert(args@.take(args@.len() as int) =~= args@);
        LaunchControlData {
            id: launch_id.to_owned(),
            command_label: command_label.to_owned(),
            description: description.to_owned(),
            command: command.to_owned(),
            args: owned,
            args_options: match args_options {
                Some(v) => v,
                None => Vec::new(),
            },
            installation_base: match installation_base {
                Some(b) => Some(b.to_owned()),
                None => None,
            },
            process: None,
            last_run_exit_code: None,
        }
    }

    pub fn args_options(&self) -> (r: &Vec<LaunchControlDataOption>)
        ensures
            r@ == self.spec_options(),
    {
        &self.args_options
    }

    /// Change an option; the rest of the launch stays as it is.
    pub fn set_option_value(&mut self, i: usize, value: LaunchControlDataOptionValue)
        requires
            i < old(self).spec_options().len(),
            same_kind(old(self).spec_options()[i as int].spec_storage(), value),
        ensures
            final(self).same_but_options(old(self)),
            final(self).spec_options().len() == old(self).spec_options().len(),
            forall|j: int|
                0 <= j < old(self).spec_options().len() && j != i ==> final(self).spec_options()[j]
                    == old(self).spec_options()[j],
            final(self).spec_options()[i as int].spec_label() == old(self).spec_options()[i as int].spec_label(),
            final(self).spec_options()[i as int].spec_flag() == old(self).spec_options()[i as int].spec_flag(),
            final(self).spec_options()[i as int].spec_storage() == stored_after(
                old(self).spec_options()[i as int].spec_storage(),
                value,
            ),
            final(self).spec_options()[i as int].wf(),
    {
        let mut opt = self.args_options.remove(i);
        opt.set_value(value);
        self.args_options.insert(i, opt);
    }

    /// The installation changed; the directory of the one before is given back.
    pub fn install_location_changed(&mut self, installation_base: Option<String>) -> (r: Option<String>)
        ensures
            opt_view(r) == old(self).spec_installation(),
            final(self).spec_installation() == opt_view(installation_base),
            final(self).spec_id() == old(self).spec_id(),
            final(self).spec_command_label() == old(self).spec_command_label(),
            final(self).spec_description() == old(self).spec_description(),
            final(self).spec_command() == old(self).spec_command(),
            final(self).spec_args() == old(self).spec_args(),
            final(self).spec_options() == old(self).spec_options(),
            final(self).spec_process() == old(self).spec_process(),
            final(self).spec_last_exit() == old(self).spec_last_exit(),
    {
        let prev = self.installation_base.take();
        self.installation_base = installation_base;
        prev
    }

    /// Whether every menu option has a selection inside its menu, so that the
    /// launch's arguments can be built.
    pub fn options_ready(&self) -> (r: bool)
        ensures
            r == forall|j: int|
                0 <= j < self.spec_options().len() ==> storage_selection_ok(
                    #[trigger] self.spec_options()[j].spec_storage(),
                ),
    {
        let mut i: usize = 0;
        while i < self.args_options.len()
            invariant
                i <= self.args_options@.len(),
                forall|j: int| 0 <= j < i ==> storage_selection_ok(#[trigger] self.args_options@[j].spec_storage()),
            decreases self.args_options@.len() - i,
        {
            let ok = match self.args_options[i].value() {
                LaunchControlDataOptionValueStorage::Enum((menu, k)) => *k < menu.len(),
                _ => true,
            };
            if !ok {
                assert(!storage_selection_ok(self.spec_options()[i as int].spec_storage()));
                return false;
            }
            i = i + 1;
        }
        assert forall|j: int| 0 <= j < self.spec_options().len() implies storage_selection_ok(
            #[trigger] self.spec_options()[j].spec_storage(),
        ) by {
            assert(self.spec_options()[j] == self.args_options@[j]);
        }
        true
    }

    /// What starting the launch runs: the command in the current installation
    /// with the fixed arguments and then those of each option.
    pub fn start_request(&self) -> (r: Result<LaunchRequest, LaunchError>)
        requires
            forall|j: int|
                0 <= j < self.spec_options().len() ==> storage_selection_ok(
                    #[trigger] self.spec_options()[j].spec_storage(),
                ),
        ensures
            match self.spec_installation() {
                None => r == Err::<LaunchRequest, LaunchError>(LaunchError::InstallationNotSet),
                Some(b) => r matches Ok(q) && q.base_path@ == b && q.command@ == self.spec_command()
                    && strings_view(q.args@) == launch_args(self.spec_args(), self.spec_options()),
            },
    {
        match &self.installation_base {
            None => Err(LaunchError::InstallationNotSet),
            Some(b) => {
                assert forall|i: int| 0 <= i < self.args_options@.len() implies storage_selection_ok(
                    #[trigger] self.args_options@[i].spec_storage(),
                ) by {
                    assert(self.spec_options()[i] == self.args_options@[i]);
                }
                let args = full_launch_args(&self.args, &self.args_options);
                Ok(LaunchRequest { base_path: b.clone(), command: self.command.clone(), args })
            },
        }
    }

    /// The launch's process started with id `pid`.
    pub fn process_started(&mut self, pid: u32)
        ensures
            final(self).spec_process() == Some(pid),
            final(self).spec_options() == old(self).spec_options(),
            final(self).spec_installation() == old(self).spec_installation(),
            final(self).spec_last_exit() == old(self).spec_last_exit(),
            final(self).spec_id() == old(self).spec_id(),
            final(self).spec_command() == old(self).spec_command(),
            final(self).spec_args() == old(self).spec_args(),
            final(self).spec_command_label() == old(self).spec_command_label(),
            final(self).spec_description() == old(self).spec_description(),
    {
        self.process = Some(pid);
    }

    pub fn is_process_running(&self) -> (r: bool)
        ensures
            r == self.spec_process() is Some,
    {
        self.process.is_some()
    }

    pub fn process_pid(&self) -> (r: Option<u32>)
        ensures
            r == self.spec_process(),
    {
        self.process
    }

    /// The process to wait for: an error when none runs.
    pub fn waited_process(&self) -> (r: Result<u32, LaunchError>)
        ensures
            match self.spec_process() {
                Some(p) => r == Ok::<u32, LaunchError>(p),
                None => r == Err::<u32, LaunchError>(LaunchError::NotStarted),
            },
    {
        match self.process {
            Some(p) => Ok(p),
            None => Err(LaunchError::NotStarted),
        }
    }

    /// The launch's process ended with exit code `code` (`None`: ended by a signal).
    pub fn process_exited(&mut self, code: Option<i32>)
        requires
            old(self).spec_process() is Some,
        ensures
            final(self).spec_process() is None,
            final(self).spec_last_exit() == code,
            final(self).spec_options() == old(self).spec_options(),
            final(self).spec_installation() == old(self).spec_installation(),
            final(self).spec_id() == old(self).spec_id(),
            final(self).spec_command() == old(self).spec_command(),
            final(self).spec_args() == old(self).spec_args(),
            final(self).spec_command_label() == old(self).spec_command_label(),
            final(self).spec_description() == old(self).spec_description(),
    {
        self.process = None;
        self.last_run_exit_code = code;
    }

    pub fn is_current_installation_set(&self) -> (r: bool)
        ensures
            r == self.spec_installation() is Some,
    {
        self.installation_base.is_some()
    }

    /// The directory of the current installation.
    pub fn current_installation(&self) -> (r: Option<&str>)
        ensures
            match r {
                Some(b) => self.spec_installation() == Some(b@),
                None => self.spec_installation() is None,
            },
    {
        match &self.installation_base {
            Some(b) => Some(b.as_str()),
            None => None,
        }
    }

    pub fn command(&self) -> (r: &str)
        ensures
            r@ == self.spec_command(),
    {
        self.command.as_str()
    }

    pub fn launch_id(&self) -> (r: &str)
        ensures
            r@ == self.spec_id(),
    {
        self.id.as_str()
    }

    pub fn command_label(&self) -> (r: &str)
        ensures
            r@ == self.spec_command_label(),
    {
        self.command_label.as_str()
    }

    pub fn description(&self) -> (r: &str)
        ensures
            r@ == self.spec_description(),
    {
        self.description.as_str()
    }

    pub fn last_run_exit_code(&self) -> (r: Option<i32>)
        ensures
            r == self.spec_last_exit(),
    {
        self.last_run_exit_code
    }
}

/// The log level option of the components: `--loglevel` with `INFO` or `DEBUG`.
fn log_level_option(label: &str, flag: &str) -> (r: LaunchControlDataOption)
    ensures
        r.wf(),
        r.spec_label() == label@,
        r.spec_flag() matches Some(f) && f@ == flag@,
        storage_selection_ok(r.spec_storage()),
        value_args(r.spec_storage()) == seq!["INFO"@],
{
    let menu = LaunchControlDataOptionValueStorage::new_enum(vec![("INFO", "info"), ("DEBUG", "debug")]);
    LaunchControlDataOption::new(label, menu, Some(flag))
}

/// An option that is only a word on the command line.
fn word_option(label: &str, word: &str) -> (r: LaunchControlDataOption)
    ensures
        r.wf(),
        r.spec_label() == label@,
        r.spec_args() == seq![word@],
        storage_selection_ok(r.spec_storage()),
{
    LaunchControlDataOption::new(label, LaunchControlDataOptionValueStorage::Nothing, Some(word))
}

/// The arguments a launch starts with before any option is changed.
pub open spec fn default_args(l: LaunchControlData) -> Seq<Seq<char>> {
    launch_args(l.spec_args(), l.spec_options())
}

/// The launches that the manager offers: the scheduler (run on one computer
/// only), the worker pool (run on every computer that works) and the viewer;
/// `unix` selects the launcher scripts of Unix or of Windows.
pub fn standard_launches(unix: bool) -> (r: Vec<LaunchControlData>)
    ensures
        r@.len() == 3,
        r@[0].spec_id() == "scheduler"@,
        r@[1].spec_id() == "worker pool"@,
        r@[2].spec_id() == "viewer"@,
        r@[0].spec_command() == (if unix { "./lifeblood"@ } else { "./lifeblood.cmd"@ }),
        r@[1].spec_command() == (if unix { "./lifeblood"@ } else { "./lifeblood.cmd"@ }),
        r@[2].spec_command() == (if unix { "./lifeblood_viewer"@ } else { "./lifeblood_viewer.cmd"@ }),
        default_args(r@[0]) == seq![
            "--loglevel"@,
            "INFO"@,
            "scheduler"@,
            "--verbosity-pinger"@,
            "INFO"@,
            "--broadcast-interval"@,
            "10"@,
        ],
        default_args(r@[1]) == seq!["--loglevel"@, "INFO"@, "pool"@, "simple"@],
        default_args(r@[2]) == seq!["--loglevel"@, "INFO"@],
        forall|i: int| 0 <= i < 3 ==> (#[trigger] r@[i]).spec_installation() is None && r@[i].spec_process() is None,
{
    let launcher = if unix {
        "./lifeblood"
    } else {
        "./lifeblood.cmd"
    };
    let viewer_launcher = if unix {
        "./lifeblood_viewer"
    } else {
        "./lifeblood_viewer.cmd"
    };
    let interval = LaunchControlDataOption::new(
        "broadcast interval",
        LaunchControlDataOptionValueStorage::new_int(10),
        Some("--broadcast-interval"),
    );
    proof {
        reveal_strlit("10");
        assert(crate::text::decimal(1) =~= seq!['1']);
        assert(crate::text::decimal(10) =~= seq!['1', '0']);
        assert(signed_decimal(10) =~= "10"@);
    }
    let mut scheduler_options: Vec<LaunchControlDataOption> = Vec::new();
    scheduler_options.push(log_level_option("log level", "--loglevel"));
    scheduler_options.push(word_option("component", "scheduler"));
    scheduler_options.push(log_level_option("pinger's verbosity", "--verbosity-pinger"));
    scheduler_options.push(interval);
    let scheduler = LaunchControlData::new(
        "scheduler",
        None,
        "Scheduler",
        "This should be run on ONLY ONE COMPUTER in your network. Scheduler is the main Lifeblood component, responsible for processing all tasks",
        launcher,
        Vec::new(),
        Some(scheduler_options),
    );
    let mut pool_options: Vec<LaunchControlDataOption> = Vec::new();
    pool_options.push(log_level_option("log level", "--loglevel"));
    pool_options.push(word_option("component", "pool"));
    pool_options.push(word_option("component", "simple"));
    let pool = LaunchControlData::new(
        "worker pool",
        None,
        "Worker Pool",
        "Run this on EVERY computer that needs to do the work",
        launcher,
        Vec::new(),
        Some(pool_options),
    );
    let mut viewer_options: Vec<LaunchControlDataOption> = Vec::new();
    viewer_options.push(log_level_option("log level", "--loglevel"));
    let viewer = LaunchControlData::new(
        "viewer",
        None,
        "Viewer",
        "Viewer is a UI to access scheduler over network. You can use it to set up task workflows and monitor task progression",
        viewer_launcher,
        Vec::new(),
        Some(viewer_options),
    );
    proof {
        reveal_with_fuel(launch_args, 5);
        assert(default_args(scheduler) =~= seq![
            "--loglevel"@,
            "INFO"@,
            "scheduler"@,
            "--verbosity-pinger"@,
            "INFO"@,
            "--broadcast-interval"@,
            "10"@,
        ]);
        assert(default_args(pool) =~= seq!["--loglevel"@, "INFO"@, "pool"@, "simple"@]);
        assert(default_args(viewer) =~= seq!["--loglevel"@, "INFO"@]);
    }
    let mut r: Vec<LaunchControlData> = Vec::new();
    r.push(scheduler);
    r.push(pool);
    r.push(viewer);
    r
}

} // verus!
