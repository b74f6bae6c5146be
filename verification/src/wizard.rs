//! The setup wizard: the data it gathers and the order of its pages.
use vstd::prelude::*;

verus! {

/// A Houdini installation: its `bin` directory, its Python version and its version.
#[derive(Debug)]
pub struct HoudiniVersion {
    pub bin_path: String,
    pub python_version: (u32, u32),
    pub version: (u32, u32, u32),
}

/// A Blender installation: its directory and its version.
#[derive(Debug)]
pub struct BlenderVersion {
    pub bin_path: String,
    pub version: (u32, u32, u32),
}

/// A Redshift installation: its `bin` directory and its version.
#[derive(Debug)]
pub struct RedshiftVersion {
    pub bin_path: String,
    pub version: (u32, u32, u32),
}

/// What the wizard gathers before writing configurations.
#[derive(Debug)]
pub struct WizardData {
    pub db_path: Option<String>,
    pub scratch_path: Option<String>,
    pub do_houdini: bool,
    pub do_blender: bool,
    pub do_redshift: bool,
    pub houdini_versions: Vec<HoudiniVersion>,
    pub blender_versions: Vec<BlenderVersion>,
    pub redshift_versions: Vec<RedshiftVersion>,
    pub houdini_plugins_paths_first_initialized: bool,
    pub houdini_plugins_installation_paths: Vec<String>,
}

pub type HoudiniView = (Seq<char>, (u32, u32), (u32, u32, u32));

pub type DccView = (Seq<char>, (u32, u32, u32));

pub open spec fn houdini_view(v: Seq<HoudiniVersion>) -> Seq<HoudiniView> {
    v.map_values(|h: HoudiniVersion| (h.bin_path@, h.python_version, h.version))
}

pub open spec fn blender_view(v: Seq<BlenderVersion>) -> Seq<DccView> {
    v.map_values(|h: BlenderVersion| (h.bin_path@, h.version))
}

pub open spec fn redshift_view(v: Seq<RedshiftVersion>) -> Seq<DccView> {
    v.map_values(|h: RedshiftVersion| (h.bin_path@, h.version))
}

impl WizardData {
    /// Nothing chosen yet.
    pub open spec fn is_empty(&self) -> bool {
        &&& self.db_path is None
        &&& self.scratch_path is None
        &&& !self.do_houdini && !self.do_blender && !self.do_redshift
        &&& self.houdini_versions@.len() == 0
        &&& self.blender_versions@.len() == 0
        &&& self.redshift_versions@.len() == 0
        &&& !self.houdini_plugins_paths_first_initialized
        &&& self.houdini_plugins_installation_paths@.len() == 0
    }

    pub fn new() -> (r: WizardData)
        ensures
            r.is_empty(),
    {
        WizardData {
            db_path: None,
            scratch_path: None,
            do_houdini: false,
            do_blender: false,
            do_redshift: false,
            houdini_versions: Vec::new(),
            blender_versions: Vec::new(),
            redshift_versions: Vec::new(),
            houdini_plugins_paths_first_initialized: false,
            houdini_plugins_installation_paths: Vec::new(),
        }
    }
}

/// The wizard's pages.
#[derive(Clone, Copy, Debug, PartialEq, Eq, Structural)]
pub enum WizardState {
    Intro,
    DoDBPath,
    DoScratchPath,
    ChooseDCCs,
    FindBlender,
    FindHoudini,
    FindRedshift,
    HoudiniTools,
    GPUDevices,
    Finalize,
}

/// How the user left a page.
#[derive(Clone, Copy, Debug, PartialEq, Eq, Structural)]
pub enum ActivityResult {
    Next,
    Prev,
    Abort,
}

/// What follows a page: another page, writing the configuration, or leaving.
#[derive(Clone, Copy, Debug, PartialEq, Eq, Structural)]
pub enum WizardStep {
    Show(WizardState),
    Finish,
    Exit,
}

/// The page after `s` when left by `r`, given which applications are chosen
/// (Blender `b`, Houdini `h`, Redshift `rs`) once the page's choices are applied.
pub open spec fn transition(s: WizardState, r: ActivityResult, b: bool, h: bool, rs: bool) -> WizardStep {
    match r {
        ActivityResult::Abort => WizardStep::Exit,
        ActivityResult::Next => match s {
            WizardState::Intro => WizardStep::Show(WizardState::DoScratchPath),
            WizardState::DoDBPath => WizardStep::Show(WizardState::ChooseDCCs),
            WizardState::DoScratchPath => WizardStep::Show(WizardState::ChooseDCCs),
            WizardState::ChooseDCCs => if b {
                WizardStep::Show(WizardState::FindBlender)
            } else if h {
                WizardStep::Show(WizardState::FindHoudini)
            } else if rs {
                WizardStep::Show(WizardState::FindRedshift)
            } else {
                WizardStep::Show(WizardState::GPUDevices)
            },
            WizardState::FindBlender => if h {
                WizardStep::Show(WizardState::FindHoudini)
            } else if rs {
                WizardStep::Show(WizardState::FindRedshift)
            } else {
                WizardStep::Show(WizardState::GPUDevices)
            },
            WizardState::FindHoudini => WizardStep::Show(WizardState::HoudiniTools),
            WizardState::HoudiniTools => if rs {
                WizardStep::Show(WizardState::FindRedshift)
            } else {
                WizardStep::Show(WizardState::GPUDevices)
            },
            WizardState::FindRedshift => WizardStep::Show(WizardState::GPUDevices),
            WizardState::GPUDevices => WizardStep::Show(WizardState::Finalize),
            WizardState::Finalize => WizardStep::Finish,
        },
        ActivityResult::Prev => match s {
            WizardState::Intro => WizardStep::Exit,
            WizardState::DoDBPath => WizardStep::Show(WizardState::Intro),
            WizardState::DoScratchPath => WizardStep::Show(WizardState::Intro),
            WizardState::ChooseDCCs => WizardStep::Show(WizardState::DoScratchPath),
            WizardState::FindBlender => WizardStep::Show(WizardState::ChooseDCCs),
            WizardState::FindHoudini => if b {
                WizardStep::Show(WizardState::FindBlender)
            } else {
                WizardStep::Show(WizardState::ChooseDCCs)
            },
            WizardState::HoudiniTools => WizardStep::Show(WizardState::FindHoudini),
            WizardState::FindRedshift => if h {
                WizardStep::Show(WizardState::HoudiniTools)
            } else if b {
                WizardStep::Show(WizardState::FindBlender)
            } else {
                WizardStep::Show(WizardState::ChooseDCCs)
            },
            WizardState::GPUDevices => if rs {
                WizardStep::Show(WizardState::FindRedshift)
            } else if h {
                WizardStep::Show(WizardState::HoudiniTools)
            } else if b {
                WizardStep::Show(WizardState::FindBlender)
            } else {
                WizardStep::Show(WizardState::ChooseDCCs)
            },
            WizardState::Finalize => WizardStep::Show(WizardState::GPUDevices),
        },
    }
}

pub fn next_step(s: WizardState, r: ActivityResult, b: bool, h: bool, rs: bool) -> (t: WizardStep)
    ensures
        t == transition(s, r, b, h, rs),
{
    match r {
        ActivityResult::Abort => WizardStep::Exit,
        ActivityResult::Next => match s {
            WizardState::Intro => WizardStep::Show(WizardState::DoScratchPath),
            WizardState::DoDBPath => WizardStep::Show(WizardState::ChooseDCCs),
            WizardState::DoScratchPath => WizardStep::Show(WizardState::ChooseDCCs),
            WizardState::ChooseDCCs => if b {
                WizardStep::Show(WizardState::FindBlender)
            } else if h {
                WizardStep::Show(WizardState::FindHoudini)
            } else if rs {
                WizardStep::Show(WizardState::FindRedshift)
            } else {
                WizardStep::Show(WizardState::GPUDevices)
            },
            WizardState::FindBlender => if h {
                WizardStep::Show(WizardState::FindHoudini)
            } else if rs {
                WizardStep::Show(WizardState::FindRedshift)
            } else {
                WizardStep::Show(WizardState::GPUDevices)
            },
            WizardState::FindHoudini => WizardStep::Show(WizardState::HoudiniTools),
            WizardState::HoudiniTools => if rs {
                WizardStep::Show(WizardState::FindRedshift)
            } else {
                WizardStep::Show(WizardState::GPUDevices)
            },
            WizardState::FindRedshift => WizardStep::Show(WizardState::GPUDevices),
            WizardState::GPUDevices => WizardStep::Show(WizardState::Finalize),
            WizardState::Finalize => WizardStep::Finish,
        },
        ActivityResult::Prev => match s {
            WizardState::Intro => WizardStep::Exit,
            WizardState::DoDBPath => WizardStep::Show(WizardState::Intro),
            WizardState::DoScratchPath => WizardStep::Show(WizardState::Intro),
            WizardState::ChooseDCCs => WizardStep::Show(WizardState::DoScratchPath),
            WizardState::FindBlender => WizardStep::Show(WizardState::ChooseDCCs),
            WizardState::FindHoudini => if b {
                WizardStep::Show(WizardState::FindBlender)
            } else {
                WizardStep::Show(WizardState::ChooseDCCs)
            },
            WizardState::HoudiniTools => WizardStep::Show(WizardState::FindHoudini),
            WizardState::FindRedshift => if h {
                WizardStep::Show(WizardState::HoudiniTools)
            } else if b {
                WizardStep::Show(WizardState::FindBlender)
            } else {
                WizardStep::Show(WizardState::ChooseDCCs)
            },
            WizardState::GPUDevices => if rs {
                WizardStep::Show(WizardState::FindRedshift)
            } else if h {
                WizardStep::Show(WizardState::HoudiniTools)
            } else if b {
                WizardStep::Show(WizardState::FindBlender)
            } else {
                WizardStep::Show(WizardState::ChooseDCCs)
            },
            WizardState::Finalize => WizardStep::Show(WizardState::GPUDevices),
        },
    }
}

/// What a page produced when left with `Next`.
pub enum ActivityOutcome {
    Nothing,
    DbPath(Option<String>),
    ScratchPath(Option<String>),
    /// Blender, Houdini, Redshift chosen.
    Dccs(bool, bool, bool),
    /// The versions found, or `None` to keep those already known.
    BlenderVersions(Option<Vec<BlenderVersion>>),
    HoudiniVersions(Option<Vec<HoudiniVersion>>),
    RedshiftVersions(Option<Vec<RedshiftVersion>>),
    ToolsPaths(Option<Vec<String>>),
}

/// The wizard: where configurations go, the data gathered, the current page.
pub struct Wizard {
    config_root: String,
    data: WizardData,
    state: WizardState,
}

/// The pages' order, from the first to the last.
pub open spec fn rank(s: WizardState) -> int {
    match s {
        WizardState::Intro => 0,
        WizardState::DoDBPath => 1,
        WizardState::DoScratchPath => 2,
        WizardState::ChooseDCCs => 3,
        WizardState::FindBlender => 4,
        WizardState::FindHoudini => 5,
        WizardState::HoudiniTools => 6,
        WizardState::FindRedshift => 7,
        WizardState::GPUDevices => 8,
        WizardState::Finalize => 9,
    }
}

/// A page that finds an application's versions is shown only while that
/// application is chosen.
pub open spec fn consistent(s: WizardState, b: bool, h: bool, rs: bool) -> bool {
    &&& s == WizardState::FindBlender ==> b
    &&& (s == WizardState::FindHoudini || s == WizardState::HoudiniTools) ==> h
    &&& s == WizardState::FindRedshift ==> rs
}

impl Wizard {
    pub closed spec fn spec_state(&self) -> WizardState {
        self.state
    }

    pub closed spec fn spec_config_root(&self) -> Seq<char> {
        self.config_root@
    }

    pub closed spec fn spec_data(&self) -> &WizardData {
        &self.data
    }

    /// A wizard writing to `config_root`, starting from the data read from the
    /// existing configuration, or from nothing when it could not be read.
    pub fn new(config_root: String, loaded: Option<WizardData>) -> (r: Wizard)
        ensures
            r.spec_state() == WizardState::Intro,
            r.spec_config_root() == config_root@,
            match loaded {
                Some(d) => *r.spec_data() == d,
                None => r.spec_data().is_empty(),
            },
    {
        Wizard {
            data: match loaded {
                Some(d) => d,
                None => WizardData::new(),
            },
            config_root,
            state: WizardState::Intro,
        }
    }

    pub fn state(&self) -> (r: WizardState)
        ensures
            r == self.spec_state(),
    {
        self.state
    }

    pub fn data(&self) -> (r: &WizardData)
        ensures
            *r == *self.spec_data(),
    {
        &self.data
    }

    pub fn config_root(&self) -> (r: &str)
        ensures
            r@ == self.spec_config_root(),
    {
        self.config_root.as_str()
    }

    /// The Houdini tools locations to offer: on the first visit, the default
    /// preference directories found; afterwards, what was chosen before.
    pub fn prepare_houdini_tools(&mut self, defaults: Vec<String>) -> (r: &Vec<String>)
        ensures
            final(self).spec_state() == old(self).spec_state(),
            final(self).spec_config_root() == old(self).spec_config_root(),
            final(self).spec_data().houdini_plugins_paths_first_initialized,
            old(self).spec_data().houdini_plugins_paths_first_initialized ==> *final(self).spec_data()
                == *old(self).spec_data(),
            !old(self).spec_data().houdini_plugins_paths_first_initialized
                ==> final(self).spec_data().houdini_plugins_installation_paths == defaults,
            *r == final(self).spec_data().houdini_plugins_installation_paths,
    {
        if !self.data.houdini_plugins_paths_first_initialized {
            self.data.houdini_plugins_paths_first_initialized = true;
            self.data.houdini_plugins_installation_paths = defaults;
        }
        &self.data.houdini_plugins_installation_paths
    }

    /// Leave the current page with `result`; with `Next`, the page's choices
    /// (`outcome`, when it belongs to the page) are kept first. Returns what follows.
    pub fn on_activity_finished(&mut self, result: ActivityResult, outcome: ActivityOutcome) -> (r:
        WizardStep)
        ensures
            final(self).spec_config_root() == old(self).spec_config_root(),
            r == transition(
                old(self).spec_state(),
                result,
                final(self).spec_data().do_blender,
                final(self).spec_data().do_houdini,
                final(self).spec_data().do_redshift,
            ),
            r matches WizardStep::Show(t) ==> final(self).spec_state() == t,
            !(r is Show) ==> final(self).spec_state() == old(self).spec_state(),
            (result != ActivityResult::Next || old(self).spec_state() != WizardState::ChooseDCCs
                || !(outcome is Dccs)) ==> (final(self).spec_data().do_blender == old(self).spec_data().do_blender && final(self).spec_data().do_houdini == old(self).spec_data().do_houdini && final(self).spec_data().do_redshift == old(self).spec_data().do_redshift),
            (result == ActivityResult::Next && old(self).spec_state() == WizardState::ChooseDCCs)
                ==> match outcome {
                ActivityOutcome::Dccs(b, h, rs) => final(self).spec_data().do_blender == b
                    && final(self).spec_data().do_houdini == h && final(self).spec_data().do_redshift
                    == rs,
                _ => true,
            },
            (result == ActivityResult::Next && old(self).spec_state() == WizardState::FindBlender)
                ==> match outcome {
                ActivityOutcome::BlenderVersions(Some(v)) => blender_view(
                    final(self).spec_data().blender_versions@,
                ) == blender_view(v@),
                _ => final(self).spec_data().blender_versions == old(self).spec_data().blender_versions,
            },
            (result == ActivityResult::Next && old(self).spec_state() == WizardState::FindHoudini)
                ==> match outcome {
                ActivityOutcome::HoudiniVersions(Some(v)) => houdini_view(
                    final(self).spec_data().houdini_versions@,
                ) == houdini_view(v@),
                _ => final(self).spec_data().houdini_versions == old(self).spec_data().houdini_versions,
            },
            (result == ActivityResult::Next && old(self).spec_state() == WizardState::FindRedshift)
                ==> match outcome {
                ActivityOutcome::RedshiftVersions(Some(v)) => redshift_view(
                    final(self).spec_data().redshift_versions@,
                ) == redshift_view(v@),
                _ => final(self).spec_data().redshift_versions == old(self).spec_data().redshift_versions,
            },
            (result == ActivityResult::Next && old(self).spec_state() == WizardState::DoDBPath)
                ==> match outcome {
                ActivityOutcome::DbPath(p) => crate::text::opt_view(final(self).spec_data().db_path)
                    == crate::text::opt_view(p),
                _ => final(self).spec_data().db_path == old(self).spec_data().db_path,
            },
            !(result == ActivityResult::Next && old(self).spec_state() == WizardState::DoDBPath)
                ==> final(self).spec_data().db_path == old(self).spec_data().db_path,
            !(result == ActivityResult::Next && old(self).spec_state() == WizardState::DoScratchPath)
                ==> final(self).spec_data().scratch_path == old(self).spec_data().scratch_path,
            !(result == ActivityResult::Next && old(self).spec_state() == WizardState::FindBlender)
                ==> final(self).spec_data().blender_versions == old(self).spec_data().blender_versions,
            !(result == ActivityResult::Next && old(self).spec_state() == WizardState::FindHoudini)
                ==> final(self).spec_data().houdini_versions == old(self).spec_data().houdini_versions,
            !(result == ActivityResult::Next && old(self).spec_state() == WizardState::FindRedshift)
                ==> final(self).spec_data().redshift_versions == old(self).spec_data().redshift_versions,
            !(result == ActivityResult::Next && old(self).spec_state() == WizardState::HoudiniTools)
                ==> final(self).spec_data().houdini_plugins_installation_paths
                == old(self).spec_data().houdini_plugins_installation_paths,
            final(self).spec_data().houdini_plugins_paths_first_initialized
                == old(self).spec_data().houdini_plugins_paths_first_initialized,
            (result == ActivityResult::Next && old(self).spec_state() == WizardState::DoScratchPath)
                ==> match outcome {
                ActivityOutcome::ScratchPath(p) => crate::text::opt_view(
                    final(self).spec_data().scratch_path,
                ) == crate::text::opt_view(p),
                _ => final(self).spec_data().scratch_path == old(self).spec_data().scratch_path,
            },
            (result == ActivityResult::Next && old(self).spec_state() == WizardState::HoudiniTools)
                ==> match outcome {
                ActivityOutcome::ToolsPaths(Some(p)) => final(self).spec_data().houdini_plugins_installation_paths == p,
                _ => final(self).spec_data().houdini_plugins_installation_paths == old(self).spec_data().houdini_plugins_installation_paths,
            },
    {
        if let ActivityResult::Next = result {
            match (self.state, outcome) {
                (WizardState::DoDBPath, ActivityOutcome::DbPath(p)) => {
                    self.data.db_path = p;
                },
                (WizardState::DoScratchPath, ActivityOutcome::ScratchPath(p)) => {
                    self.data.scratch_path = p;
                },
                (WizardState::ChooseDCCs, ActivityOutcome::Dccs(b, h, rs)) => {
                    self.data.do_blender = b;
                    self.data.do_houdini = h;
                    self.data.do_redshift = rs;
                },
                (WizardState::FindBlender, ActivityOutcome::BlenderVersions(Some(v))) => {
                    self.data.blender_versions = v;
                },
                (WizardState::FindHoudini, ActivityOutcome::HoudiniVersions(Some(v))) => {
                    self.data.houdini_versions = v;
                },
                (WizardState::FindRedshift, ActivityOutcome::RedshiftVersions(Some(v))) => {
                    self.data.redshift_versions = v;
                },
                (WizardState::HoudiniTools, ActivityOutcome::ToolsPaths(Some(p))) => {
                    self.data.houdini_plugins_installation_paths = p;
                },
                _ => {},
            }
        }
        let step = next_step(
            self.state,
            result,
            self.data.do_blender,
            self.data.do_houdini,
            self.data.do_redshift,
        );
        if let WizardStep::Show(t) = step {
            self.state = t;
        }
        step
    }
}

/// The wizard that only installs the Houdini tools: a tools page and a summary.
pub struct WizardForToolsOnly {
    data: WizardData,
    state: WizardState,
}

/// The page after `s` in the tools-only wizard when left by `r`.
pub open spec fn tools_transition(s: WizardState, r: ActivityResult) -> WizardStep {
    match (s, r) {
        (_, ActivityResult::Abort) => WizardStep::Exit,
        (WizardState::Finalize, ActivityResult::Next) => WizardStep::Finish,
        (WizardState::Finalize, ActivityResult::Prev) => WizardStep::Show(WizardState::HoudiniTools),
        (_, ActivityResult::Next) => WizardStep::Show(WizardState::Finalize),
        (_, ActivityResult::Prev) => WizardStep::Exit,
    }
}

impl WizardForToolsOnly {
    pub closed spec fn spec_state(&self) -> WizardState {
        self.state
    }

    pub closed spec fn spec_data(&self) -> &WizardData {
        &self.data
    }

    pub fn new() -> (r: WizardForToolsOnly)
        ensures
            r.spec_state() == WizardState::HoudiniTools,
            r.spec_data().is_empty(),
    {
        WizardForToolsOnly { data: WizardData::new(), state: WizardState::HoudiniTools }
    }

    pub fn state(&self) -> (r: WizardState)
        ensures
            r == self.spec_state(),
    {
        self.state
    }

    pub fn data(&self) -> (r: &WizardData)
        ensures
            *r == *self.spec_data(),
    {
        &self.data
    }

    /// The tools locations to offer (see `Wizard::prepare_houdini_tools`).
    pub fn prepare_houdini_tools(&mut self, defaults: Vec<String>) -> (r: &Vec<String>)
        ensures
            final(self).spec_state() == old(self).spec_state(),
            final(self).spec_data().houdini_plugins_paths_first_initialized,
            old(self).spec_data().houdini_plugins_paths_first_initialized ==> *final(self).spec_data()
                == *old(self).spec_data(),
            !old(self).spec_data().houdini_plugins_paths_first_initialized
                ==> final(self).spec_data().houdini_plugins_installation_paths == defaults,
            *r == final(self).spec_data().houdini_plugins_installation_paths,
    {
        if !self.data.houdini_plugins_paths_first_initialized {
            self.data.houdini_plugins_paths_first_initialized = true;
            self.data.houdini_plugins_installation_paths = defaults;
        }
        &self.data.houdini_plugins_installation_paths
    }

    /// Leave the current page; with `Next` on the tools page, the chosen
    /// locations (when given) are kept.
    pub fn on_activity_finished(&mut self, result: ActivityResult, paths: Option<Vec<String>>) -> (r:
        WizardStep)
        ensures
            r == tools_transition(old(self).spec_state(), result),
            r matches WizardStep::Show(t) ==> final(self).spec_state() == t,
            !(r is Show) ==> final(self).spec_state() == old(self).spec_state(),
            (result == ActivityResult::Next && old(self).spec_state() == WizardState::HoudiniTools
                && paths is Some) ==> final(self).spec_data().houdini_plugins_installation_paths
                == paths.unwrap(),
    {
        if let ActivityResult::Next = result {
            if let WizardState::HoudiniTools = self.state {
                if let Some(p) = paths {
                    self.data.houdini_plugins_installation_paths = p;
                }
            }
        }
        let step = match (self.state, result) {
            (_, ActivityResult::Abort) => WizardStep::Exit,
            (WizardState::Finalize, ActivityResult::Next) => WizardStep::Finish,
            (WizardState::Finalize, ActivityResult::Prev) => WizardStep::Show(
                WizardState::HoudiniTools,
            ),
            (_, ActivityResult::Next) => WizardStep::Show(WizardState::Finalize),
            (_, ActivityResult::Prev) => WizardStep::Exit,
        };
        if let WizardStep::Show(t) = step {
            self.state = t;
        }
        step
    }
}

/// `Next` always moves to a later page (or, from the last page, finishes).
pub proof fn law_next_moves_forward(s: WizardState, b: bool, h: bool, rs: bool)
    ensures
        match transition(s, ActivityResult::Next, b, h, rs) {
            WizardStep::Show(t) => rank(t) > rank(s),
            WizardStep::Finish => s == WizardState::Finalize,
            WizardStep::Exit => false,
        },
{
}

/// `Prev` always moves to an earlier page (or, from the first page, leaves).
pub proof fn law_prev_moves_back(s: WizardState, b: bool, h: bool, rs: bool)
    ensures
        match transition(s, ActivityResult::Prev, b, h, rs) {
            WizardStep::Show(t) => rank(t) < rank(s),
            WizardStep::Exit => s == WizardState::Intro,
            WizardStep::Finish => false,
        },
{
}

/// `Abort` leaves the wizard from any page.
pub proof fn law_abort_exits(s: WizardState, b: bool, h: bool, rs: bool)
    ensures
        transition(s, ActivityResult::Abort, b, h, rs) == WizardStep::Exit,
{
}

/// From a page shown consistently with the chosen applications, going on and
/// then back returns to that page (the database page, which is not reached, aside).
pub proof fn law_prev_undoes_next(s: WizardState, b: bool, h: bool, rs: bool)
    requires
        consistent(s, b, h, rs),
        s != WizardState::DoDBPath,
    ensures
        match transition(s, ActivityResult::Next, b, h, rs) {
            WizardStep::Show(t) => transition(t, ActivityResult::Prev, b, h, rs)
                == WizardStep::Show(s),
            _ => s == WizardState::Finalize,
        },
{
}

/// Pages stay consistent with the chosen applications: every page the wizard
/// moves to shows only applications that are chosen.
pub proof fn law_transition_keeps_consistent(
    s: WizardState,
    r: ActivityResult,
    b: bool,
    h: bool,
    rs: bool,
)
    requires
        consistent(s, b, h, rs) || (s == WizardState::ChooseDCCs && r == ActivityResult::Next),
    ensures
        transition(s, r, b, h, rs) matches WizardStep::Show(t) ==> consistent(t, b, h, rs),
{
}

} // verus!
