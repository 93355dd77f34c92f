use vstd::prelude::*;
use vstd::string::StringExecFns;

verus! {

/// How many folders of the repository of game sounds are loaded.
pub const VALVE_FOLDER_COUNT: usize = 9;

/// What is installed in the host at the moment.
#[derive(Clone, Copy, Debug, PartialEq, Eq, Structural)]
pub enum HookState {
    /// Nothing was ever installed.
    Fresh,
    /// The tick is intercepted and the event callbacks are registered.
    Loaded,
    /// The tick is still intercepted, the event callbacks are registered no more.
    Unloaded,
}

/// One thing for the host side to do, as a value.
pub enum Step {
    RegisterEvents,
    InstallTickHook,
    UnregisterEvents,
    StartEngine,
    ReleaseEngine,
    Announce(Seq<char>),
    LoadPack { repo: Seq<char>, subpath: Seq<char> },
}

/// One thing for the host side to do.
#[derive(Clone, Debug, PartialEq, Eq)]
pub enum HostStep {
    /// Register the callbacks for chat and key events.
    RegisterEvents,
    /// Intercept the host's tick, keeping the host's own to call first.
    InstallTickHook,
    /// Unregister the callbacks for chat and key events.
    UnregisterEvents,
    /// Create the sound engine.
    StartEngine,
    /// Drop the sound engine, if there is one.
    ReleaseEngine,
    /// Print a line to the overlay.
    Announce(String),
    /// Load the sound pack under `subpath` of the repository `repo`.
    LoadPack { repo: String, subpath: String },
}

impl View for HostStep {
    type V = Step;

    open spec fn view(&self) -> Step {
        match self {
            HostStep::RegisterEvents => Step::RegisterEvents,
            HostStep::InstallTickHook => Step::InstallTickHook,
            HostStep::UnregisterEvents => Step::UnregisterEvents,
            HostStep::StartEngine => Step::StartEngine,
            HostStep::ReleaseEngine => Step::ReleaseEngine,
            HostStep::Announce(line) => Step::Announce(line@),
            HostStep::LoadPack { repo, subpath } => Step::LoadPack {
                repo: repo@,
                subpath: subpath@,
            },
        }
    }
}

impl DeepView for HostStep {
    type V = Step;

    open spec fn deep_view(&self) -> Step {
        self@
    }
}

/// What a call of `load` leaves to do: `host` at once, on the host's thread, and
/// `background` after that, off the host's thread, each list in order.
#[derive(Clone, Debug, PartialEq, Eq)]
pub struct LoadPlan {
    pub host: Vec<HostStep>,
    pub background: Vec<HostStep>,
}

/// The folders of the repository of game sounds, in the order in which they load.
pub open spec fn valve_folders() -> Seq<Seq<char>> {
    seq![
        "csgo"@,
        "css"@,
        "ep1"@,
        "ep2"@,
        "hl2"@,
        "l4d"@,
        "l4d2"@,
        "portal"@,
        "tf2"@,
    ]
}

/// Announcing a pack under `label` and loading it.
pub open spec fn pack_steps(label: Seq<char>, repo: Seq<char>, subpath: Seq<char>) -> Seq<Step> {
    seq![Step::Announce(label), Step::LoadPack { repo, subpath }]
}

/// Announcing and loading one folder of game sounds.
pub open spec fn valve_pack_steps(folder: Seq<char>) -> Seq<Step> {
    pack_steps(
        "PAC3-Server/chatsounds-valve-games"@ + " "@ + folder,
        "PAC3-Server/chatsounds-valve-games"@,
        folder,
    )
}

/// Announcing and loading the first `count` folders of game sounds.
pub open spec fn valve_steps(count: nat) -> Seq<Step>
    decreases count,
{
    if count == 0 {
        Seq::empty()
    } else {
        valve_steps((count - 1) as nat) + valve_pack_steps(valve_folders()[count - 1])
    }
}

impl HookState {
    /// Whether the host's tick is intercepted.
    pub open spec fn tick_hooked(self) -> bool {
        self != HookState::Fresh
    }

    /// Whether the event callbacks are registered.
    pub open spec fn events_registered(self) -> bool {
        self == HookState::Loaded
    }

    /// The state after a call of `load`: only the first one ever installs.
    pub open spec fn after_load(self) -> HookState {
        if self == HookState::Fresh {
            HookState::Loaded
        } else {
            self
        }
    }

    /// The state after a call of `unload`: the tick stays intercepted.
    pub open spec fn after_unload(self) -> HookState {
        if self == HookState::Loaded {
            HookState::Unloaded
        } else {
            self
        }
    }

    /// What a call of `load` leaves to do on the host's thread.
    pub open spec fn load_host_steps(self) -> Seq<Step> {
        if self == HookState::Fresh {
            seq![
                Step::RegisterEvents,
                Step::InstallTickHook,
                Step::Announce("Loading chatsounds..."@),
            ]
        } else {
            Seq::empty()
        }
    }

    /// What a call of `load` leaves to do off the host's thread.
    pub open spec fn load_background_steps(self) -> Seq<Step> {
        if self == HookState::Fresh {
            seq![Step::StartEngine] + pack_steps(
                "Metastruct/garrysmod-chatsounds"@,
                "Metastruct/garrysmod-chatsounds"@,
                "sound/chatsounds/autoadd"@,
            ) + pack_steps(
                "PAC3-Server/chatsounds"@,
                "PAC3-Server/chatsounds"@,
                "sounds/chatsounds"@,
            ) + valve_steps(VALVE_FOLDER_COUNT as nat)
        } else {
            Seq::empty()
        }
    }

    /// What a call of `unload` leaves to do.
    pub open spec fn unload_steps(self) -> Seq<Step> {
        if self == HookState::Loaded {
            seq![Step::UnregisterEvents, Step::ReleaseEngine]
        } else {
            seq![Step::ReleaseEngine]
        }
    }

    /// The state before anything was installed.
    pub fn new() -> (state: HookState)
        ensures
            state == HookState::Fresh,
    {
        HookState::Fresh
    }

    /// Whether the host's tick is intercepted.
    pub fn is_tick_hooked(&self) -> (b: bool)
        ensures
            b == self.tick_hooked(),
    {
        match self {
            HookState::Fresh => false,
            HookState::Loaded => true,
            HookState::Unloaded => true,
        }
    }

    /// Whether the event callbacks are registered.
    pub fn is_events_registered(&self) -> (b: bool)
        ensures
            b == self.events_registered(),
    {
        match self {
            HookState::Fresh => false,
            HookState::Loaded => true,
            HookState::Unloaded => false,
        }
    }
}

/// A second `load` installs nothing: whatever the state, the call after a `load`
/// leaves nothing to do and changes nothing, so that two calls in a row leave to
/// do what the first one alone does.
pub proof fn lemma_load_installs_once(state: HookState)
    ensures
        state.load_host_steps() + state.after_load().load_host_steps() == state.load_host_steps(),
        state.load_background_steps() + state.after_load().load_background_steps()
            == state.load_background_steps(),
        state.after_load().load_host_steps() == Seq::<Step>::empty(),
        state.after_load().load_background_steps() == Seq::<Step>::empty(),
        state.after_load().after_load() == state.after_load(),
        state.after_load().tick_hooked(),
{
}

/// After `unload` no event callback is registered, whatever was the case before,
/// and a second `unload` has nothing to unregister.
pub proof fn lemma_unload_leaves_unregistered(state: HookState)
    ensures
        !state.after_unload().events_registered(),
        state.after_unload().unload_steps() == seq![Step::ReleaseEngine],
        state.after_unload().after_unload() == state.after_unload(),
        state.after_unload().tick_hooked() == state.tick_hooked(),
{
}

/// What is installed is never installed again: a `load` that follows an `unload`
/// leaves nothing to do, as the tick is still intercepted.
pub proof fn lemma_load_after_unload_is_idle(state: HookState)
    requires
        state.tick_hooked(),
    ensures
        state.after_unload().load_host_steps() == Seq::<Step>::empty(),
        state.after_unload().load_background_steps() == Seq::<Step>::empty(),
        state.after_unload().after_load() == state.after_unload(),
{
}

/// The `i`-th folder of game sounds.
fn valve_folder(i: usize) -> (folder: &'static str)
    requires
        i < VALVE_FOLDER_COUNT,
    ensures
        folder@ == valve_folders()[i as int],
{
    if i == 0 {
        "csgo"
    } else if i == 1 {
        "css"
    } else if i == 2 {
        "ep1"
    } else if i == 3 {
        "ep2"
    } else if i == 4 {
        "hl2"
    } else if i == 5 {
        "l4d"
    } else if i == 6 {
        "l4d2"
    } else if i == 7 {
        "portal"
    } else {
        "tf2"
    }
}

/// Adds to `steps` the announcement of a pack and its loading.
fn push_pack(steps: &mut Vec<HostStep>, label: String, repo: &str, subpath: &str)
    ensures
        final(steps).deep_view() == old(steps).deep_view() + pack_steps(label@, repo@, subpath@),
{
    steps.push(HostStep::Announce(label));
    steps.push(
        HostStep::LoadPack { repo: String::from_str(repo), subpath: String::from_str(subpath) },
    );
}

/// Installs the plugin, once: the first call ever returns what there is to do, and
/// any later call returns two empty lists.
pub fn load(state: &mut HookState) -> (plan: LoadPlan)
    ensures
        *final(state) == old(state).after_load(),
        plan.host.deep_view() == old(state).load_host_steps(),
        plan.background.deep_view() == old(state).load_background_steps(),
{
    let mut host: Vec<HostStep> = Vec::new();
    let mut background: Vec<HostStep> = Vec::new();
    match *state {
        HookState::Fresh => {},
        _ => {
            return LoadPlan { host, background };
        },
    }
    host.push(HostStep::RegisterEvents);
    host.push(HostStep::InstallTickHook);
    host.push(HostStep::Announce(String::from_str("Loading chatsounds...")));
    *state = HookState::Loaded;

    background.push(HostStep::StartEngine);
    push_pack(
        &mut background,
        String::from_str("Metastruct/garrysmod-chatsounds"),
        "Metastruct/garrysmod-chatsounds",
        "sound/chatsounds/autoadd",
    );
    push_pack(
        &mut background,
        String::from_str("PAC3-Server/chatsounds"),
        "PAC3-Server/chatsounds",
        "sounds/chatsounds",
    );
    let ghost fixed = background.deep_view();
    let mut i: usize = 0;
    while i < VALVE_FOLDER_COUNT
        invariant
            i <= VALVE_FOLDER_COUNT,
            background.deep_view() == fixed + valve_steps(i as nat),
        decreases VALVE_FOLDER_COUNT - i,
    {
        let folder = valve_folder(i);
        let mut label = String::from_str("PAC3-Server/chatsounds-valve-games");
        label.append(" ");
        label.append(folder);
        push_pack(&mut background, label, "PAC3-Server/chatsounds-valve-games", folder);
        i += 1;
    }
    LoadPlan { host, background }
}

/// Takes the plugin out: unregisters the event callbacks if they are registered,
/// and releases the engine in any case. The interception of the tick stays.
pub fn unload(state: &mut HookState) -> (steps: Vec<HostStep>)
    ensures
        *final(state) == old(state).after_unload(),
        steps.deep_view() == old(state).unload_steps(),
{
    let mut steps: Vec<HostStep> = Vec::new();
    match *state {
        HookState::Loaded => {
            steps.push(HostStep::UnregisterEvents);
            *state = HookState::Unloaded;
        },
        _ => {},
    }
    steps.push(HostStep::ReleaseEngine);
    steps
}

} // verus!
