//! Launch readiness: an ordered series of checks that ends in the one state
//! the frontend acts on. The checks that need outside work are questions the
//! caller answers one at a time.

use vstd::prelude::*;

verus! {

/// What a version provider says of installed files against the available ones.
#[derive(Debug, Clone, Copy, PartialEq, Eq, Structural)]
pub enum DiffKind {
    Latest,
    /// Up to date, and the next version can be downloaded ahead of time.
    Predownload,
    /// An update is available.
    Diff,
    /// Too old to be updated; must be downloaded again.
    Outdated,
    NotInstalled,
}

/// The state of one game-specific patch check.
#[derive(Debug, Clone, Copy, PartialEq, Eq, Structural)]
pub enum PatchStatus {
    /// Installed, current and safe to use.
    Ready,
    NotInstalled,
    UpdateAvailable,
    Unverified,
    Broken,
    Unsafe,
    Concerning,
}

/// What probing the telemetry servers gave.
#[derive(Debug, Clone, Copy, PartialEq, Eq, Structural)]
pub enum TelemetryProbe {
    /// No telemetry domain resolved: telemetry is blocked.
    Unresolved,
    /// Some telemetry domain resolved.
    Resolved,
    /// The lookup itself failed.
    Failed,
}

/// The one outcome of a readiness check; `D` is the version provider's diff.
#[derive(Debug, Clone, PartialEq, Eq)]
pub enum LauncherState<D> {
    Launch,
    /// `game` is the game's predownload diff; `voices` the voice packages' ones.
    PredownloadAvailable { game: D, voices: Vec<D> },
    WineNotInstalled,
    PrefixNotExists,
    GameNotInstalled(D),
    GameOutdated(D),
    GameUpdateAvailable(D),
    VoiceNotInstalled(D),
    VoiceOutdated(D),
    VoiceUpdateAvailable(D),
    /// The patch check at this position found the patch missing.
    PatchNotInstalled(usize),
    PatchUpdateAvailable(usize),
    PatchNotVerified(usize),
    PatchBroken(usize),
    PatchUnsafe(usize),
    PatchConcerning(usize),
    TelemetryNotDisabled,
}

/// The same outcome, with its voice list as a sequence.
pub enum Verdict<D> {
    Launch,
    PredownloadAvailable { game: D, voices: Seq<D> },
    WineNotInstalled,
    PrefixNotExists,
    GameNotInstalled(D),
    GameOutdated(D),
    GameUpdateAvailable(D),
    VoiceNotInstalled(D),
    VoiceOutdated(D),
    VoiceUpdateAvailable(D),
    PatchNotInstalled(usize),
    PatchUpdateAvailable(usize),
    PatchNotVerified(usize),
    PatchBroken(usize),
    PatchUnsafe(usize),
    PatchConcerning(usize),
    TelemetryNotDisabled,
}

pub open spec fn verdict<D>(s: LauncherState<D>) -> Verdict<D> {
    match s {
        LauncherState::Launch => Verdict::Launch,
        LauncherState::PredownloadAvailable { game, voices } => Verdict::PredownloadAvailable { game, voices: voices@ },
        LauncherState::WineNotInstalled => Verdict::WineNotInstalled,
        LauncherState::PrefixNotExists => Verdict::PrefixNotExists,
        LauncherState::GameNotInstalled(d) => Verdict::GameNotInstalled(d),
        LauncherState::GameOutdated(d) => Verdict::GameOutdated(d),
        LauncherState::GameUpdateAvailable(d) => Verdict::GameUpdateAvailable(d),
        LauncherState::VoiceNotInstalled(d) => Verdict::VoiceNotInstalled(d),
        LauncherState::VoiceOutdated(d) => Verdict::VoiceOutdated(d),
        LauncherState::VoiceUpdateAvailable(d) => Verdict::VoiceUpdateAvailable(d),
        LauncherState::PatchNotInstalled(j) => Verdict::PatchNotInstalled(j),
        LauncherState::PatchUpdateAvailable(j) => Verdict::PatchUpdateAvailable(j),
        LauncherState::PatchNotVerified(j) => Verdict::PatchNotVerified(j),
        LauncherState::PatchBroken(j) => Verdict::PatchBroken(j),
        LauncherState::PatchUnsafe(j) => Verdict::PatchUnsafe(j),
        LauncherState::PatchConcerning(j) => Verdict::PatchConcerning(j),
        LauncherState::TelemetryNotDisabled => Verdict::TelemetryNotDisabled,
    }
}

/// The runner chosen in the configuration.
#[derive(Debug, Clone, PartialEq, Eq)]
pub struct SelectedRunner {
    pub name: String,
    /// Installed and owned by Steam, which also owns its prefix.
    pub managed: bool,
}

/// What a readiness check is asked about, assembled right before it runs.
#[derive(Debug, Clone, PartialEq, Eq)]
pub struct LauncherStateParams {
    pub runner: Option<SelectedRunner>,
    /// Selected voice locales, checked in this order.
    pub voices: Vec<String>,
    /// Patch mirrors, tried in this order.
    pub patch_servers: Vec<String>,
    /// Number of game-specific patch checks, run in order.
    pub patch_checks: usize,
    /// Launch even when telemetry servers are reachable.
    pub telemetry_ignored: bool,
}

/// Where a readiness check stands: which answer it waits for.
#[derive(Debug, Clone, Copy, PartialEq, Eq, Structural)]
pub enum Phase {
    Prefix,
    Game,
    Voice(usize),
    PatchCache,
    Mirror(usize),
    Patch(usize),
    Telemetry,
}

/// What the caller is asked to find out next.
#[derive(Debug, Clone, Copy, PartialEq, Eq, Structural)]
pub enum Action {
    /// Whether the prefix's `drive_c` folder exists.
    CheckPrefix,
    /// The game's version diff.
    QueryGame,
    /// The version diff of the voice package at this position of the selection.
    QueryVoice(usize),
    /// Whether the local patch folder is in sync with the mirrors.
    CheckPatchCache,
    /// Sync the local patch folder from the mirror at this position.
    SyncMirror(usize),
    /// The state of the patch check at this position.
    CheckPatch(usize),
    /// Whether telemetry domains resolve.
    QueryTelemetry,
}

/// A check boundary, reported to the status callback.
#[derive(Debug, Clone, Copy, PartialEq, Eq, Structural)]
pub enum StateUpdating {
    Game,
    /// The voice package at this position of the selection.
    Voice(usize),
    Patch,
}

/// An answer to the last question asked.
#[derive(Debug, Clone, PartialEq, Eq)]
pub enum Event<D> {
    PrefixChecked(bool),
    GameDiff(DiffKind, D),
    VoiceDiff(DiffKind, D),
    PatchCacheChecked(bool),
    MirrorSynced(bool),
    PatchChecked(PatchStatus),
    Telemetry(TelemetryProbe),
}

pub struct MachineView<D> {
    pub context: LauncherStateParams,
    pub phase: Phase,
    /// The game's diff, kept when it announces a predownload.
    pub game: Option<D>,
    /// Predownload diffs of the voice packages checked so far.
    pub predownload: Seq<D>,
}

/// What a step leads to.
pub enum Outcome<D> {
    Ask(MachineView<D>, Option<StateUpdating>, Action),
    Finished(Verdict<D>),
}

/// A readiness check in progress.
pub struct Resolver<D> {
    context: LauncherStateParams,
    phase: Phase,
    game: Option<D>,
    predownload: Vec<D>,
}

impl<D> View for Resolver<D> {
    type V = MachineView<D>;

    closed spec fn view(&self) -> MachineView<D> {
        MachineView { context: self.context, phase: self.phase, game: self.game, predownload: self.predownload@ }
    }
}

/// The result of one step.
pub enum Step<D> {
    Ask { next: Resolver<D>, status: Option<StateUpdating>, action: Action },
    Finished(LauncherState<D>),
}

pub open spec fn step_view<D>(s: Step<D>) -> Outcome<D> {
    match s {
        Step::Ask { next, status, action } => Outcome::Ask(next@, status, action),
        Step::Finished(st) => Outcome::Finished(verdict(st)),
    }
}

pub open spec fn at<D>(m: MachineView<D>, phase: Phase) -> MachineView<D> {
    MachineView { context: m.context, phase, game: m.game, predownload: m.predownload }
}

/// All checks passed: a predownload is offered when the game announced one,
/// else the game can launch.
pub open spec fn conclude<D>(m: MachineView<D>) -> Outcome<D> {
    match m.game {
        Some(d) => Outcome::Finished(Verdict::PredownloadAvailable { game: d, voices: m.predownload }),
        None => Outcome::Finished(Verdict::Launch),
    }
}

pub open spec fn enter_telemetry<D>(m: MachineView<D>, status: Option<StateUpdating>) -> Outcome<D> {
    if m.context.telemetry_ignored {
        conclude(m)
    } else {
        Outcome::Ask(at(m, Phase::Telemetry), status, Action::QueryTelemetry)
    }
}

pub open spec fn enter_checks<D>(m: MachineView<D>, j: int, status: Option<StateUpdating>) -> Outcome<D> {
    if j < m.context.patch_checks {
        Outcome::Ask(at(m, Phase::Patch(j as usize)), status, Action::CheckPatch(j as usize))
    } else {
        enter_telemetry(m, status)
    }
}

pub open spec fn enter_patch<D>(m: MachineView<D>) -> Outcome<D> {
    if m.context.patch_servers.len() > 0 {
        Outcome::Ask(at(m, Phase::PatchCache), Some(StateUpdating::Patch), Action::CheckPatchCache)
    } else {
        enter_checks(m, 0, Some(StateUpdating::Patch))
    }
}

pub open spec fn enter_voice<D>(m: MachineView<D>, i: int) -> Outcome<D> {
    if i < m.context.voices.len() {
        Outcome::Ask(at(m, Phase::Voice(i as usize)), Some(StateUpdating::Voice(i as usize)), Action::QueryVoice(i as usize))
    } else {
        enter_patch(m)
    }
}

pub open spec fn ask_game<D>(m: MachineView<D>) -> Outcome<D> {
    Outcome::Ask(at(m, Phase::Game), Some(StateUpdating::Game), Action::QueryGame)
}

/// The question a check waiting in `phase` asks.
pub open spec fn question(phase: Phase) -> Action {
    match phase {
        Phase::Prefix => Action::CheckPrefix,
        Phase::Game => Action::QueryGame,
        Phase::Voice(i) => Action::QueryVoice(i),
        Phase::PatchCache => Action::CheckPatchCache,
        Phase::Mirror(i) => Action::SyncMirror(i),
        Phase::Patch(j) => Action::CheckPatch(j),
        Phase::Telemetry => Action::QueryTelemetry,
    }
}

/// How a check starts: without a runner nothing else is looked at; a managed
/// runner's prefix is not checked.
pub open spec fn begin_outcome<D>(context: LauncherStateParams) -> Outcome<D> {
    let m = MachineView { context, phase: Phase::Prefix, game: None, predownload: seq![] };
    match context.runner {
        None => Outcome::Finished(Verdict::WineNotInstalled),
        Some(r) => if r.managed {
            ask_game(m)
        } else {
            Outcome::Ask(m, None, Action::CheckPrefix)
        },
    }
}

/// How a check on the configured runner starts: an unmanaged runner whose
/// build folder was not found stops it at once in `WineNotInstalled`; otherwise
/// it starts as any check does.
pub open spec fn config_outcome<D>(context: LauncherStateParams, build_downloaded: bool) -> Outcome<D> {
    match context.runner {
        Some(r) => if !r.managed && !build_downloaded {
            Outcome::Finished(Verdict::WineNotInstalled)
        } else {
            begin_outcome(context)
        },
        None => begin_outcome(context),
    }
}

/// How a check goes on from an answer; an answer to another question than the
/// one asked leaves it where it was, asking again.
pub open spec fn transition<D>(m: MachineView<D>, e: Event<D>) -> Outcome<D> {
    match (m.phase, e) {
        (Phase::Prefix, Event::PrefixChecked(exists)) => if exists {
            ask_game(m)
        } else {
            Outcome::Finished(Verdict::PrefixNotExists)
        },
        (Phase::Game, Event::GameDiff(kind, d)) => match kind {
            DiffKind::NotInstalled => Outcome::Finished(Verdict::GameNotInstalled(d)),
            DiffKind::Outdated => Outcome::Finished(Verdict::GameOutdated(d)),
            DiffKind::Diff => Outcome::Finished(Verdict::GameUpdateAvailable(d)),
            DiffKind::Latest => enter_voice(MachineView { game: None, ..m }, 0),
            DiffKind::Predownload => enter_voice(MachineView { game: Some(d), ..m }, 0),
        },
        (Phase::Voice(i), Event::VoiceDiff(kind, d)) => match kind {
            DiffKind::Latest => enter_voice(m, i + 1),
            DiffKind::Predownload => enter_voice(MachineView { predownload: m.predownload.push(d), ..m }, i + 1),
            DiffKind::Diff => Outcome::Finished(Verdict::VoiceUpdateAvailable(d)),
            DiffKind::Outdated => Outcome::Finished(Verdict::VoiceOutdated(d)),
            DiffKind::NotInstalled => Outcome::Finished(Verdict::VoiceNotInstalled(d)),
        },
        (Phase::PatchCache, Event::PatchCacheChecked(synced)) => if synced {
            enter_checks(m, 0, None)
        } else {
            Outcome::Ask(at(m, Phase::Mirror(0)), None, Action::SyncMirror(0))
        },
        (Phase::Mirror(i), Event::MirrorSynced(ok)) => if ok || i + 1 >= m.context.patch_servers.len() {
            enter_checks(m, 0, None)
        } else {
            Outcome::Ask(at(m, Phase::Mirror((i + 1) as usize)), None, Action::SyncMirror((i + 1) as usize))
        },
        (Phase::Patch(j), Event::PatchChecked(s)) => match s {
            PatchStatus::Ready => enter_checks(m, j + 1, None),
            PatchStatus::NotInstalled => Outcome::Finished(Verdict::PatchNotInstalled(j)),
            PatchStatus::UpdateAvailable => Outcome::Finished(Verdict::PatchUpdateAvailable(j)),
            PatchStatus::Unverified => Outcome::Finished(Verdict::PatchNotVerified(j)),
            PatchStatus::Broken => Outcome::Finished(Verdict::PatchBroken(j)),
            PatchStatus::Unsafe => Outcome::Finished(Verdict::PatchUnsafe(j)),
            PatchStatus::Concerning => Outcome::Finished(Verdict::PatchConcerning(j)),
        },
        (Phase::Telemetry, Event::Telemetry(p)) => match p {
            TelemetryProbe::Resolved => Outcome::Finished(Verdict::TelemetryNotDisabled),
            _ => conclude(m),
        },
        _ => Outcome::Ask(m, None, question(m.phase)),
    }
}


impl<D> LauncherState<D> {
    /// Starts a readiness check on the runner of the configuration, where
    /// `build_downloaded` says whether the selected runner's build folder was
    /// found among the downloaded builds.
    pub fn get_from_config(context: LauncherStateParams, build_downloaded: bool) -> (r: Step<D>)
        ensures
            step_view(r) == config_outcome::<D>(context, build_downloaded),
    {
        let missing = match &context.runner {
            Some(r) => !r.managed && !build_downloaded,
            None => false,
        };
        if missing {
            Step::Finished(LauncherState::WineNotInstalled)
        } else {
            LauncherState::get(context)
        }
    }

    /// Starts a readiness check: the runner is looked at first, then the
    /// prefix, unless Steam owns it. The caller answers each question the
    /// returned step asks through `Resolver::step`, until a state comes out.
    pub fn get(context: LauncherStateParams) -> (r: Step<D>)
        ensures
            step_view(r) == begin_outcome::<D>(context),
    {
        let managed = match &context.runner {
            None => {
                return Step::Finished(LauncherState::WineNotInstalled);
            },
            Some(r) => r.managed,
        };
        let m = Resolver { context, phase: Phase::Prefix, game: None, predownload: Vec::new() };
        assert(m@.predownload =~= seq![]);
        if managed {
            m.ask_game()
        } else {
            Step::Ask { next: m, status: None, action: Action::CheckPrefix }
        }
    }
}

impl<D> Resolver<D> {
    fn moved_to(self, phase: Phase) -> (r: Resolver<D>)
        ensures
            r@ == at(self@, phase),
    {
        Resolver { context: self.context, phase, game: self.game, predownload: self.predownload }
    }

    fn conclude(self) -> (r: Step<D>)
        ensures
            step_view(r) == conclude(self@),
    {
        match self.game {
            Some(d) => Step::Finished(LauncherState::PredownloadAvailable { game: d, voices: self.predownload }),
            None => Step::Finished(LauncherState::Launch),
        }
    }

    fn enter_telemetry(self, status: Option<StateUpdating>) -> (r: Step<D>)
        ensures
            step_view(r) == enter_telemetry(self@, status),
    {
        if self.context.telemetry_ignored {
            self.conclude()
        } else {
            Step::Ask { next: self.moved_to(Phase::Telemetry), status, action: Action::QueryTelemetry }
        }
    }

    fn enter_checks(self, j: usize, status: Option<StateUpdating>) -> (r: Step<D>)
        ensures
            step_view(r) == enter_checks(self@, j as int, status),
    {
        if j < self.context.patch_checks {
            Step::Ask { next: self.moved_to(Phase::Patch(j)), status, action: Action::CheckPatch(j) }
        } else {
            self.enter_telemetry(status)
        }
    }

    fn enter_patch(self) -> (r: Step<D>)
        ensures
            step_view(r) == enter_patch(self@),
    {
        if self.context.patch_servers.len() > 0 {
            Step::Ask { next: self.moved_to(Phase::PatchCache), status: Some(StateUpdating::Patch), action: Action::CheckPatchCache }
        } else {
            self.enter_checks(0, Some(StateUpdating::Patch))
        }
    }

    fn enter_voice(self, i: usize) -> (r: Step<D>)
        ensures
            step_view(r) == enter_voice(self@, i as int),
    {
        if i < self.context.voices.len() {
            Step::Ask { next: self.moved_to(Phase::Voice(i)), status: Some(StateUpdating::Voice(i)), action: Action::QueryVoice(i) }
        } else {
            self.enter_patch()
        }
    }

    fn ask_game(self) -> (r: Step<D>)
        ensures
            step_view(r) == ask_game(self@),
    {
        Step::Ask { next: self.moved_to(Phase::Game), status: Some(StateUpdating::Game), action: Action::QueryGame }
    }

    /// The question this check waits on.
    pub fn pending(&self) -> (r: Action)
        ensures
            r == question(self@.phase),
    {
        match self.phase {
            Phase::Prefix => Action::CheckPrefix,
            Phase::Game => Action::QueryGame,
            Phase::Voice(i) => Action::QueryVoice(i),
            Phase::PatchCache => Action::CheckPatchCache,
            Phase::Mirror(i) => Action::SyncMirror(i),
            Phase::Patch(j) => Action::CheckPatch(j),
            Phase::Telemetry => Action::QueryTelemetry,
        }
    }

    /// Takes the answer to the last question and says what comes next: the
    /// next question, or the outcome. Checks run in a fixed order and the first
    /// one that fails ends the run: prefix, game, each voice package, patch
    /// mirrors (errors of one mirror only move on to the next), patch checks,
    /// telemetry.
    pub fn step(self, event: Event<D>) -> (r: Step<D>)
        ensures
            step_view(r) == transition(self@, event),
    {
        match (self.phase, event) {
            (Phase::Prefix, Event::PrefixChecked(exists)) => {
                if exists {
                    self.ask_game()
                } else {
                    Step::Finished(LauncherState::PrefixNotExists)
                }
            },
            (Phase::Game, Event::GameDiff(kind, d)) => match kind {
                DiffKind::NotInstalled => Step::Finished(LauncherState::GameNotInstalled(d)),
                DiffKind::Outdated => Step::Finished(LauncherState::GameOutdated(d)),
                DiffKind::Diff => Step::Finished(LauncherState::GameUpdateAvailable(d)),
                DiffKind::Latest => {
                    let m = Resolver { context: self.context, phase: self.phase, game: None, predownload: self.predownload };
                    m.enter_voice(0)
                },
                DiffKind::Predownload => {
                    let m = Resolver { context: self.context, phase: self.phase, game: Some(d), predownload: self.predownload };
                    m.enter_voice(0)
                },
            },
            (Phase::Voice(i), Event::VoiceDiff(kind, d)) => {
                let next = if i < self.context.voices.len() {
                    i + 1
                } else {
                    i
                };
                match kind {
                    DiffKind::Latest => self.enter_voice(next),
                    DiffKind::Predownload => {
                        let mut predownload = self.predownload;
                        predownload.push(d);
                        let m = Resolver { context: self.context, phase: self.phase, game: self.game, predownload };
                        m.enter_voice(next)
                    },
                    DiffKind::Diff => Step::Finished(LauncherState::VoiceUpdateAvailable(d)),
                    DiffKind::Outdated => Step::Finished(LauncherState::VoiceOutdated(d)),
                    DiffKind::NotInstalled => Step::Finished(LauncherState::VoiceNotInstalled(d)),
                }
            },
            (Phase::PatchCache, Event::PatchCacheChecked(synced)) => {
                if synced {
                    self.enter_checks(0, None)
                } else {
                    Step::Ask { next: self.moved_to(Phase::Mirror(0)), status: None, action: Action::SyncMirror(0) }
                }
            },
            (Phase::Mirror(i), Event::MirrorSynced(ok)) => {
                let n = self.context.patch_servers.len();
                if ok || n == 0 || i >= n - 1 {
                    self.enter_checks(0, None)
                } else {
                    Step::Ask { next: self.moved_to(Phase::Mirror(i + 1)), status: None, action: Action::SyncMirror(i + 1) }
                }
            },
            (Phase::Patch(j), Event::PatchChecked(s)) => match s {
                PatchStatus::Ready => {
                    let next = if j < self.context.patch_checks {
                        j + 1
                    } else {
                        j
                    };
                    self.enter_checks(next, None)
                },
                PatchStatus::NotInstalled => Step::Finished(LauncherState::PatchNotInstalled(j)),
                PatchStatus::UpdateAvailable => Step::Finished(LauncherState::PatchUpdateAvailable(j)),
                PatchStatus::Unverified => Step::Finished(LauncherState::PatchNotVerified(j)),
                PatchStatus::Broken => Step::Finished(LauncherState::PatchBroken(j)),
                PatchStatus::Unsafe => Step::Finished(LauncherState::PatchUnsafe(j)),
                PatchStatus::Concerning => Step::Finished(LauncherState::PatchConcerning(j)),
            },
            (Phase::Telemetry, Event::Telemetry(p)) => match p {
                TelemetryProbe::Resolved => Step::Finished(LauncherState::TelemetryNotDisabled),
                _ => self.conclude(),
            },
            (_, _) => {
                let action = self.pending();
                Step::Ask { next: self, status: None, action }
            },
        }
    }
}


/// The answers the outside world gives to every question of a check.
pub struct World<D> {
    pub prefix_exists: bool,
    pub game_kind: DiffKind,
    pub game: D,
    /// Per selected voice package, in selection order.
    pub voices: Seq<(DiffKind, D)>,
    pub cache_synced: bool,
    /// Whether syncing from each mirror works, in mirror order.
    pub mirrors: Seq<bool>,
    /// Per patch check, in order.
    pub patches: Seq<PatchStatus>,
    pub telemetry: TelemetryProbe,
}

/// The answer `w` gives to a question.
pub open spec fn answer<D>(w: World<D>, a: Action) -> Event<D> {
    match a {
        Action::CheckPrefix => Event::PrefixChecked(w.prefix_exists),
        Action::QueryGame => Event::GameDiff(w.game_kind, w.game),
        Action::QueryVoice(i) => Event::VoiceDiff(w.voices[i as int].0, w.voices[i as int].1),
        Action::CheckPatchCache => Event::PatchCacheChecked(w.cache_synced),
        Action::SyncMirror(i) => Event::MirrorSynced(w.mirrors[i as int]),
        Action::CheckPatch(j) => Event::PatchChecked(w.patches[j as int]),
        Action::QueryTelemetry => Event::Telemetry(w.telemetry),
    }
}

/// Where a check ends when every question is answered from `w`, within `fuel` answers.
pub open spec fn run<D>(o: Outcome<D>, w: World<D>, fuel: nat) -> Option<Verdict<D>>
    decreases fuel,
{
    match o {
        Outcome::Finished(v) => Some(v),
        Outcome::Ask(m, _, a) => if fuel == 0 {
            None
        } else {
            run(transition(m, answer(w, a)), w, (fuel - 1) as nat)
        },
    }
}

pub open spec fn telemetry_verdict<D>(ctx: LauncherStateParams, w: World<D>, game: Option<D>, pre: Seq<D>) -> Verdict<D> {
    if !ctx.telemetry_ignored && w.telemetry == TelemetryProbe::Resolved {
        Verdict::TelemetryNotDisabled
    } else {
        match game {
            Some(d) => Verdict::PredownloadAvailable { game: d, voices: pre },
            None => Verdict::Launch,
        }
    }
}

/// Position of the first patch check from `j` on that does not pass.
pub open spec fn first_problem_from(ps: Seq<PatchStatus>, j: int, n: int) -> Option<int>
    decreases n - j,
{
    if j >= n {
        None
    } else if ps[j] != PatchStatus::Ready {
        Some(j)
    } else {
        first_problem_from(ps, j + 1, n)
    }
}

pub open spec fn patch_verdict<D>(s: PatchStatus, j: usize) -> Verdict<D> {
    match s {
        PatchStatus::NotInstalled => Verdict::PatchNotInstalled(j),
        PatchStatus::UpdateAvailable => Verdict::PatchUpdateAvailable(j),
        PatchStatus::Unverified => Verdict::PatchNotVerified(j),
        PatchStatus::Broken => Verdict::PatchBroken(j),
        PatchStatus::Unsafe => Verdict::PatchUnsafe(j),
        _ => Verdict::PatchConcerning(j),
    }
}

pub open spec fn checks_verdict<D>(ctx: LauncherStateParams, w: World<D>, j: int, game: Option<D>, pre: Seq<D>) -> Verdict<D> {
    match first_problem_from(w.patches, j, ctx.patch_checks as int) {
        Some(k) => patch_verdict(w.patches[k], k as usize),
        None => telemetry_verdict(ctx, w, game, pre),
    }
}

pub open spec fn blocks(k: DiffKind) -> bool {
    k == DiffKind::Diff || k == DiffKind::Outdated || k == DiffKind::NotInstalled
}

/// Position of the first voice package from `i` on that must be downloaded.
pub open spec fn first_blocking_from<D>(vs: Seq<(DiffKind, D)>, i: int, n: int) -> Option<int>
    decreases n - i,
{
    if i >= n {
        None
    } else if blocks(vs[i].0) {
        Some(i)
    } else {
        first_blocking_from(vs, i + 1, n)
    }
}

/// Predownload diffs of the voice packages from `i` on, in order.
pub open spec fn predownloads_from<D>(vs: Seq<(DiffKind, D)>, i: int, n: int) -> Seq<D>
    decreases n - i,
{
    if i >= n {
        seq![]
    } else if vs[i].0 == DiffKind::Predownload {
        seq![vs[i].1] + predownloads_from(vs, i + 1, n)
    } else {
        predownloads_from(vs, i + 1, n)
    }
}

pub open spec fn voice_verdict<D>(k: DiffKind, d: D) -> Verdict<D> {
    match k {
        DiffKind::Diff => Verdict::VoiceUpdateAvailable(d),
        DiffKind::Outdated => Verdict::VoiceOutdated(d),
        _ => Verdict::VoiceNotInstalled(d),
    }
}

pub open spec fn voices_verdict<D>(ctx: LauncherStateParams, w: World<D>, i: int, game: Option<D>, pre: Seq<D>) -> Verdict<D> {
    let n = ctx.voices.len() as int;
    match first_blocking_from(w.voices, i, n) {
        Some(k) => voice_verdict(w.voices[k].0, w.voices[k].1),
        None => checks_verdict(ctx, w, 0, game, pre + predownloads_from(w.voices, i, n)),
    }
}

/// The outcome of a readiness check as a rule: the first check that fails, in
/// the order runner, prefix (not for a managed runner), game, voice packages,
/// patch checks, telemetry (unless ignored), decides; when none fails, a
/// predownload is offered if the game announced one, with the voice packages'
/// predownloads, and otherwise the game launches.
pub open spec fn resolve<D>(ctx: LauncherStateParams, w: World<D>) -> Verdict<D> {
    match ctx.runner {
        None => Verdict::WineNotInstalled,
        Some(r) => if !r.managed && !w.prefix_exists {
            Verdict::PrefixNotExists
        } else {
            match w.game_kind {
                DiffKind::NotInstalled => Verdict::GameNotInstalled(w.game),
                DiffKind::Outdated => Verdict::GameOutdated(w.game),
                DiffKind::Diff => Verdict::GameUpdateAvailable(w.game),
                DiffKind::Latest => voices_verdict(ctx, w, 0, None, seq![]),
                DiffKind::Predownload => voices_verdict(ctx, w, 0, Some(w.game), seq![]),
            }
        },
    }
}

/// Whether `w` answers every question a check under `ctx` can ask.
pub open spec fn answers_all<D>(ctx: LauncherStateParams, w: World<D>) -> bool {
    &&& w.voices.len() >= ctx.voices.len()
    &&& w.mirrors.len() >= ctx.patch_servers.len()
    &&& w.patches.len() >= ctx.patch_checks
}

/// Number of answers a check under `ctx` needs at most.
pub open spec fn answers_needed(ctx: LauncherStateParams) -> nat {
    (ctx.voices.len() + ctx.patch_servers.len() + ctx.patch_checks + 5) as nat
}

proof fn lemma_telemetry<D>(m: MachineView<D>, w: World<D>, s: Option<StateUpdating>, f: nat)
    requires
        f >= 1,
    ensures
        run(enter_telemetry(m, s), w, f) == Some(telemetry_verdict(m.context, w, m.game, m.predownload)),
{
    if !m.context.telemetry_ignored {
        let m2 = at(m, Phase::Telemetry);
        assert(run(enter_telemetry(m, s), w, f) == run(transition(m2, answer(w, Action::QueryTelemetry)), w, (f - 1) as nat));
    }
}

proof fn lemma_checks<D>(m: MachineView<D>, w: World<D>, j: int, s: Option<StateUpdating>, f: nat)
    requires
        0 <= j <= m.context.patch_checks,
        w.patches.len() >= m.context.patch_checks,
        f >= m.context.patch_checks - j + 1,
    ensures
        run(enter_checks(m, j, s), w, f) == Some(checks_verdict(m.context, w, j, m.game, m.predownload)),
    decreases m.context.patch_checks - j,
{
    if j < m.context.patch_checks {
        let m2 = at(m, Phase::Patch(j as usize));
        let e = answer(w, Action::CheckPatch(j as usize));
        assert(run(enter_checks(m, j, s), w, f) == run(transition(m2, e), w, (f - 1) as nat));
        if w.patches[j] == PatchStatus::Ready {
            lemma_checks(m2, w, j + 1, None, (f - 1) as nat);
        }
    } else {
        lemma_telemetry(m, w, s, f);
    }
}

proof fn lemma_mirrors<D>(m: MachineView<D>, w: World<D>, i: int, f: nat)
    requires
        0 <= i < m.context.patch_servers.len(),
        w.mirrors.len() >= m.context.patch_servers.len(),
        w.patches.len() >= m.context.patch_checks,
        f >= m.context.patch_servers.len() - i + m.context.patch_checks + 1,
    ensures
        run(Outcome::Ask(at(m, Phase::Mirror(i as usize)), None, Action::SyncMirror(i as usize)), w, f) == Some(
            checks_verdict(m.context, w, 0, m.game, m.predownload),
        ),
    decreases m.context.patch_servers.len() - i,
{
    let m2 = at(m, Phase::Mirror(i as usize));
    let e = answer(w, Action::SyncMirror(i as usize));
    assert(run(Outcome::Ask(m2, None, Action::SyncMirror(i as usize)), w, f) == run(transition(m2, e), w, (f - 1) as nat));
    if w.mirrors[i] || i + 1 >= m.context.patch_servers.len() {
        lemma_checks(m2, w, 0, None, (f - 1) as nat);
    } else {
        lemma_mirrors(m2, w, i + 1, (f - 1) as nat);
        assert(at(m2, Phase::Mirror((i + 1) as usize)) == at(m, Phase::Mirror((i + 1) as usize)));
    }
}

proof fn lemma_patch<D>(m: MachineView<D>, w: World<D>, f: nat)
    requires
        answers_all(m.context, w),
        f >= m.context.patch_servers.len() + m.context.patch_checks + 2,
    ensures
        run(enter_patch(m), w, f) == Some(checks_verdict(m.context, w, 0, m.game, m.predownload)),
{
    if m.context.patch_servers.len() > 0 {
        let m2 = at(m, Phase::PatchCache);
        let e = answer(w, Action::CheckPatchCache);
        assert(run(enter_patch(m), w, f) == run(transition(m2, e), w, (f - 1) as nat));
        if w.cache_synced {
            lemma_checks(m2, w, 0, None, (f - 1) as nat);
        } else {
            lemma_mirrors(m2, w, 0, (f - 1) as nat);
            assert(at(m2, Phase::Mirror(0)) == at(m, Phase::Mirror(0)));
        }
    } else {
        lemma_checks(m, w, 0, Some(StateUpdating::Patch), f);
    }
}

proof fn lemma_voices<D>(m: MachineView<D>, w: World<D>, i: int, f: nat)
    requires
        0 <= i <= m.context.voices.len(),
        answers_all(m.context, w),
        f >= m.context.voices.len() - i + m.context.patch_servers.len() + m.context.patch_checks + 2,
    ensures
        run(enter_voice(m, i), w, f) == Some(voices_verdict(m.context, w, i, m.game, m.predownload)),
    decreases m.context.voices.len() - i,
{
    let n = m.context.voices.len() as int;
    if i < n {
        let m2 = at(m, Phase::Voice(i as usize));
        let e = answer(w, Action::QueryVoice(i as usize));
        assert(run(enter_voice(m, i), w, f) == run(transition(m2, e), w, (f - 1) as nat));
        let k = w.voices[i].0;
        let d = w.voices[i].1;
        if k == DiffKind::Latest {
            lemma_voices(m2, w, i + 1, (f - 1) as nat);
        } else if k == DiffKind::Predownload {
            let m3 = MachineView { predownload: m2.predownload.push(d), ..m2 };
            lemma_voices(m3, w, i + 1, (f - 1) as nat);
            assert(m.predownload + predownloads_from(w.voices, i, n) =~= m3.predownload + predownloads_from(w.voices, i + 1, n));
        }
    } else {
        lemma_patch(m, w, f);
        assert(m.predownload + predownloads_from(w.voices, i, n) =~= m.predownload);
    }
}

/// A readiness check whose questions are answered from `w` ends, within
/// `answers_needed(ctx)` answers, in the outcome that `resolve` gives.
pub proof fn lemma_check_follows_resolve<D>(ctx: LauncherStateParams, w: World<D>)
    requires
        answers_all(ctx, w),
    ensures
        run(begin_outcome::<D>(ctx), w, answers_needed(ctx)) == Some(resolve(ctx, w)),
{
    let f = answers_needed(ctx);
    let m0 = MachineView::<D> { context: ctx, phase: Phase::Prefix, game: None, predownload: seq![] };
    if let Some(r) = ctx.runner {
        let mg = at(m0, Phase::Game);
        let eg = answer(w, Action::QueryGame);
        if r.managed {
            assert(run(begin_outcome::<D>(ctx), w, f) == run(transition(mg, eg), w, (f - 1) as nat));
            if w.game_kind == DiffKind::Latest {
                lemma_voices(MachineView { game: None, ..mg }, w, 0, (f - 1) as nat);
            } else if w.game_kind == DiffKind::Predownload {
                lemma_voices(MachineView { game: Some(w.game), ..mg }, w, 0, (f - 1) as nat);
            }
        } else {
            let ep = answer(w, Action::CheckPrefix);
            assert(run(begin_outcome::<D>(ctx), w, f) == run(transition(m0, ep), w, (f - 1) as nat));
            if w.prefix_exists {
                assert(run(transition(m0, ep), w, (f - 1) as nat) == run(transition(mg, eg), w, (f - 2) as nat));
                if w.game_kind == DiffKind::Latest {
                    lemma_voices(MachineView { game: None, ..mg }, w, 0, (f - 2) as nat);
                } else if w.game_kind == DiffKind::Predownload {
                    lemma_voices(MachineView { game: Some(w.game), ..mg }, w, 0, (f - 2) as nat);
                }
            }
        }
    }
}


proof fn lemma_all_latest<D>(vs: Seq<(DiffKind, D)>, i: int, n: int)
    requires
        0 <= i <= n <= vs.len(),
        forall|m: int| i <= m < n ==> (#[trigger] vs[m]).0 == DiffKind::Latest,
    ensures
        first_blocking_from(vs, i, n) is None,
        predownloads_from(vs, i, n) == Seq::<D>::empty(),
    decreases n - i,
{
    if i < n {
        lemma_all_latest(vs, i + 1, n);
    }
}

proof fn lemma_all_ready(ps: Seq<PatchStatus>, j: int, n: int)
    requires
        0 <= j <= n <= ps.len(),
        forall|m: int| j <= m < n ==> #[trigger] ps[m] == PatchStatus::Ready,
    ensures
        first_problem_from(ps, j, n) is None,
    decreases n - j,
{
    if j < n {
        lemma_all_ready(ps, j + 1, n);
    }
}

/// Without a selected runner the check ends at once in `WineNotInstalled`,
/// before any question is asked.
pub proof fn lemma_no_runner_asks_nothing<D>(ctx: LauncherStateParams)
    requires
        ctx.runner is None,
    ensures
        begin_outcome::<D>(ctx) == Outcome::<D>::Finished(Verdict::WineNotInstalled),
{
}

/// With an unmanaged runner whose prefix has no `drive_c`, the check ends in
/// `PrefixNotExists` after that one question.
pub proof fn lemma_missing_prefix<D>(ctx: LauncherStateParams, w: World<D>)
    requires
        ctx.runner matches Some(r) && !r.managed,
        !w.prefix_exists,
    ensures
        run(begin_outcome::<D>(ctx), w, 1) == Some(Verdict::<D>::PrefixNotExists),
{
    let m0 = MachineView::<D> { context: ctx, phase: Phase::Prefix, game: None, predownload: seq![] };
    assert(run(begin_outcome::<D>(ctx), w, 1) == run(transition(m0, answer(w, Action::CheckPrefix)), w, 0));
}

/// With a usable prefix and a game that is not installed, the check ends in
/// `GameNotInstalled` within two answers (prefix and game): no voice package,
/// patch or telemetry question is asked.
pub proof fn lemma_game_not_installed<D>(ctx: LauncherStateParams, w: World<D>)
    requires
        ctx.runner matches Some(r) && (r.managed || w.prefix_exists),
        w.game_kind == DiffKind::NotInstalled,
    ensures
        run(begin_outcome::<D>(ctx), w, 2) == Some(Verdict::GameNotInstalled(w.game)),
{
    let m0 = MachineView::<D> { context: ctx, phase: Phase::Prefix, game: None, predownload: seq![] };
    let mg = at(m0, Phase::Game);
    let eg = answer(w, Action::QueryGame);
    if ctx.runner.unwrap().managed {
        assert(run(begin_outcome::<D>(ctx), w, 2) == run(transition(mg, eg), w, 1));
    } else {
        assert(run(begin_outcome::<D>(ctx), w, 2) == run(transition(m0, answer(w, Action::CheckPrefix)), w, 1));
        assert(run(transition(m0, answer(w, Action::CheckPrefix)), w, 1) == run(transition(mg, eg), w, 0));
    }
}

/// With a usable prefix, an up-to-date game and voice packages, every patch
/// check passing and telemetry blocked, the game launches, whichever patch
/// mirrors fail along the way.
pub proof fn lemma_all_current_launches<D>(ctx: LauncherStateParams, w: World<D>)
    requires
        answers_all(ctx, w),
        ctx.runner matches Some(r) && (r.managed || w.prefix_exists),
        w.game_kind == DiffKind::Latest,
        forall|i: int| 0 <= i < ctx.voices.len() ==> (#[trigger] w.voices[i]).0 == DiffKind::Latest,
        forall|j: int| 0 <= j < ctx.patch_checks ==> #[trigger] w.patches[j] == PatchStatus::Ready,
        w.telemetry != TelemetryProbe::Resolved,
    ensures
        run(begin_outcome::<D>(ctx), w, answers_needed(ctx)) == Some(Verdict::<D>::Launch),
{
    lemma_check_follows_resolve(ctx, w);
    lemma_all_latest(w.voices, 0, ctx.voices.len() as int);
    lemma_all_ready(w.patches, 0, ctx.patch_checks as int);
}

/// With a game offering a predownload, two voice packages of which the first
/// offers one and the second is current, every patch check passing and
/// telemetry blocked, a predownload of the game and of that one voice package
/// is offered.
pub proof fn lemma_predownload_offered<D>(ctx: LauncherStateParams, w: World<D>)
    requires
        answers_all(ctx, w),
        ctx.runner matches Some(r) && (r.managed || w.prefix_exists),
        w.game_kind == DiffKind::Predownload,
        ctx.voices.len() == 2,
        w.voices[0].0 == DiffKind::Predownload,
        w.voices[1].0 == DiffKind::Latest,
        forall|j: int| 0 <= j < ctx.patch_checks ==> #[trigger] w.patches[j] == PatchStatus::Ready,
        w.telemetry != TelemetryProbe::Resolved,
    ensures
        run(begin_outcome::<D>(ctx), w, answers_needed(ctx)) == Some(
            Verdict::PredownloadAvailable { game: w.game, voices: seq![w.voices[0].1] },
        ),
{
    lemma_check_follows_resolve(ctx, w);
    lemma_all_latest(w.voices, 1, 2);
    lemma_all_ready(w.patches, 0, ctx.patch_checks as int);
    assert(first_blocking_from(w.voices, 0, 2) is None);
    assert(seq![] + predownloads_from(w.voices, 0, 2) =~= seq![w.voices[0].1]);
}

} // verus!
