use anime_launcher_sdk::readiness::{
    Action, LauncherStateParams, DiffKind, Event, LauncherState, PatchStatus,
    SelectedRunner, StateUpdating, Step, TelemetryProbe,
};

/// Answers the resolver's questions from fixed values and counts them.
struct World {
    prefix_exists: bool,
    game: (DiffKind, &'static str),
    voices: Vec<(DiffKind, &'static str)>,
    cache_synced: bool,
    mirrors_ok: Vec<bool>,
    patches: Vec<PatchStatus>,
    telemetry: TelemetryProbe,
    prefix_checks: usize,
    game_queries: usize,
    voice_queries: usize,
    cache_checks: usize,
    mirror_attempts: Vec<usize>,
    patch_checks: usize,
    telemetry_queries: usize,
    statuses: Vec<StateUpdating>,
}

impl World {
    fn new() -> World {
        World {
            prefix_exists: true,
            game: (DiffKind::Latest, "game"),
            voices: vec![],
            cache_synced: true,
            mirrors_ok: vec![],
            patches: vec![],
            telemetry: TelemetryProbe::Unresolved,
            prefix_checks: 0,
            game_queries: 0,
            voice_queries: 0,
            cache_checks: 0,
            mirror_attempts: vec![],
            patch_checks: 0,
            telemetry_queries: 0,
            statuses: vec![],
        }
    }

    fn answer(&mut self, action: Action) -> Event<&'static str> {
        match action {
            Action::CheckPrefix => {
                self.prefix_checks += 1;
                Event::PrefixChecked(self.prefix_exists)
            }
            Action::QueryGame => {
                self.game_queries += 1;
                Event::GameDiff(self.game.0, self.game.1)
            }
            Action::QueryVoice(i) => {
                self.voice_queries += 1;
                Event::VoiceDiff(self.voices[i].0, self.voices[i].1)
            }
            Action::CheckPatchCache => {
                self.cache_checks += 1;
                Event::PatchCacheChecked(self.cache_synced)
            }
            Action::SyncMirror(i) => {
                self.mirror_attempts.push(i);
                Event::MirrorSynced(self.mirrors_ok[i])
            }
            Action::CheckPatch(j) => {
                self.patch_checks += 1;
                Event::PatchChecked(self.patches[j])
            }
            Action::QueryTelemetry => {
                self.telemetry_queries += 1;
                Event::Telemetry(self.telemetry)
            }
        }
    }

    fn run(&mut self, context: LauncherStateParams) -> LauncherState<&'static str> {
        let mut step = LauncherState::get(context);
        loop {
            match step {
                Step::Finished(state) => return state,
                Step::Ask { next, status, action } => {
                    if let Some(s) = status {
                        self.statuses.push(s);
                    }
                    let event = self.answer(action);
                    step = next.step(event);
                }
            }
        }
    }
}

fn context(runner: Option<bool>, voices: usize, mirrors: usize, patches: usize) -> LauncherStateParams {
    LauncherStateParams {
        runner: runner.map(|managed| SelectedRunner { name: String::from("wine-ge-8-25"), managed }),
        voices: (0..voices).map(|i| format!("voice-{i}")).collect(),
        patch_servers: (0..mirrors).map(|i| format!("https://mirror-{i}.example")).collect(),
        patch_checks: patches,
        telemetry_ignored: false,
    }
}

#[test]
fn no_runner_is_wine_not_installed_before_any_check() {
    let mut world = World::new();
    let state = world.run(context(None, 1, 1, 1));
    assert_eq!(state, LauncherState::WineNotInstalled);
    assert_eq!(world.prefix_checks, 0);
    assert_eq!(world.game_queries, 0);
    assert!(world.statuses.is_empty());
}

#[test]
fn configured_runner_without_its_build_is_wine_not_installed() {
    match LauncherState::<&str>::get_from_config(context(Some(false), 0, 0, 0), false) {
        Step::Finished(state) => assert_eq!(state, LauncherState::WineNotInstalled),
        Step::Ask { .. } => panic!("expected the check to stop"),
    }
    match LauncherState::<&str>::get_from_config(context(Some(true), 0, 0, 0), false) {
        Step::Ask { action, .. } => assert_eq!(action, Action::QueryGame),
        Step::Finished(_) => panic!("a managed runner needs no build folder"),
    }
    match LauncherState::<&str>::get_from_config(context(Some(false), 0, 0, 0), true) {
        Step::Ask { action, .. } => assert_eq!(action, Action::CheckPrefix),
        Step::Finished(_) => panic!("expected the prefix question"),
    }
}

#[test]
fn missing_drive_c_is_prefix_not_exists() {
    let mut world = World::new();
    world.prefix_exists = false;
    let state = world.run(context(Some(false), 1, 1, 1));
    assert_eq!(state, LauncherState::PrefixNotExists);
    assert_eq!(world.prefix_checks, 1);
    assert_eq!(world.game_queries, 0);
}

#[test]
fn managed_runner_skips_prefix_check() {
    let mut world = World::new();
    world.prefix_exists = false;
    let state = world.run(context(Some(true), 0, 0, 0));
    assert_eq!(state, LauncherState::Launch);
    assert_eq!(world.prefix_checks, 0);
    assert_eq!(world.game_queries, 1);
}

#[test]
fn game_not_installed_stops_before_later_checks() {
    let mut world = World::new();
    world.game = (DiffKind::NotInstalled, "fresh-install");
    world.voices = vec![(DiffKind::Latest, "en")];
    world.mirrors_ok = vec![true];
    world.patches = vec![PatchStatus::Ready];
    let state = world.run(context(Some(false), 1, 1, 1));
    assert_eq!(state, LauncherState::GameNotInstalled("fresh-install"));
    assert_eq!(world.game_queries, 1);
    assert_eq!(world.voice_queries, 0);
    assert_eq!(world.cache_checks, 0);
    assert!(world.mirror_attempts.is_empty());
    assert_eq!(world.patch_checks, 0);
    assert_eq!(world.telemetry_queries, 0);
}

#[test]
fn game_outdated_and_update_available() {
    let mut world = World::new();
    world.game = (DiffKind::Outdated, "old");
    assert_eq!(world.run(context(Some(false), 0, 0, 0)), LauncherState::GameOutdated("old"));
    let mut world = World::new();
    world.game = (DiffKind::Diff, "update");
    assert_eq!(world.run(context(Some(false), 0, 0, 0)), LauncherState::GameUpdateAvailable("update"));
}

#[test]
fn launch_after_second_mirror_syncs() {
    let mut world = World::new();
    world.voices = vec![(DiffKind::Latest, "en"), (DiffKind::Latest, "ja")];
    world.cache_synced = false;
    world.mirrors_ok = vec![false, true];
    world.patches = vec![PatchStatus::Ready];
    world.telemetry = TelemetryProbe::Unresolved;
    let state = world.run(context(Some(false), 2, 2, 1));
    assert_eq!(state, LauncherState::Launch);
    assert_eq!(world.mirror_attempts, vec![0, 1]);
    assert_eq!(world.patch_checks, 1);
    assert_eq!(world.telemetry_queries, 1);
    assert_eq!(
        world.statuses,
        vec![StateUpdating::Game, StateUpdating::Voice(0), StateUpdating::Voice(1), StateUpdating::Patch]
    );
}

#[test]
fn first_mirror_success_stops_the_sync() {
    let mut world = World::new();
    world.cache_synced = false;
    world.mirrors_ok = vec![true, true];
    let state = world.run(context(Some(false), 0, 2, 0));
    assert_eq!(state, LauncherState::Launch);
    assert_eq!(world.mirror_attempts, vec![0]);
}

#[test]
fn every_mirror_failing_still_goes_on() {
    let mut world = World::new();
    world.cache_synced = false;
    world.mirrors_ok = vec![false, false];
    world.patches = vec![PatchStatus::Ready];
    let state = world.run(context(Some(false), 0, 2, 1));
    assert_eq!(state, LauncherState::Launch);
    assert_eq!(world.mirror_attempts, vec![0, 1]);
    assert_eq!(world.patch_checks, 1);
}

#[test]
fn synced_cache_tries_no_mirror() {
    let mut world = World::new();
    world.cache_synced = true;
    world.mirrors_ok = vec![false];
    let state = world.run(context(Some(false), 0, 1, 0));
    assert_eq!(state, LauncherState::Launch);
    assert_eq!(world.cache_checks, 1);
    assert!(world.mirror_attempts.is_empty());
}

#[test]
fn predownload_collects_voice_predownloads() {
    let mut world = World::new();
    world.game = (DiffKind::Predownload, "game-4.1");
    world.voices = vec![(DiffKind::Predownload, "ja-4.1"), (DiffKind::Latest, "en")];
    world.patches = vec![PatchStatus::Ready];
    world.telemetry = TelemetryProbe::Unresolved;
    let state = world.run(context(Some(false), 2, 0, 1));
    assert_eq!(
        state,
        LauncherState::PredownloadAvailable { game: "game-4.1", voices: vec!["ja-4.1"] }
    );
}

#[test]
fn first_blocking_voice_wins() {
    let mut world = World::new();
    world.voices = vec![(DiffKind::Latest, "en"), (DiffKind::Outdated, "ja"), (DiffKind::NotInstalled, "ko")];
    let state = world.run(context(Some(false), 3, 0, 0));
    assert_eq!(state, LauncherState::VoiceOutdated("ja"));
    assert_eq!(world.voice_queries, 2);
}

#[test]
fn voice_update_and_voice_not_installed() {
    let mut world = World::new();
    world.voices = vec![(DiffKind::Diff, "en")];
    assert_eq!(world.run(context(Some(false), 1, 0, 0)), LauncherState::VoiceUpdateAvailable("en"));
    let mut world = World::new();
    world.voices = vec![(DiffKind::NotInstalled, "zh")];
    assert_eq!(world.run(context(Some(false), 1, 0, 0)), LauncherState::VoiceNotInstalled("zh"));
}

#[test]
fn each_patch_problem_has_its_state() {
    let cases = [
        (PatchStatus::NotInstalled, LauncherState::PatchNotInstalled(1)),
        (PatchStatus::UpdateAvailable, LauncherState::PatchUpdateAvailable(1)),
        (PatchStatus::Unverified, LauncherState::PatchNotVerified(1)),
        (PatchStatus::Broken, LauncherState::PatchBroken(1)),
        (PatchStatus::Unsafe, LauncherState::PatchUnsafe(1)),
        (PatchStatus::Concerning, LauncherState::PatchConcerning(1)),
    ];
    for (status, expected) in cases {
        let mut world = World::new();
        world.patches = vec![PatchStatus::Ready, status, PatchStatus::Ready];
        let state = world.run(context(Some(false), 0, 0, 3));
        assert_eq!(state, expected);
        assert_eq!(world.patch_checks, 2);
        assert_eq!(world.telemetry_queries, 0);
    }
}

#[test]
fn reachable_telemetry_blocks_launch() {
    let mut world = World::new();
    world.telemetry = TelemetryProbe::Resolved;
    assert_eq!(world.run(context(Some(false), 0, 0, 0)), LauncherState::TelemetryNotDisabled);
}

#[test]
fn telemetry_lookup_failure_counts_as_disabled() {
    let mut world = World::new();
    world.telemetry = TelemetryProbe::Failed;
    assert_eq!(world.run(context(Some(false), 0, 0, 0)), LauncherState::Launch);
}

#[test]
fn ignored_telemetry_is_not_probed() {
    let mut world = World::new();
    world.telemetry = TelemetryProbe::Resolved;
    let mut ctx = context(Some(false), 0, 0, 0);
    ctx.telemetry_ignored = true;
    assert_eq!(world.run(ctx), LauncherState::Launch);
    assert_eq!(world.telemetry_queries, 0);
}

#[test]
fn answer_to_another_question_asks_again() {
    let first = LauncherState::<&str>::get(context(Some(false), 0, 0, 0));
    let next = match first {
        Step::Ask { next, action, .. } => {
            assert_eq!(action, Action::CheckPrefix);
            next
        }
        Step::Finished(_) => panic!("expected a question"),
    };
    match next.step(Event::Telemetry(TelemetryProbe::Resolved)) {
        Step::Ask { next, status, action } => {
            assert_eq!(action, Action::CheckPrefix);
            assert_eq!(status, None);
            assert_eq!(next.pending(), Action::CheckPrefix);
        }
        Step::Finished(_) => panic!("expected the same question again"),
    }
}
