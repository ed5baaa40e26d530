use blueprint_sim::global::{GlobalCameraOrders, GlobalRenderLayers, GlobalSystemSet, RenderLayers, UiCameras, DEFAULT_PORT, PIXEL_SIZE, PROTOCOL_ID};
use blueprint_sim::hydration::CorePlugin;
use blueprint_sim::physics::PhysicsSet;
use blueprint_sim::players::spawn_points::SpawnPointsPlugin;
use blueprint_sim::players::PlayerPlugins;
use blueprint_sim::schedule::{App, Data, Phase, ScheduleError, System, SystemDescriptor, SystemId};
use blueprint_sim::states::GlobalGameStates;
use blueprint_sim::MainPlugin;

fn system(n: u32, phase: Phase) -> SystemDescriptor {
    SystemDescriptor::new(System::External(n), phase)
}

fn order_of(app: App) -> Vec<System> {
    let pipeline = app.build().unwrap();
    (0..pipeline.len()).map(|at| pipeline.system_at(at).unwrap().1).collect()
}

#[test]
fn two_writers_of_one_phase_fail_the_build() {
    let mut app = App::new();
    let a = app.add_system(system(1, Phase::ExecuteGameLogic).writing(Data::Other(7))).unwrap();
    let b = app.add_system(system(2, Phase::ExecuteGameLogic).reading(Data::Input).writing(Data::Other(7))).unwrap();
    assert_eq!(a, SystemId::from_index(0));
    assert_eq!(b, SystemId::from_index(1));
    assert_eq!(app.build().err(), Some(ScheduleError::SchedulingAmbiguity { first: a, second: b }));
}

#[test]
fn a_writer_and_a_reader_of_one_phase_fail_the_build() {
    let mut app = App::new();
    app.add_system(system(1, Phase::PlayerMovement).reading(Data::Forces)).unwrap();
    app.add_system(system(2, Phase::PlayerMovement).reading(Data::Forces)).unwrap();
    app.add_system(system(3, Phase::PlayerMovement).writing(Data::Forces)).unwrap();
    assert_eq!(
        app.build().err(),
        Some(ScheduleError::SchedulingAmbiguity { first: SystemId::from_index(0), second: SystemId::from_index(2) })
    );
}

#[test]
fn a_declared_order_settles_a_conflict() {
    let mut app = App::new();
    let a = app.add_system(system(1, Phase::ExecuteGameLogic).writing(Data::Players)).unwrap();
    let b = app.add_system(system(2, Phase::ExecuteGameLogic).writing(Data::Players).after(a)).unwrap();
    // through the one in the middle
    app.add_system(system(3, Phase::ExecuteGameLogic).writing(Data::Players).after(b)).unwrap();
    assert_eq!(order_of(app), vec![System::External(1), System::External(2), System::External(3)]);
}

#[test]
fn systems_that_share_nothing_or_only_read_do_not_conflict() {
    let mut app = App::new();
    app.add_system(system(1, Phase::Send).reading(Data::Players).writing(Data::Network)).unwrap();
    app.add_system(system(2, Phase::Receive).writing(Data::Network)).unwrap();
    app.add_system(system(3, Phase::ExecuteGameLogic).reading(Data::Players).writing(Data::Other(1))).unwrap();
    app.add_system(system(4, Phase::ExecuteGameLogic).reading(Data::Players).writing(Data::Other(2))).unwrap();
    app.add_system(system(5, Phase::Physics(PhysicsSet::Sync)).writing(Data::Motion)).unwrap();
    app.add_system(system(6, Phase::Physics(PhysicsSet::Prepare)).writing(Data::Motion)).unwrap();
    app.add_system(system(7, Phase::WorldCreation).writing(Data::Motion)).unwrap();
    assert_eq!(
        order_of(app),
        vec![
            System::External(2),
            System::External(7),
            System::External(6),
            System::External(5),
            System::External(3),
            System::External(4),
            System::External(1),
        ]
    );
}

#[test]
fn an_order_on_an_unknown_system_is_refused() {
    let mut app = App::new();
    let first = app.add_system(system(1, Phase::ExecuteGameLogic)).unwrap();
    assert_eq!(
        app.add_system(system(2, Phase::ExecuteGameLogic).after(SystemId::from_index(5))).err(),
        Some(ScheduleError::UnknownOrder)
    );
    assert_eq!(
        app.add_system(system(3, Phase::BlueprintExpansion).after(first)).err(),
        Some(ScheduleError::UnknownOrder)
    );
    assert_eq!(app.len(), 1);
}

#[test]
fn the_main_plugin_builds_a_pipeline() {
    let mut app = App::new();
    MainPlugin.build(&mut app);
    assert_eq!(app.len(), 6);
    let pipeline = app.build().unwrap();
    let order: Vec<(System, Phase)> =
        (0..pipeline.len()).map(|at| pipeline.system_at(at).unwrap()).map(|(_, s, p)| (s, p)).collect();
    assert_eq!(
        order,
        vec![
            (System::CreationSpawnPoints, Phase::WorldCreation),
            (System::FilterNonOccupiedCollisions, Phase::Physics(PhysicsSet::StepSimulation)),
            (System::HydratePlayers, Phase::BlueprintExpansion),
            (System::HydrateStructureBlocks, Phase::BlueprintExpansion),
            (System::HydrateThrusterBlocks, Phase::BlueprintExpansion),
            (System::HydrateSpawnPoints, Phase::BlueprintExpansion),
        ]
    );
    assert_eq!(pipeline.system_at(6), None);
    assert_eq!(pipeline.system_at(0).unwrap().0, SystemId::from_index(1));
    assert!(pipeline.replay_order().is_empty());
}

#[test]
fn hydration_without_its_order_would_be_ambiguous() {
    let mut app = App::new();
    app.add_system(
        SystemDescriptor::new(System::HydratePlayers, Phase::BlueprintExpansion).writing(Data::AssetCache),
    )
    .unwrap();
    app.add_system(
        SystemDescriptor::new(System::HydrateStructureBlocks, Phase::BlueprintExpansion).writing(Data::AssetCache),
    )
    .unwrap();
    assert!(matches!(app.build(), Err(ScheduleError::SchedulingAmbiguity { .. })));

    let mut chained = App::new();
    CorePlugin.build(&mut chained);
    assert_eq!(chained.len(), 4);
    assert!(chained.build().is_ok());
}

#[test]
fn the_plugins_of_the_players_declare_the_spawn_points() {
    let mut app = App::new();
    PlayerPlugins.build(&mut app);
    let mut same = App::new();
    SpawnPointsPlugin.build(&mut same);
    assert_eq!(app.len(), 2);
    assert_eq!(order_of(app), order_of(same));
}

#[test]
fn a_rollback_runs_the_game_logic_again_and_nothing_else() {
    let mut app = App::new();
    MainPlugin.build(&mut app);
    let rule_a = app.add_system(system(1, Phase::ExecuteGameLogic).writing(Data::SpawnPoints)).unwrap();
    app.add_system(system(2, Phase::Receive).writing(Data::Network)).unwrap();
    let rule_b = app.add_system(system(3, Phase::ExecuteGameLogic).writing(Data::SpawnPoints).after(rule_a)).unwrap();
    app.add_system(system(4, Phase::Send).reading(Data::Network)).unwrap();
    let pipeline = app.build().unwrap();
    assert_eq!(pipeline.replay_order(), vec![rule_a, rule_b]);
    let first = pipeline.system_at(0).unwrap();
    assert_eq!((first.1, first.2), (System::External(2), Phase::Receive));
    let last = pipeline.system_at(pipeline.len() - 1).unwrap();
    assert_eq!((last.1, last.2), (System::External(4), Phase::Send));
}

#[test]
fn the_phases_run_in_their_order() {
    let phases = [
        Phase::Receive,
        Phase::WorldCreation,
        Phase::PlayerMovement,
        Phase::Physics(PhysicsSet::Prepare),
        Phase::Physics(PhysicsSet::StepSimulation),
        Phase::Physics(PhysicsSet::Sync),
        Phase::ExecuteGameLogic,
        Phase::BlueprintExpansion,
        Phase::Send,
    ];
    for (place, phase) in phases.iter().enumerate() {
        assert_eq!(phase.rank() as usize, place);
        assert_eq!(phase.is_replayed(), *phase == Phase::ExecuteGameLogic);
    }
    assert_eq!(Phase::Receive.global(), None);
    assert_eq!(Phase::Send.global(), None);
    assert_eq!(Phase::Physics(PhysicsSet::Sync).global(), Some(GlobalSystemSet::RawPhysics));
    assert_eq!(Phase::BlueprintExpansion.global(), Some(GlobalSystemSet::BlueprintExpansion));
    let sets = [
        GlobalSystemSet::WorldCreation,
        GlobalSystemSet::PlayerMovement,
        GlobalSystemSet::RawPhysics,
        GlobalSystemSet::ExecuteGameLogic,
        GlobalSystemSet::BlueprintExpansion,
    ];
    for (place, set) in sets.iter().enumerate() {
        assert_eq!(set.rank() as usize, place);
    }
    assert_eq!(PhysicsSet::Prepare.rank(), 0);
    assert_eq!(PhysicsSet::StepSimulation.rank(), 1);
    assert_eq!(PhysicsSet::Sync.rank(), 2);
}

#[test]
fn every_camera_draws_on_its_own_layer() {
    let cameras = UiCameras::iter();
    assert_eq!(cameras.len(), 9);
    assert_eq!(cameras[0], UiCameras::TopLeft);
    assert_eq!(cameras[4], UiCameras::Center);
    assert_eq!(cameras[8], UiCameras::BottomRight);
    for (i, camera) in cameras.iter().enumerate() {
        assert_eq!(camera.ordinal() as usize, i + 1);
        assert_eq!(RenderLayers::from(GlobalRenderLayers::Ui(*camera)).mask, 1u32 << (i + 1));
        assert_eq!(isize::from(GlobalCameraOrders::Ui(*camera)), i as isize + 1);
    }
    assert_eq!(RenderLayers::from(GlobalRenderLayers::InGame), RenderLayers::default());
    assert_eq!(RenderLayers::default().mask, 1);
    assert_eq!(RenderLayers::layer(31).mask, 0x8000_0000);
    assert_eq!(isize::from(GlobalCameraOrders::InGame), 0);
}

#[test]
fn the_constants_are_what_they_are() {
    assert_eq!(DEFAULT_PORT, 5069);
    assert_eq!(PROTOCOL_ID, 0);
    assert_eq!(PIXEL_SIZE, 1.0f32.to_bits());
}

#[test]
fn options_on_the_command_line_start_the_game_right_away() {
    assert_eq!(GlobalGameStates::initial(0), GlobalGameStates::StartMenu);
    assert_eq!(GlobalGameStates::initial(1), GlobalGameStates::StartMenu);
    assert_eq!(GlobalGameStates::initial(2), GlobalGameStates::InGame);
    assert_eq!(GlobalGameStates::initial(9), GlobalGameStates::InGame);
    assert_eq!(GlobalGameStates::default(), GlobalGameStates::StartMenu);
}
