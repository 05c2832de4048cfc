use proxide::config::{AppConfig, ConfigError, ServerConfig};
use proxide::reload::{
    Generation, GenerationPhase, Orchestrator, ReloadAction, ReloadEvent, ReloadFailure, Stage,
};
use proxide::supervisor::{SupervisorAction, SupervisorEvent, SupervisorState};

fn route(name: &str, listen: &str, upstream: &str) -> (String, ServerConfig) {
    (
        name.to_string(),
        ServerConfig { listen: listen.to_string(), upstream: upstream.to_string() },
    )
}

fn first_config() -> AppConfig {
    AppConfig {
        servers: vec![
            route("api", "127.0.0.1:8080", "127.0.0.1:9090"),
            route("web", "127.0.0.1:8081", "127.0.0.1:9091"),
        ],
    }
}

fn second_config() -> AppConfig {
    AppConfig {
        servers: vec![
            route("api", "127.0.0.1:8080", "127.0.0.1:9095"),
            route("admin", "127.0.0.1:8082", "127.0.0.1:9092"),
            route("web", "127.0.0.1:8081", "127.0.0.1:9091"),
        ],
    }
}

fn colliding_config() -> AppConfig {
    AppConfig {
        servers: vec![
            route("api", "127.0.0.1:8080", "127.0.0.1:9090"),
            route("web", "127.0.0.1:8080", "127.0.0.1:9091"),
        ],
    }
}

/// An orchestrator whose first generation is up and serving.
fn serving() -> Orchestrator {
    let mut orchestrator = Orchestrator::start(first_config()).unwrap();
    for route in 0..2 {
        assert_eq!(
            orchestrator.observe(0, route, SupervisorEvent::Ready),
            Some(SupervisorAction::Serve)
        );
    }
    orchestrator
}

/// The listen addresses that are held at this moment.
fn open_listeners(orchestrator: &Orchestrator) -> Vec<String> {
    let generation = &orchestrator.current;
    let mut open = Vec::new();
    for (route, state) in generation.states.iter().enumerate() {
        if matches!(state, SupervisorState::Serving | SupervisorState::Draining) {
            open.push(generation.config.servers[route].1.listen.clone());
        }
    }
    open
}

fn assert_no_collision(orchestrator: &Orchestrator) {
    let open = open_listeners(orchestrator);
    for one in 0..open.len() {
        for other in 0..one {
            assert_ne!(open[one], open[other]);
        }
    }
}

#[test]
fn start_builds_generation_zero() {
    let orchestrator = Orchestrator::start(first_config()).unwrap();
    assert_eq!(orchestrator.stage, Stage::Idle);
    assert_eq!(orchestrator.current.id, 0);
    assert_eq!(orchestrator.current.config, first_config());
    assert_eq!(
        orchestrator.current.states,
        vec![SupervisorState::Starting, SupervisorState::Starting]
    );
    assert!(!orchestrator.current.signalled);
    assert_eq!(orchestrator.current.phase(), GenerationPhase::Active);
}

#[test]
fn start_refuses_a_snapshot_that_cannot_be_served() {
    assert_eq!(
        Orchestrator::start(colliding_config()),
        Err(ConfigError::DuplicateListen { address: "127.0.0.1:8080".to_string() })
    );
}

#[test]
fn spawned_generation_has_every_supervisor_starting() {
    let generation = Generation::spawn(7, second_config());
    assert_eq!(generation.id, 7);
    assert_eq!(generation.config, second_config());
    assert_eq!(generation.states, vec![SupervisorState::Starting; 3]);
    assert!(!generation.signalled);
    assert!(!generation.all_terminated());
    let empty = Generation::spawn(1, AppConfig { servers: Vec::new() });
    assert!(empty.states.is_empty());
    assert!(empty.all_terminated());
}

#[test]
fn valid_reload_replaces_the_generation() {
    let mut orchestrator = serving();
    assert_eq!(open_listeners(&orchestrator), vec!["127.0.0.1:8080", "127.0.0.1:8081"]);

    assert_eq!(orchestrator.step(ReloadEvent::Trigger), Some(ReloadAction::Load));
    assert_eq!(orchestrator.stage, Stage::Loading);
    assert_eq!(
        orchestrator.step(ReloadEvent::Loaded(second_config())),
        Some(ReloadAction::SignalShutdown { generation: 0 })
    );
    assert_eq!(orchestrator.stage, Stage::Draining { next: second_config() });
    assert!(orchestrator.current.signalled);
    assert_eq!(orchestrator.current.phase(), GenerationPhase::Draining);
    assert_no_collision(&orchestrator);

    // Not yet: the supervisors of generation 0 still hold their listeners.
    assert_eq!(orchestrator.step(ReloadEvent::Joined), None);
    assert_eq!(orchestrator.current.id, 0);

    for route in 0..2 {
        assert_eq!(
            orchestrator.observe(0, route, SupervisorEvent::Shutdown),
            Some(SupervisorAction::StopAccepting)
        );
        assert_no_collision(&orchestrator);
    }
    assert_eq!(orchestrator.step(ReloadEvent::Joined), None);
    for route in 0..2 {
        assert_eq!(
            orchestrator.observe(0, route, SupervisorEvent::Drained),
            Some(SupervisorAction::Finish)
        );
    }
    assert_eq!(orchestrator.current.phase(), GenerationPhase::Terminated);
    assert_eq!(open_listeners(&orchestrator), Vec::<String>::new());

    assert_eq!(
        orchestrator.step(ReloadEvent::Joined),
        Some(ReloadAction::Activate { generation: 1 })
    );
    assert_eq!(orchestrator.stage, Stage::Idle);
    assert_eq!(orchestrator.current.id, 1);
    assert_eq!(orchestrator.current.config, second_config());
    assert_eq!(orchestrator.current.states, vec![SupervisorState::Starting; 3]);
    assert!(!orchestrator.current.signalled);

    for route in 0..3 {
        assert_eq!(
            orchestrator.observe(1, route, SupervisorEvent::Ready),
            Some(SupervisorAction::Serve)
        );
        assert_no_collision(&orchestrator);
    }
    assert_eq!(
        open_listeners(&orchestrator),
        vec!["127.0.0.1:8080", "127.0.0.1:8082", "127.0.0.1:8081"]
    );
}

#[test]
fn unreadable_configuration_leaves_the_generation_serving() {
    let mut orchestrator = serving();
    let before = serving();
    assert_eq!(orchestrator.step(ReloadEvent::Trigger), Some(ReloadAction::Load));
    assert_eq!(
        orchestrator.step(ReloadEvent::LoadFailed),
        Some(ReloadAction::Report(ReloadFailure::LoadFailed))
    );
    assert_eq!(orchestrator, before);
    assert_eq!(open_listeners(&orchestrator), vec!["127.0.0.1:8080", "127.0.0.1:8081"]);
    assert_eq!(orchestrator.current.phase(), GenerationPhase::Active);
}

#[test]
fn configuration_that_cannot_be_served_leaves_the_generation_serving() {
    let mut orchestrator = serving();
    let before = serving();
    assert_eq!(orchestrator.step(ReloadEvent::Trigger), Some(ReloadAction::Load));
    assert_eq!(
        orchestrator.step(ReloadEvent::Loaded(colliding_config())),
        Some(ReloadAction::Report(ReloadFailure::Invalid(ConfigError::DuplicateListen {
            address: "127.0.0.1:8080".to_string()
        })))
    );
    assert_eq!(orchestrator, before);
    assert_eq!(open_listeners(&orchestrator), vec!["127.0.0.1:8080", "127.0.0.1:8081"]);
}

#[test]
fn reload_can_be_tried_again_after_a_failure() {
    let mut orchestrator = serving();
    assert_eq!(orchestrator.step(ReloadEvent::Trigger), Some(ReloadAction::Load));
    assert_eq!(
        orchestrator.step(ReloadEvent::LoadFailed),
        Some(ReloadAction::Report(ReloadFailure::LoadFailed))
    );
    assert_eq!(orchestrator.step(ReloadEvent::Trigger), Some(ReloadAction::Load));
    assert_eq!(
        orchestrator.step(ReloadEvent::Loaded(second_config())),
        Some(ReloadAction::SignalShutdown { generation: 0 })
    );
}

#[test]
fn only_one_reload_is_under_way_at_a_time() {
    let mut orchestrator = serving();
    assert_eq!(orchestrator.step(ReloadEvent::Trigger), Some(ReloadAction::Load));
    assert_eq!(orchestrator.step(ReloadEvent::Trigger), None);
    assert_eq!(orchestrator.stage, Stage::Loading);
    assert_eq!(
        orchestrator.step(ReloadEvent::Loaded(second_config())),
        Some(ReloadAction::SignalShutdown { generation: 0 })
    );
    assert_eq!(orchestrator.step(ReloadEvent::Trigger), None);
    assert_eq!(orchestrator.step(ReloadEvent::Loaded(first_config())), None);
    assert_eq!(orchestrator.step(ReloadEvent::LoadFailed), None);
    assert_eq!(orchestrator.stage, Stage::Draining { next: second_config() });
}

#[test]
fn reload_events_out_of_turn_change_nothing() {
    let mut orchestrator = serving();
    let before = serving();
    assert_eq!(orchestrator.step(ReloadEvent::Loaded(second_config())), None);
    assert_eq!(orchestrator.step(ReloadEvent::LoadFailed), None);
    assert_eq!(orchestrator.step(ReloadEvent::Joined), None);
    assert_eq!(orchestrator, before);
}

#[test]
fn reports_from_another_generation_are_refused() {
    let mut orchestrator = serving();
    let before = serving();
    assert_eq!(orchestrator.observe(1, 0, SupervisorEvent::Shutdown), None);
    assert_eq!(orchestrator.observe(0, 2, SupervisorEvent::Shutdown), None);
    assert_eq!(orchestrator.observe(0, usize::MAX, SupervisorEvent::Ready), None);
    assert_eq!(orchestrator.observe(0, 0, SupervisorEvent::Ready), None);
    assert_eq!(orchestrator, before);
}

#[test]
fn route_that_fails_to_start_leaves_the_others_alone() {
    let mut orchestrator = Orchestrator::start(first_config()).unwrap();
    assert_eq!(
        orchestrator.observe(0, 0, SupervisorEvent::StartFailed),
        Some(SupervisorAction::Fail)
    );
    assert_eq!(
        orchestrator.observe(0, 1, SupervisorEvent::Ready),
        Some(SupervisorAction::Serve)
    );
    assert_eq!(
        orchestrator.current.states,
        vec![SupervisorState::Terminated, SupervisorState::Serving]
    );
    assert_eq!(open_listeners(&orchestrator), vec!["127.0.0.1:8081"]);
    assert_eq!(orchestrator.current.phase(), GenerationPhase::Active);
}

#[test]
fn late_starter_of_a_signalled_generation_terminates_at_once() {
    let mut orchestrator = Orchestrator::start(first_config()).unwrap();
    assert_eq!(
        orchestrator.observe(0, 0, SupervisorEvent::Ready),
        Some(SupervisorAction::Serve)
    );
    assert_eq!(orchestrator.step(ReloadEvent::Trigger), Some(ReloadAction::Load));
    assert_eq!(
        orchestrator.step(ReloadEvent::Loaded(second_config())),
        Some(ReloadAction::SignalShutdown { generation: 0 })
    );
    // Route 1 finishes binding only now.
    assert_eq!(
        orchestrator.observe(0, 1, SupervisorEvent::Ready),
        Some(SupervisorAction::Finish)
    );
    assert_eq!(
        orchestrator.current.states,
        vec![SupervisorState::Serving, SupervisorState::Terminated]
    );
    assert_eq!(
        orchestrator.observe(0, 0, SupervisorEvent::Shutdown),
        Some(SupervisorAction::StopAccepting)
    );
    assert_eq!(
        orchestrator.observe(0, 0, SupervisorEvent::Drained),
        Some(SupervisorAction::Finish)
    );
    assert_eq!(
        orchestrator.step(ReloadEvent::Joined),
        Some(ReloadAction::Activate { generation: 1 })
    );
}

#[test]
fn generation_without_routes_hands_over_at_once() {
    let mut orchestrator = Orchestrator::start(AppConfig { servers: Vec::new() }).unwrap();
    assert_eq!(orchestrator.step(ReloadEvent::Trigger), Some(ReloadAction::Load));
    assert_eq!(
        orchestrator.step(ReloadEvent::Loaded(first_config())),
        Some(ReloadAction::SignalShutdown { generation: 0 })
    );
    assert_eq!(
        orchestrator.step(ReloadEvent::Joined),
        Some(ReloadAction::Activate { generation: 1 })
    );
    assert_eq!(orchestrator.current.config, first_config());
}

#[test]
fn generation_numbers_are_never_reused() {
    let mut orchestrator = Orchestrator::start(AppConfig { servers: Vec::new() }).unwrap();
    for expected in 1..50u64 {
        assert_eq!(orchestrator.step(ReloadEvent::Trigger), Some(ReloadAction::Load));
        assert_eq!(
            orchestrator.step(ReloadEvent::Loaded(AppConfig { servers: Vec::new() })),
            Some(ReloadAction::SignalShutdown { generation: expected - 1 })
        );
        assert_eq!(
            orchestrator.step(ReloadEvent::Joined),
            Some(ReloadAction::Activate { generation: expected })
        );
        assert_eq!(orchestrator.current.id, expected);
    }
}

#[test]
fn last_generation_number_refuses_a_reload() {
    let mut orchestrator = Orchestrator {
        current: Generation::spawn(u64::MAX, first_config()),
        stage: Stage::Loading,
    };
    assert_eq!(
        orchestrator.step(ReloadEvent::Loaded(second_config())),
        Some(ReloadAction::Report(ReloadFailure::GenerationsExhausted))
    );
    assert_eq!(orchestrator.stage, Stage::Idle);
    assert_eq!(orchestrator.current, Generation::spawn(u64::MAX, first_config()));
}

#[test]
fn generation_observe_follows_the_supervisor_rule() {
    let mut generation = Generation::spawn(3, first_config());
    assert_eq!(generation.observe(0, SupervisorEvent::Ready), Some(SupervisorAction::Serve));
    assert_eq!(generation.observe(0, SupervisorEvent::Drained), None);
    assert_eq!(generation.observe(5, SupervisorEvent::Ready), None);
    assert_eq!(
        generation.states,
        vec![SupervisorState::Serving, SupervisorState::Starting]
    );
    assert_eq!(
        generation.observe(0, SupervisorEvent::Shutdown),
        Some(SupervisorAction::StopAccepting)
    );
    assert_eq!(generation.observe(0, SupervisorEvent::Drained), Some(SupervisorAction::Finish));
    assert_eq!(generation.observe(1, SupervisorEvent::StartFailed), Some(SupervisorAction::Fail));
    assert!(generation.all_terminated());
    assert_eq!(generation.phase(), GenerationPhase::Active);
    assert_eq!(generation.id, 3);
}
