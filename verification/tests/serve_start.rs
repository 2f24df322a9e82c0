use terax::serve::{
    bind_address, bind_failure, first_found, gateway_home_candidates, resolve_port, resolve_start_dir,
    select_dist_dir, served_url, start_expects, start_gateway_begin, start_gateway_step, StartAction,
    StartEvent, StartPhase, StartState,
};

#[test]
fn home_candidates_in_order() {
    assert_eq!(gateway_home_candidates(), vec!["Projects/ai-workstation".to_string(), "ai-workstation".to_string()]);
}

#[test]
fn first_found_picks_earliest() {
    assert_eq!(first_found(&vec![]), None);
    assert_eq!(first_found(&vec![false, false]), None);
    assert_eq!(first_found(&vec![false, true, true]), Some(1));
    assert_eq!(first_found(&vec![true, true]), Some(0));
}

#[test]
fn dist_dir_selection() {
    assert_eq!(select_dist_dir(&vec![false, true, false]), Ok(1));
    assert_eq!(
        select_dist_dir(&vec![false, false, false]),
        Err("dist/ directory not found. Run `pnpm build` first.".to_string())
    );
}

#[test]
fn start_dir_resolution() {
    assert_eq!(resolve_start_dir(Some("/opt/gw".to_string()), Some("/home/u/ai-workstation".to_string())), "/opt/gw");
    assert_eq!(resolve_start_dir(None, Some("/home/u/ai-workstation".to_string())), "/home/u/ai-workstation");
    assert_eq!(resolve_start_dir(None, None), ".");
}

#[test]
fn ports_and_addresses() {
    assert_eq!(resolve_port(None), 8080);
    assert_eq!(resolve_port(Some(3000)), 3000);
    assert_eq!(bind_address(8080), "0.0.0.0:8080");
    assert_eq!(bind_address(0), "0.0.0.0:0");
    assert_eq!(served_url(65535), "http://localhost:65535");
    assert_eq!(bind_failure(80, "permission denied"), "Cannot bind to port 80: permission denied");
}

fn finish(action: StartAction) -> Result<(), String> {
    match action {
        StartAction::Finish(r) => r,
        other => panic!("expected the end, got {:?}", other),
    }
}

#[test]
fn start_missing_compose_file() {
    let (s, a) = start_gateway_begin();
    assert!(matches!(a, StartAction::CheckComposeFile));
    let (s, a) = start_gateway_step(s, StartEvent::ComposeFile { found: false, location: "/x/c.yml".to_string() });
    assert_eq!(s.phase, StartPhase::Done);
    assert_eq!(finish(a), Err("docker-compose.prod.yml not found at /x/c.yml. Clone ai-workstation first.".to_string()));
}

#[test]
fn start_already_running() {
    let (s, _) = start_gateway_begin();
    let (s, a) = start_gateway_step(s, StartEvent::ComposeFile { found: true, location: String::new() });
    assert!(matches!(a, StartAction::ProbeHealth));
    let (_, a) = start_gateway_step(s, StartEvent::Probed(true));
    assert_eq!(finish(a), Ok(()));
}

#[test]
fn start_compose_failures() {
    let (s, _) = start_gateway_begin();
    let (s, _) = start_gateway_step(s, StartEvent::ComposeFile { found: true, location: String::new() });
    let (s, a) = start_gateway_step(s, StartEvent::Probed(false));
    assert!(matches!(a, StartAction::RunComposeUp));
    let (_, a) = start_gateway_step(s, StartEvent::ComposeExited(Ok(false)));
    assert_eq!(finish(a), Err("docker compose up failed".to_string()));
    let (_, a) = start_gateway_step(s, StartEvent::ComposeExited(Err("no docker".to_string())));
    assert_eq!(finish(a), Err("Failed to start gateway: no docker".to_string()));
}

#[test]
fn start_becomes_healthy_after_probes() {
    let (s, _) = start_gateway_begin();
    let (s, _) = start_gateway_step(s, StartEvent::ComposeFile { found: true, location: String::new() });
    let (s, _) = start_gateway_step(s, StartEvent::Probed(false));
    let (mut s, mut a) = start_gateway_step(s, StartEvent::ComposeExited(Ok(true)));
    for _ in 0..3 {
        assert!(matches!(a, StartAction::ProbeHealth));
        let (s2, a2) = start_gateway_step(s, StartEvent::Probed(false));
        assert!(matches!(a2, StartAction::Pause(2)));
        let (s3, a3) = start_gateway_step(s2, StartEvent::Paused);
        s = s3;
        a = a3;
    }
    let (_, a) = start_gateway_step(s, StartEvent::Probed(true));
    assert_eq!(finish(a), Ok(()));
}

#[test]
fn start_gives_up_after_sixty_probes() {
    let (s, _) = start_gateway_begin();
    let (s, _) = start_gateway_step(s, StartEvent::ComposeFile { found: true, location: String::new() });
    let (s, _) = start_gateway_step(s, StartEvent::Probed(false));
    let (mut s, mut a) = start_gateway_step(s, StartEvent::ComposeExited(Ok(true)));
    let mut probes = 0;
    let mut steps = 0;
    loop {
        steps += 1;
        assert!(steps < 1000);
        let event = match a {
            StartAction::ProbeHealth => {
                probes += 1;
                StartEvent::Probed(false)
            }
            StartAction::Pause(secs) => {
                assert_eq!(secs, 2);
                StartEvent::Paused
            }
            StartAction::Finish(r) => {
                assert_eq!(r, Err("Gateway did not become healthy within 120 seconds".to_string()));
                break;
            }
            other => panic!("unexpected {:?}", other),
        };
        assert!(start_expects(s, &event));
        let (s2, a2) = start_gateway_step(s, event);
        s = s2;
        a = a2;
    }
    assert_eq!(probes, 60);
}

#[test]
fn expectations_of_phases() {
    let s = StartState { phase: StartPhase::Pause, probes: 1 };
    assert!(start_expects(s, &StartEvent::Paused));
    assert!(!start_expects(s, &StartEvent::Probed(true)));
    let done = StartState { phase: StartPhase::Done, probes: 0 };
    assert!(!start_expects(done, &StartEvent::Paused));
}
