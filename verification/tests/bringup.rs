use vvd_screen::bringup::{Action, Bringup, Event};
use vvd_screen::poll::Wait;
use vvd_screen::vvd::VvdError;

fn step(b: Bringup, event: Event) -> (Bringup, Action) {
    assert!(b.accepts(&event));
    b.step(event)
}

fn argv() -> Vec<String> {
    ["/sdk/agent/qemu/darwin/vega-virtual-device", "-avd", "tv", "-qemu", "-m"]
        .iter()
        .map(|s| s.to_string())
        .collect()
}

fn failure(action: Action) -> String {
    match action {
        Action::Fail(e) => e.message(),
        other => panic!("{:?}", other),
    }
}

fn reading() -> Bringup {
    let (b, _) = Bringup::new(8554, true);
    let (b, _) = step(b, Event::Reachable(false));
    let (b, _) = step(b, Event::Running(true));
    let (b, action) = step(b, Event::Engine(Some(412)));
    assert!(matches!(action, Action::ReadArgv { pid: 412 }));
    b
}

fn launching() -> Bringup {
    let (b, _) = step(reading(), Event::Argv(argv()));
    let (b, _) = step(b, Event::LauncherExists(true));
    let (b, _) = step(b, Event::Stopped);
    let (b, _) = step(b, Event::Drained);
    let (b, _) = step(b, Event::Cleaned);
    b
}

#[test]
fn running_server_is_attached_to() {
    for autostart in [false, true] {
        let (b, action) = Bringup::new(8554, autostart);
        assert!(matches!(action, Action::Probe { port: 8554 }));
        let (b, action) = step(b, Event::Reachable(true));
        assert!(matches!(action, Action::FindToken { port: 8554 }));
        let (b, action) = step(b, Event::Token(Some("tok".to_string())));
        match action {
            Action::Done(t) => assert_eq!((t.port, t.token.as_str()), (8554, "tok")),
            other => panic!("{:?}", other),
        }
        assert!(!b.accepts(&Event::Reachable(true)));
    }
}

#[test]
fn nothing_is_started_without_leave() {
    let (b, _) = Bringup::new(8554, false);
    let (_, action) = step(b, Event::Reachable(false));
    assert!(failure(action).starts_with("no gRPC VVD on 127.0.0.1:8554 and --no-autostart"));
    let (b, _) = Bringup::new(8554, false);
    let (b, _) = step(b, Event::Reachable(true));
    let (_, action) = step(b, Event::Token(None));
    assert!(failure(action).starts_with("gRPC reachable on :8554 but no token"));
}

#[test]
fn unknown_token_leads_to_a_relaunch() {
    let (b, _) = Bringup::new(8554, true);
    let (b, _) = step(b, Event::Reachable(true));
    let (_, action) = step(b, Event::Token(None));
    assert!(matches!(action, Action::AskStatus));
}

#[test]
fn instance_is_relaunched_with_grpc() {
    let (b, _) = Bringup::new(8554, true);
    let (b, action) = step(b, Event::Reachable(false));
    assert!(matches!(action, Action::AskStatus));
    let (b, action) = step(b, Event::Running(false));
    assert!(matches!(action, Action::Start));
    let (b, action) = step(b, Event::Started);
    assert!(matches!(action, Action::ListEngines));
    let (b, _) = step(b, Event::Engine(Some(1)));
    let (b, action) = step(b, Event::Argv(argv()));
    assert!(matches!(action, Action::CheckLauncher { launcher } if launcher == "/sdk/agent/emulator"));
    let (b, action) = step(b, Event::LauncherExists(true));
    assert!(matches!(action, Action::Stop));
    let (b, action) = step(b, Event::Stopped);
    let gone = Wait { timeout_ms: 25_000, interval_ms: 400 };
    assert!(matches!(action, Action::AwaitGone { wait } if wait == gone));
    let (b, action) = step(b, Event::Drained);
    assert!(matches!(action, Action::CleanSockets));
    let (b, action) = step(b, Event::Cleaned);
    match action {
        Action::Launch { launcher, args } => {
            assert_eq!(launcher, "/sdk/agent/emulator");
            assert_eq!(
                args,
                vec!["-avd", "tv", "-grpc", "8554", "-grpc-use-token", "-qemu", "-m"]
            );
        }
        other => panic!("{:?}", other),
    }
    let (b, action) = step(b, Event::Launched);
    let up = Wait { timeout_ms: 120_000, interval_ms: 500 };
    assert!(matches!(action, Action::AwaitGrpc { port: 8554, wait } if wait == up));
    let (b, action) = step(b, Event::Reachable(true));
    let token = Wait { timeout_ms: 15_000, interval_ms: 300 };
    assert!(matches!(action, Action::AwaitToken { port: 8554, wait } if wait == token));
    let (_, action) = step(b, Event::Token(Some("new".to_string())));
    assert!(matches!(action, Action::Done(t) if t.token == "new" && t.port == 8554));
}

#[test]
fn launcher_is_found_below_a_directory_named_qemu() {
    let engine = "/srv/qemu/vmtools/agent/qemu/h/vega-virtual-device".to_string();
    let (_, action) = step(reading(), Event::Argv(vec![engine]));
    assert!(matches!(
        action,
        Action::CheckLauncher { launcher } if launcher == "/srv/qemu/vmtools/agent/emulator"
    ));
}

#[test]
fn every_step_can_fail() {
    let (b, _) = Bringup::new(1, true);
    let (b, _) = step(b, Event::Reachable(false));
    let (b, _) = step(b, Event::Running(false));
    let (_, action) =
        step(b, Event::Failed(VvdError::StartFailed { status: "exit status: 1".to_string() }));
    assert_eq!(failure(action), "`vega virtual-device start` failed (exit status: 1)");

    let (b, _) = Bringup::new(1, true);
    let (b, _) = step(b, Event::Reachable(false));
    let (b, _) = step(b, Event::Running(true));
    let (_, action) = step(b, Event::Engine(None));
    assert_eq!(failure(action), "emulator process not found");

    let (_, action) = step(reading(), Event::Failed(VvdError::NoArgv { pid: 412 }));
    assert_eq!(failure(action), "could not read argv for pid 412");

    let (_, action) = step(reading(), Event::Argv(Vec::new()));
    assert_eq!(failure(action), "empty emulator argv");

    let (_, action) = step(reading(), Event::Argv(vec!["emulator".to_string()]));
    assert_eq!(failure(action), "cannot derive agent dir from emulator path: emulator");

    let (b, _) = step(reading(), Event::Argv(argv()));
    let (_, action) = step(b, Event::LauncherExists(false));
    assert_eq!(failure(action), "emulator launcher not found at /sdk/agent/emulator");

    let (_, action) =
        step(launching(), Event::Failed(VvdError::LaunchError { detail: "denied".to_string() }));
    assert_eq!(failure(action), "denied");

    let (b, _) = step(launching(), Event::Launched);
    let (_, action) = step(b, Event::Reachable(false));
    assert_eq!(failure(action), "gRPC :8554 did not come up within 120s");

    let (b, _) = step(launching(), Event::Launched);
    let (b, _) = step(b, Event::Reachable(true));
    let (_, action) = step(b, Event::Token(None));
    assert_eq!(failure(action), "gRPC up on :8554 but no token appeared in discovery files");
}
