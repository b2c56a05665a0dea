use vvd_screen::vvd::{
    agent_dir, engine_argv, first_engine_pid, is_stale_socket, launcher_args, vega_running,
    vega_start, VvdError,
};

fn strings(v: &[&str]) -> Vec<String> {
    v.iter().map(|s| s.to_string()).collect()
}

#[test]
fn status_tells_whether_the_device_runs() {
    assert!(vega_running(Some(b"{\"running\":true,\"x\":1}")));
    assert!(!vega_running(Some(b"{\"running\": true}")));
    assert!(!vega_running(Some(b"{\"running\":false}")));
    assert!(!vega_running(None));
    assert!(vega_running(Some(b"\xff\"running\":true")));
}

#[test]
fn start_fails_with_the_status() {
    assert!(vega_start(true, "exit status: 0".to_string()).is_ok());
    let e = vega_start(false, "exit status: 1".to_string()).unwrap_err();
    assert_eq!(e.message(), "`vega virtual-device start` failed (exit status: 1)");
    assert_eq!(e.activity(), Some("vega virtual-device start"));
}

#[test]
fn first_number_is_the_pid() {
    assert_eq!(first_engine_pid(Some(b"412\n413\n")), Some(412));
    assert_eq!(first_engine_pid(Some(b"x 99999999999 7 8")), Some(7));
    assert_eq!(first_engine_pid(Some(b"")), None);
    assert_eq!(first_engine_pid(None), None);
}

#[test]
fn command_line_is_split() {
    assert_eq!(
        engine_argv(7, b"/a/qemu/x/vega-virtual-device -avd  tv\n").unwrap(),
        strings(&["/a/qemu/x/vega-virtual-device", "-avd", "tv"])
    );
    assert_eq!(engine_argv(7, b"caf\xe9").unwrap(), strings(&["caf\u{fffd}"]));
    let e = engine_argv(7, b" \n").unwrap_err();
    assert_eq!(e.message(), "could not read argv for pid 7");
    assert_eq!(e.activity(), Some("read running emulator argv"));
}

#[test]
fn agent_directory_is_that_of_the_layout() {
    assert_eq!(
        agent_dir("/sdk/vmtools/agent/qemu/darwin/vega-virtual-device").unwrap(),
        "/sdk/vmtools/agent"
    );
    assert_eq!(
        agent_dir("/srv/qemu/vmtools/agent/qemu/h/vega-virtual-device").unwrap(),
        "/srv/qemu/vmtools/agent"
    );
    assert_eq!(
        agent_dir("/é/qemu/vmtools/agent/qemu/qemu/vega-virtual-device").unwrap(),
        "/é/qemu/vmtools/agent"
    );
    assert_eq!(
        agent_dir("/vmtools/agent/qemu/vmtools/agent/qemu/h/vega-virtual-device").unwrap(),
        "/vmtools/agent/qemu/vmtools/agent"
    );
}

#[test]
fn agent_directory_elsewhere_is_before_the_first_qemu() {
    assert_eq!(agent_dir("/srv/qemu/foo/qemu/h/x").unwrap(), "/srv");
    assert_eq!(agent_dir("/srv/qemu/foo/qemu/h/vega-virtual-device").unwrap(), "/srv");
    assert_eq!(agent_dir("/srv/qemu/vmtools/agent/qemu/h/x").unwrap(), "/srv");
    assert_eq!(agent_dir("/srv/qemu/vmtools/agent/qemu//vega-virtual-device").unwrap(), "/srv");
    assert_eq!(agent_dir("/srv/qemu/vmtools/agent/qemu/h/i/vega-virtual-device").unwrap(), "/srv");
    assert_eq!(agent_dir("/qemu/vega-virtual-device").unwrap(), "");
    assert_eq!(agent_dir("/qemu/qemu/qemu/vega-virtual-device").unwrap(), "");
    assert_eq!(agent_dir("é/qemu/qemu/h/é").unwrap(), "é");
    assert_eq!(agent_dir("/qemu/h/n").unwrap(), "");
    assert_eq!(agent_dir("/a/qemu//").unwrap(), "/a");
    assert_eq!(agent_dir("/a/qemu/b/qemu/c").unwrap(), "/a");
    assert_eq!(agent_dir("/a/qemu/b/qemu/c/d/e").unwrap(), "/a");
    assert_eq!(agent_dir("/qemu/").unwrap(), "");
    assert_eq!(agent_dir("é/qemu/").unwrap(), "é");
    let e = agent_dir("/a/qemu").unwrap_err();
    assert_eq!(e.message(), "cannot derive agent dir from emulator path: /a/qemu");
    assert_eq!(e.activity(), None);
}

#[test]
fn grpc_arguments_go_before_the_passthrough() {
    assert_eq!(
        launcher_args(&strings(&["/e", "-avd", "tv", "-qemu", "-m", "-qemu"]), 8554),
        strings(&["-avd", "tv", "-grpc", "8554", "-grpc-use-token", "-qemu", "-m", "-qemu"])
    );
    assert_eq!(
        launcher_args(&strings(&["-qemu", "-avd"]), 1),
        strings(&["-avd", "-grpc", "1", "-grpc-use-token"])
    );
    assert_eq!(launcher_args(&strings(&["/e"]), 2), strings(&["-grpc", "2", "-grpc-use-token"]));
}

#[test]
fn sockets_are_told_by_name() {
    assert!(is_stale_socket("qmp-socket-1.sock"));
    assert!(is_stale_socket("qmp-socket-.sock"));
    assert!(!is_stale_socket("qmp-socket-1"));
    assert!(!is_stale_socket("my-qmp-socket-1.sock"));
}

#[test]
fn errors_are_put_in_words() {
    let cases = vec![
        (
            VvdError::NoToken { port: 8554 },
            "gRPC reachable on :8554 but no token found in discovery files; cannot authenticate",
            None,
        ),
        (
            VvdError::NoServer { port: 8554 },
            "no gRPC VVD on 127.0.0.1:8554 and --no-autostart was given.\nLaunch one with: <agent>/emulator <args> -grpc 8554 -grpc-use-token",
            None,
        ),
        (
            VvdError::StartError { detail: "no such command".to_string() },
            "no such command",
            Some("vega virtual-device start"),
        ),
        (VvdError::NoEngine, "emulator process not found", Some("read running emulator argv")),
        (
            VvdError::ArgvError { detail: "x".to_string() },
            "x",
            Some("read running emulator argv"),
        ),
        (VvdError::EmptyArgv, "empty emulator argv", None),
        (
            VvdError::NoLauncher { launcher: "/a/emulator".to_string() },
            "emulator launcher not found at /a/emulator",
            None,
        ),
        (
            VvdError::LaunchError { detail: "y".to_string() },
            "y",
            Some("spawn emulator launcher"),
        ),
        (
            VvdError::GrpcTimeout { port: 1 },
            "gRPC :1 did not come up within 120s",
            Some("waiting for gRPC server to come up"),
        ),
        (
            VvdError::TokenTimeout { port: 1 },
            "gRPC up on :1 but no token appeared in discovery files",
            None,
        ),
    ];
    for (e, message, activity) in cases {
        assert_eq!(e.message(), message);
        assert_eq!(e.activity(), activity);
    }
}
