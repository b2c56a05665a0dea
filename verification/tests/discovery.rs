use vvd_screen::discovery::{
    discovery_dirs, find_token, is_discovery_file, parse_ini, token_of, DiscoveryFile,
};

fn file(name: &str, text: Option<&str>, modified: Option<i128>) -> DiscoveryFile {
    DiscoveryFile { name: name.to_string(), text: text.map(String::from), modified }
}

#[test]
fn ini_settings_are_read() {
    let m = parse_ini("grpc.port=8554\r\n grpc.token = \"abc\" \nno setting\nx==y\nx=z\nempty=\n");
    assert_eq!(m.get("grpc.port").map(String::as_str), Some("8554"));
    assert_eq!(m.get("grpc.token").map(String::as_str), Some("abc"));
    assert_eq!(m.get("x").map(String::as_str), Some("z"));
    assert_eq!(m.get("empty").map(String::as_str), Some(""));
    assert_eq!(m.get("no setting"), None);
    assert_eq!(m.len(), 4);
    assert_eq!(parse_ini("a=\"= 1\"").get("a").map(String::as_str), Some("= 1"));
}

#[test]
fn directories_follow_the_environment() {
    let dirs = discovery_dirs(Some(b"/Users/me"), Some(b"/run/user/1/"));
    assert_eq!(
        dirs,
        vec![
            b"/Users/me/Library/Caches/TemporaryItems/avd/running".to_vec(),
            b"/run/user/1/avd/running".to_vec(),
        ]
    );
    assert_eq!(discovery_dirs(None, Some(b"")), vec![b"avd/running".to_vec()]);
    assert!(discovery_dirs(None, None).is_empty());
}

#[test]
fn directories_are_joined_as_by_std() {
    for base in ["", "/", "a", "a/", "/a/b", "a//"] {
        let expected = std::path::Path::new(base).join("avd/running");
        let dirs = discovery_dirs(None, Some(base.as_bytes()));
        assert_eq!(dirs[0], expected.to_str().unwrap().as_bytes(), "{:?}", base);
    }
}

#[test]
fn discovery_files_are_told_by_name() {
    assert!(is_discovery_file("pid_12.ini"));
    assert!(is_discovery_file("pid_.ini"));
    assert!(!is_discovery_file("pid_12.ini~"));
    assert!(!is_discovery_file("xpid_12.ini"));
}

#[test]
fn token_needs_name_port_and_token() {
    let text = "grpc.port=8554\ngrpc.token=abc\n";
    assert_eq!(token_of(&file("pid_1.ini", Some(text), None), 8554), Some("abc".to_string()));
    assert_eq!(token_of(&file("pid_1.ini", Some(text), None), 8555), None);
    assert_eq!(token_of(&file("other", Some(text), None), 8554), None);
    assert_eq!(token_of(&file("pid_1.ini", None, None), 8554), None);
    assert_eq!(token_of(&file("pid_1.ini", Some("grpc.port=8554"), None), 8554), None);
    assert_eq!(token_of(&file("pid_1.ini", Some("grpc.port=x\ngrpc.token=a"), None), 8554), None);
    assert_eq!(token_of(&file("pid_1.ini", Some("grpc.token=a"), None), 8554), None);
}

#[test]
fn newest_file_wins() {
    let a = "grpc.port=8554\ngrpc.token=a";
    let b = "grpc.port=8554\ngrpc.token=b";
    let c = "grpc.port=1\ngrpc.token=c";
    let files = vec![
        file("pid_1.ini", Some(a), Some(5)),
        file("pid_2.ini", Some(b), Some(7)),
        file("pid_3.ini", Some(c), Some(9)),
    ];
    assert_eq!(find_token(&files, 8554), Some("b".to_string()));
    assert_eq!(find_token(&files, 1), Some("c".to_string()));
    assert_eq!(find_token(&files, 2), None);
    assert_eq!(find_token(&Vec::new(), 8554), None);
}

#[test]
fn first_of_equally_new_files_wins() {
    let a = "grpc.port=8554\ngrpc.token=a";
    let b = "grpc.port=8554\ngrpc.token=b";
    let files = vec![
        file("pid_1.ini", Some(a), None),
        file("pid_2.ini", Some(b), Some(0)),
    ];
    assert_eq!(find_token(&files, 8554), Some("a".to_string()));
    let files = vec![
        file("pid_1.ini", Some(a), Some(-1)),
        file("pid_2.ini", Some(b), None),
    ];
    assert_eq!(find_token(&files, 8554), Some("b".to_string()));
}
