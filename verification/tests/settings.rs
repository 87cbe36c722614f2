use camera_stream::config::{default_encoder_threads, Config, EnvVars};
use camera_stream::rtc::connection::ice_server_entries;
use camera_stream::types::{parse_turn_entry, IceServers};

fn env(vars: &[(&str, &str)]) -> EnvVars {
    EnvVars { vars: vars.iter().map(|(n, v)| (n.to_string(), v.to_string())).collect() }
}

#[test]
fn defaults_of_an_unset_environment() {
    let c = Config::resolve(&env(&[]), 8);
    assert_eq!(c.port, 8080);
    assert_eq!(c.max_peers, 50);
    assert_eq!(c.allowed_origins, vec!["http://localhost:8080", "http://127.0.0.1:8080"]);
    assert_eq!(c.camera_device, 0);
    assert_eq!((c.width, c.height, c.fps), (1280, 720, 30));
    assert_eq!(c.encoder_bitrate, 5000);
    assert_eq!(c.encoder_threads, 4);
}

#[test]
fn usb_cameras_default_to_full_hd() {
    let c = Config::resolve(&env(&[("CAMERA_DEVICE", "1")]), 8);
    assert_eq!((c.camera_device, c.width, c.height), (1, 1920, 1080));
    let vars = env(&[("CAMERA_DEVICE", "1"), ("CAMERA_WIDTH", "1280"), ("CAMERA_HEIGHT", "720")]);
    let c = Config::resolve(&vars, 8);
    assert_eq!((c.camera_device, c.width, c.height), (1, 1280, 720));
}

#[test]
fn every_variable_is_honoured() {
    let vars = env(&[
        ("PORT", "9000"),
        ("MAX_PEERS", "100"),
        ("ALLOWED_ORIGINS", "https://stream.yourdomain.com, https://yourdomain.com"),
        ("CAMERA_DEVICE", "2"),
        ("CAMERA_WIDTH", "640"),
        ("CAMERA_HEIGHT", "480"),
        ("CAMERA_FPS", "60"),
        ("ENCODER_BITRATE", "6000"),
        ("ENCODER_THREADS", "8"),
        ("PORT", "1"),
    ]);
    let c = Config::from_env(&vars);
    assert_eq!(c.port, 9000);
    assert_eq!(c.max_peers, 100);
    assert_eq!(c.allowed_origins, vec!["https://stream.yourdomain.com", "https://yourdomain.com"]);
    assert_eq!((c.camera_device, c.width, c.height, c.fps), (2, 640, 480, 60));
    assert_eq!((c.encoder_bitrate, c.encoder_threads), (6000, 8));
}

#[test]
fn unreadable_numbers_fall_back() {
    let vars = env(&[
        ("PORT", "65536"),
        ("MAX_PEERS", "many"),
        ("CAMERA_DEVICE", "-1"),
        ("CAMERA_FPS", ""),
        ("ENCODER_THREADS", " 4"),
    ]);
    let c = Config::resolve(&vars, 2);
    assert_eq!((c.port, c.max_peers, c.camera_device, c.fps), (8080, 50, 0, 30));
    assert_eq!(c.encoder_threads, 1);
}

#[test]
fn encoder_threads_are_half_of_the_cpus() {
    assert_eq!(default_encoder_threads(1), 1);
    assert_eq!(default_encoder_threads(2), 1);
    assert_eq!(default_encoder_threads(3), 1);
    assert_eq!(default_encoder_threads(16), 8);
}

#[test]
fn the_machine_sets_the_thread_default() {
    let c = Config::from_env(&env(&[]));
    assert_eq!(c.encoder_threads, ((num_cpus::get() / 2).max(1)) as u32);
}

#[test]
fn the_log_reports_every_setting() {
    let vars = env(&[("ALLOWED_ORIGINS", "a\"b, c")]);
    let lines = Config::resolve(&vars, 8).log();
    assert_eq!(
        lines,
        vec![
            "Config: port=8080 max_peers=50 device=0 resolution=1280x720@30fps bitrate=5000kbps enc_threads=4",
            "CORS allowed origins: [\"a\\\"b\", \"c\"]",
        ]
    );
}

#[test]
fn variables_are_found_by_name() {
    let vars = env(&[("PORT", "1"), ("port", "2")]);
    assert_eq!(vars.get("PORT"), Some("1"));
    assert_eq!(vars.get("port"), Some("2"));
    assert_eq!(vars.get("Port"), None);
    let names = EnvVars::names();
    assert_eq!(names.len(), 11);
    assert_eq!((names[0].as_str(), names[10].as_str()), ("PORT", "TURN_SERVERS"));
}

#[test]
fn ice_defaults() {
    let servers = IceServers::from_env(&env(&[]));
    assert_eq!(servers.stun, vec!["stun:stun.l.google.com:19302"]);
    assert!(servers.turn.is_empty());
    assert_eq!(IceServers::default().stun, servers.stun);
}

#[test]
fn stun_list_is_comma_separated() {
    let vars = env(&[("STUN_SERVERS", "stun:a:1 , stun:b:2,")]);
    assert_eq!(IceServers::from_env(&vars).stun, vec!["stun:a:1", "stun:b:2", ""]);
}

#[test]
fn turn_list_ignores_malformed_entries() {
    let list = "turn:yourserver.com:3478|user|pass; nonsense ;turn:x|only; turn:y|u|p|q ";
    let vars = env(&[("TURN_SERVERS", list)]);
    let turn = IceServers::from_env(&vars).turn;
    let expected: Vec<(String, String, String)> = vec![
        ("turn:yourserver.com:3478".into(), "user".into(), "pass".into()),
        ("turn:y".into(), "u".into(), "p|q".into()),
    ];
    assert_eq!(turn, expected);
}

#[test]
fn turn_entry_reads_back_its_parts() {
    assert_eq!(
        parse_turn_entry("turn:h|user|p|w"),
        Some(("turn:h".to_owned(), "user".to_owned(), "p|w".to_owned()))
    );
    assert_eq!(parse_turn_entry("||"), Some((String::new(), String::new(), String::new())));
    assert_eq!(parse_turn_entry("turn:h|user"), None);
    assert_eq!(parse_turn_entry(""), None);
}

#[test]
fn connections_list_stun_before_turn() {
    let servers = IceServers {
        stun: vec!["stun:a".into(), "stun:b".into()],
        turn: vec![("turn:c".into(), "u".into(), "p".into())],
    };
    let entries = ice_server_entries(&servers);
    let got: Vec<(Vec<String>, String, String)> =
        entries.into_iter().map(|e| (e.urls, e.username, e.credential)).collect();
    assert_eq!(
        got,
        vec![
            (vec!["stun:a".to_owned()], String::new(), String::new()),
            (vec!["stun:b".to_owned()], String::new(), String::new()),
            (vec!["turn:c".to_owned()], "u".to_owned(), "p".to_owned()),
        ]
    );
}

#[test]
fn ignored_turn_entries_are_reported() {
    let vars = env(&[("TURN_SERVERS", "turn:a|u|p; turn:b|u ;;x|y|z|w")]);
    assert_eq!(IceServers::from_env(&vars).turn.len(), 2);
    assert_eq!(IceServers::ignored_turn_entries(&vars), vec!["turn:b|u", ""]);
    assert!(IceServers::ignored_turn_entries(&env(&[])).is_empty());
}
