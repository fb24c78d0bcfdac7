use melange::router::{command_response, file_response, is_within, start_url, strip_scheme};
use melange::{Command, ConfigData, Melange, ModifierSet, Modifiers, NamedCommand, Response, Route, RouteError};

fn named(name: &str, argv: &[&str]) -> NamedCommand {
    NamedCommand {
        name: name.to_string(),
        argv: argv.iter().map(|a| a.to_string()).collect(),
    }
}

fn config_with(commands: Vec<NamedCommand>, keymap: Vec<Command>) -> ConfigData {
    let mut data = ConfigData::default();
    data.commands = commands;
    data.keymap = keymap;
    data
}

fn cors_only(headers: &[(String, String)]) -> bool {
    headers.len() == 1 && headers[0].0 == "Access-Control-Allow-Origin" && headers[0].1 == "*"
}

#[test]
fn open_terminal_runs_its_argv() {
    let data = config_with(vec![named("open-terminal", &["xterm"])], vec![]);
    let m = Melange::new("/cfg".to_string(), data);
    match m.protocol("melange://open-terminal") {
        Ok(Route::Command(argv)) => assert_eq!(argv, vec!["xterm".to_string()]),
        _ => panic!("expected a command route"),
    }
    // headless stand-in for the process: it wrote nothing
    let r = command_response(Some(Vec::new())).unwrap();
    assert_eq!(r.status, 200);
    assert!(r.body.is_empty());
    assert_eq!(r.mime_type, "text/strings");
    assert!(cors_only(&r.headers));
}

#[test]
fn unknown_command_is_not_found() {
    let data = config_with(vec![named("open-terminal", &["xterm"])], vec![]);
    let m = Melange::new("/cfg".to_string(), data);
    let e = match m.protocol("melange://unknown") {
        Err(e) => e,
        Ok(_) => panic!("expected an error"),
    };
    assert_eq!(e, RouteError::CommandNotFound);
    let r = e.to_response();
    assert_eq!(r.status, 404);
    assert_eq!(r.body, b"Command not found in config!".to_vec());
    assert!(cors_only(&r.headers));
}

#[test]
fn file_under_base_is_served_as_html() {
    let m = Melange::new("/cfg".to_string(), ConfigData::default());
    let path = match m.protocol("melange:///cfg/index.html") {
        Ok(Route::File(p)) => p,
        _ => panic!("expected a file route"),
    };
    assert_eq!(path, "/cfg/index.html");
    assert_eq!(m.confine(&path), Ok(()));
    let bytes = b"<html></html>".to_vec();
    let r = file_response(&path, Some(bytes.clone())).unwrap();
    assert_eq!(r.status, 200);
    assert_eq!(r.mime_type, "text/html");
    assert_eq!(r.body, bytes);
    assert!(cors_only(&r.headers));
}

#[test]
fn escape_without_command_has_no_binding() {
    let m = Melange::new("/cfg".to_string(), ConfigData::default());
    assert_eq!(m.on_key(&"Escape".to_string(), ModifierSet::empty()), None);
}

#[test]
fn traversal_outside_base_is_forbidden() {
    let m = Melange::new("/cfg".to_string(), ConfigData::default());
    // what "/cfg/../../etc/passwd" canonicalises to
    assert_eq!(m.confine("/etc/passwd"), Err(RouteError::PathForbidden));
    assert_eq!(m.confine("/cfgevil/index.html"), Err(RouteError::PathForbidden));
    assert_eq!(m.confine("/cf"), Err(RouteError::PathForbidden));
    assert_eq!(m.confine("/cfg"), Ok(()));
    assert_eq!(m.confine("/cfg/a/b.css"), Ok(()));
    assert_eq!(RouteError::PathForbidden.to_response().status, 403);
    assert!(RouteError::PathForbidden.to_response().body.is_empty());
}

#[test]
fn within_respects_trailing_separator() {
    assert!(is_within("/cfg/", "/cfg/x"));
    assert!(!is_within("/cfg/", "/cfg"));
    assert!(is_within("", "/anything"));
    assert!(!is_within("/cfg", "/cfg2"));
}

#[test]
fn stdout_comes_back_byte_for_byte() {
    let out: Vec<u8> = vec![0, 1, 2, 255, b'\n', b'h', b'i'];
    let r = command_response(Some(out.clone())).unwrap();
    assert_eq!(r.body, out);
    assert_eq!(r.status, 200);
}

#[test]
fn spawn_failure_is_a_server_error() {
    let e = command_response(None).err().unwrap();
    assert_eq!(e, RouteError::ProcessSpawnError);
    assert_eq!(e.status(), 500);
    assert_eq!(e.to_response().status, 500);
}

#[test]
fn empty_argv_cannot_be_launched() {
    let data = config_with(vec![named("nothing", &[])], vec![]);
    let m = Melange::new("/cfg".to_string(), data);
    assert!(matches!(m.protocol("melange://nothing"), Err(RouteError::ProcessSpawnError)));
}

#[test]
fn unread_file_is_not_found() {
    let e = file_response("/cfg/missing.html", None).err().unwrap();
    assert_eq!(e, RouteError::FileNotFound);
    assert_eq!(e.status(), 404);
}

#[test]
fn unknown_extension_gets_empty_mime() {
    let r = file_response("/cfg/data.zzqqunknown", Some(vec![1, 2])).unwrap();
    assert_eq!(r.mime_type, "");
    let r = file_response("/cfg/style.css", Some(vec![])).unwrap();
    assert_eq!(r.mime_type, "text/css");
    assert!(cors_only(&r.headers));
}

#[test]
fn scheme_is_stripped_once_from_the_front() {
    assert_eq!(strip_scheme("melange://open-terminal"), "open-terminal");
    assert_eq!(strip_scheme("open-terminal"), "open-terminal");
    assert_eq!(strip_scheme("x-melange://a"), "x-melange://a");
    assert_eq!(strip_scheme("melange://melange://a"), "melange://a");
}

#[test]
fn token_without_scheme_is_looked_up_verbatim() {
    let data = config_with(vec![named("lock", &["loginctl", "lock-session"])], vec![]);
    let m = Melange::new("/cfg".to_string(), data);
    match m.protocol("lock") {
        Ok(Route::Command(argv)) => assert_eq!(argv, vec!["loginctl".to_string(), "lock-session".to_string()]),
        _ => panic!("expected a command route"),
    }
    assert!(matches!(m.protocol("melange://lock; rm -rf /"), Err(RouteError::CommandNotFound)));
}

#[test]
fn later_command_declaration_wins() {
    let data = config_with(vec![named("a", &["first"]), named("a", &["second"])], vec![]);
    let m = Melange::new("/cfg".to_string(), data);
    match m.protocol("melange://a") {
        Ok(Route::Command(argv)) => assert_eq!(argv, vec!["second".to_string()]),
        _ => panic!("expected a command route"),
    }
}

#[test]
fn dev_server_url_is_kept() {
    assert_eq!(start_url("http://localhost:3000"), "http://localhost:3000");
    assert_eq!(start_url("https://example.test"), "https://example.test");
    assert_eq!(start_url("/cfg"), "melange:///cfg/index.html");
    let m = Melange::new("/home/u/.config/informant".to_string(), ConfigData::default());
    assert_eq!(m.start_url(), "melange:///home/u/.config/informant/index.html");
    assert_eq!(m.config_dir(), "/home/u/.config/informant");
}

#[test]
fn keymap_lookup_uses_folded_modifiers() {
    let keymap = vec![Command {
        key: "Q".to_string(),
        mods: vec![Modifiers::CTRL, Modifiers::SHIFT],
        command: "quit".to_string(),
    }];
    let m = Melange::new("/cfg".to_string(), config_with(vec![], keymap));
    let both = Modifiers::SHIFT.value().union(Modifiers::CTRL.value());
    assert_eq!(m.on_key(&"Q".to_string(), both), Some("quit".to_string()));
    assert_eq!(m.on_key(&"Q".to_string(), Modifiers::CTRL.value()), None);
    assert_eq!(m.on_key(&"W".to_string(), both), None);
}

#[test]
fn accepted_file_must_resolve_below_base() {
    let m = Melange::new("/cfg".to_string(), ConfigData::default());
    assert_eq!(m.accept_file(None), Err(RouteError::FileNotFound));
    assert_eq!(m.accept_file(Some("/etc/passwd".to_string())), Err(RouteError::PathForbidden));
    assert_eq!(m.accept_file(Some("/cfg/index.html".to_string())), Ok("/cfg/index.html".to_string()));
}

#[test]
fn respond_reports_errors_as_responses() {
    let r = Response::respond(Err(RouteError::CommandNotFound));
    assert_eq!(r.status, 404);
    assert_eq!(r.body, b"Command not found in config!".to_vec());
    assert!(cors_only(&r.headers));
    let r = Response::respond(Err(RouteError::FileNotFound));
    assert_eq!(r.status, 404);
    assert!(r.body.is_empty());
    assert!(cors_only(&r.headers));
    let ok = Response::new(201, "text/plain".to_string(), vec![7]);
    let r = Response::respond(Ok(ok));
    assert_eq!(r.status, 201);
    assert_eq!(r.body, vec![7]);
    assert_eq!(r.mime_type, "text/plain");
}
