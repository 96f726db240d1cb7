use digsigctl::command::{lookup, Action, Command, CommandKind, CommandResult};
use digsigctl::json::Json;

fn request(id: &str) -> Command {
    Command { id: id.to_string(), parameters: Json::Null }
}

#[test]
fn unregistered_command_is_reported_by_name() {
    match request("foo").dispatch() {
        Action::Reply(result) => {
            assert!(!result.success);
            assert_eq!(result.output, "unknown command: foo");
        }
        Action::Run(_) => panic!("foo is not registered"),
    }
}

#[test]
fn unknown_command_leaves_others_served() {
    let _ = request("foo").dispatch();
    assert!(matches!(request("reboot").dispatch(), Action::Run(CommandKind::Reboot)));
    match request("ping").dispatch() {
        Action::Reply(result) => {
            assert!(result.success);
            assert_eq!(result.output, "pong");
        }
        Action::Run(_) => panic!("ping is answered at once"),
    }
}

#[test]
fn registry_is_closed() {
    assert_eq!(lookup("beep"), Some(CommandKind::Beep));
    assert_eq!(lookup("reboot"), Some(CommandKind::Reboot));
    assert_eq!(lookup("ping"), Some(CommandKind::Ping));
    assert_eq!(lookup("Ping"), None);
    assert_eq!(lookup(""), None);
}

#[test]
fn handler_outcome_is_wrapped() {
    let ok = CommandResult::from_outcome(Ok("done".to_string()));
    assert!(ok.success);
    assert_eq!(ok.output, "done");
    let failed = CommandResult::from_outcome(Err("no beeper".to_string()));
    assert!(!failed.success);
    assert_eq!(failed.output, "no beeper");
}

#[test]
fn string_array_parameters_become_arguments() {
    let command = Command {
        id: "beep".to_string(),
        parameters: Json::Array(vec![Json::Str("-f".to_string()), Json::Str("440".to_string())]),
    };
    assert_eq!(command.arguments(), Some(vec!["-f".to_string(), "440".to_string()]));
}

#[test]
fn null_parameters_give_no_arguments() {
    assert_eq!(request("reboot").arguments(), Some(Vec::new()));
}

#[test]
fn other_parameters_are_refused() {
    let mixed = Command {
        id: "beep".to_string(),
        parameters: Json::Array(vec![Json::Str("-f".to_string()), Json::Bool(true)]),
    };
    assert_eq!(mixed.arguments(), None);
    let object = Command { id: "beep".to_string(), parameters: Json::Object(Vec::new()) };
    assert_eq!(object.arguments(), None);
}
