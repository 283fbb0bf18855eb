use deskctl::command::{
    check_position_name, get_name_from_args, is_reserved_name, move_verbs, resolve, Command,
    ValidationError,
};
use deskctl::config::{Config, Stored};
use deskctl::positions::Positions;
use std::path::PathBuf;

fn stored() -> Positions {
    let mut positions = Positions::new();
    positions.insert("standing".to_string(), 6500);
    positions.insert("sitting".to_string(), 3000);
    positions
}

#[test]
fn built_in_verbs_are_reserved() {
    assert!(is_reserved_name("save"));
    assert!(is_reserved_name("delete"));
    assert!(is_reserved_name("info"));
    assert!(is_reserved_name("config"));
    assert!(!is_reserved_name("standing"));
    assert!(!is_reserved_name(""));
    assert!(!is_reserved_name("SAVE"));
    assert!(!is_reserved_name("save "));
}

#[test]
fn check_position_name_refuses_reserved_names_only() {
    assert_eq!(check_position_name("info"), Err(ValidationError::ReservedName));
    assert_eq!(check_position_name("config"), Err(ValidationError::ReservedName));
    assert_eq!(check_position_name("standing"), Ok(()));
}

#[test]
fn name_argument_must_be_given_and_not_empty() {
    assert_eq!(get_name_from_args(Some("standing")), Ok("standing".to_string()));
    assert_eq!(get_name_from_args(Some("")), Err(ValidationError::MissingArgument));
    assert_eq!(get_name_from_args(None), Err(ValidationError::MissingArgument));
}

#[test]
fn stored_name_resolves_to_move() {
    let positions = stored();
    assert_eq!(
        resolve("standing", None, &positions),
        Ok(Command::MoveToSaved("standing".to_string()))
    );
    assert_eq!(
        resolve("sitting", Some("ignored"), &positions),
        Ok(Command::MoveToSaved("sitting".to_string()))
    );
}

#[test]
fn save_without_name_is_missing_argument() {
    let positions = stored();
    assert_eq!(resolve("save", None, &positions), Err(ValidationError::MissingArgument));
    assert_eq!(resolve("save", Some(""), &positions), Err(ValidationError::MissingArgument));
    assert_eq!(resolve("delete", None, &positions), Err(ValidationError::MissingArgument));
    assert_eq!(resolve("delete", Some(""), &positions), Err(ValidationError::MissingArgument));
}

#[test]
fn save_and_delete_carry_the_name() {
    let positions = stored();
    assert_eq!(
        resolve("save", Some("lying"), &positions),
        Ok(Command::SavePosition("lying".to_string()))
    );
    assert_eq!(
        resolve("delete", Some("standing"), &positions),
        Ok(Command::DeletePosition("standing".to_string()))
    );
}

#[test]
fn save_with_reserved_name_is_rejected_when_stored() {
    let positions = stored();
    let resolved = resolve("save", Some("info"), &positions);
    assert_eq!(resolved, Ok(Command::SavePosition("info".to_string())));
    let mut config = Config::new(PathBuf::from("desk.toml"), Stored::Missing);
    match resolved {
        Ok(Command::SavePosition(name)) => {
            assert_eq!(config.set_position(&name, 6000), Err(ValidationError::ReservedName));
        }
        other => panic!("unexpected resolution: {:?}", other),
    }
    assert_eq!(config.data.positions.len(), 0);
}

#[test]
fn info_and_config_need_no_name() {
    let positions = stored();
    assert_eq!(resolve("info", None, &positions), Ok(Command::ShowInfo));
    assert_eq!(resolve("info", Some("x"), &positions), Ok(Command::ShowInfo));
    assert_eq!(resolve("config", None, &positions), Ok(Command::ShowConfig));
}

#[test]
fn unknown_verb_is_unrecognized() {
    let positions = stored();
    assert_eq!(resolve("lying", None, &positions), Ok(Command::Unrecognized));
    assert_eq!(resolve("", None, &positions), Ok(Command::Unrecognized));
    assert_eq!(resolve("Standing", None, &positions), Ok(Command::Unrecognized));
    assert_eq!(resolve("standing", None, &Positions::new()), Ok(Command::Unrecognized));
}

#[test]
fn move_verbs_follow_the_store() {
    let mut positions = stored();
    assert_eq!(resolve("lying", None, &positions), Ok(Command::Unrecognized));
    positions.insert("lying".to_string(), 1000);
    assert_eq!(resolve("lying", None, &positions), Ok(Command::MoveToSaved("lying".to_string())));
    positions.remove("lying");
    assert_eq!(resolve("lying", None, &positions), Ok(Command::Unrecognized));
}

#[test]
fn built_in_verb_wins_over_stored_name() {
    let mut positions = stored();
    positions.insert("info".to_string(), 1);
    positions.insert("save".to_string(), 2);
    assert_eq!(resolve("info", None, &positions), Ok(Command::ShowInfo));
    assert_eq!(resolve("save", None, &positions), Err(ValidationError::MissingArgument));
}

#[test]
fn move_verbs_are_the_stored_names() {
    assert!(move_verbs(&Positions::new()).is_empty());
    assert_eq!(move_verbs(&stored()), vec!["standing".to_string(), "sitting".to_string()]);
}

#[test]
fn move_verbs_leave_out_hidden_names() {
    let mut positions = Positions::new();
    positions.insert("save".to_string(), 1);
    positions.insert("standing".to_string(), 6500);
    positions.insert("config".to_string(), 2);
    positions.insert("sitting".to_string(), 3000);
    let verbs = move_verbs(&positions);
    assert_eq!(verbs, vec!["standing".to_string(), "sitting".to_string()]);
    for verb in verbs {
        assert_eq!(resolve(&verb, None, &positions), Ok(Command::MoveToSaved(verb.clone())));
    }
}
