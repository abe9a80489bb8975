use plemeshko::log::{log_target, LogTarget, LogTargetError};

#[test]
fn log_streams() {
    assert_eq!(log_target("stdout"), Ok(LogTarget::Stdout));
    assert_eq!(log_target("stderr"), Ok(LogTarget::Stderr));
}

#[test]
fn log_file_drops_the_first_character() {
    assert_eq!(log_target("+game.log"), Ok(LogTarget::File("game.log".to_string())));
    assert_eq!(log_target("ab"), Ok(LogTarget::File("b".to_string())));
    assert_eq!(log_target("é"), Ok(LogTarget::File(String::new())));
}

#[test]
fn log_target_refuses_short_or_rooted_text() {
    assert_eq!(log_target(""), Err(LogTargetError::Unparsable));
    assert_eq!(log_target("x"), Err(LogTargetError::Unparsable));
    assert_eq!(log_target("/var/log"), Err(LogTargetError::Unparsable));
}
