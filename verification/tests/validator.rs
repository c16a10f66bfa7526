use nixos_json_controller::command::{Action, Command, Target};
use nixos_json_controller::validator::{ValidationError, Validator};

fn create_command(target: &str) -> Command {
    Command { action: Action::InstallPackage, target: Target { raw: target.to_string() } }
}

#[test]
fn accept_valid_target() {
    let command = create_command("firefox");
    let result = Validator::validate(&command);
    assert!(result.is_ok());
}

#[test]
fn reject_empty_target() {
    let command = create_command("");
    let result = Validator::validate(&command);
    assert!(matches!(result, Err(ValidationError::EmptyTarget)));
}

#[test]
fn reject_whitespace_only_target() {
    let command = create_command("   ");
    let result = Validator::validate(&command);
    assert!(matches!(result, Err(ValidationError::WhitespaceOnlyTarget)));
}

#[test]
fn reject_leading_trailing_whitespace() {
    let command = create_command(" firefox ");
    let result = Validator::validate(&command);
    assert!(matches!(result, Err(ValidationError::LeadingOrTrailingWhitespace)));
}

#[test]
fn reject_too_long_target() {
    let long_target = "a".repeat(101);
    let command = create_command(&long_target);
    let result = Validator::validate(&command);
    assert!(matches!(result, Err(ValidationError::TargetTooLong)));
}

#[test]
fn target_length_is_counted_in_bytes() {
    assert!(Validator::validate(&create_command(&"a".repeat(64))).is_ok());
    assert!(matches!(
        Validator::validate(&create_command(&"a".repeat(65))),
        Err(ValidationError::TargetTooLong)
    ));
    // 22 characters of three bytes each: 66 bytes.
    let wide = "火".repeat(22);
    assert!(matches!(
        Validator::validate(&create_command(&wide)),
        Err(ValidationError::TargetTooLong)
    ));
    assert!(Validator::validate(&create_command(&"火".repeat(21))).is_ok());
}

#[test]
fn unicode_whitespace_counts_as_whitespace() {
    assert!(matches!(
        Validator::validate(&create_command("\u{3000}")),
        Err(ValidationError::WhitespaceOnlyTarget)
    ));
    assert!(matches!(
        Validator::validate(&create_command("firefox\t")),
        Err(ValidationError::LeadingOrTrailingWhitespace)
    ));
    assert!(Validator::validate(&create_command("vs code")).is_ok());
}

#[test]
fn validation_error_names() {
    assert_eq!(ValidationError::EmptyTarget.name(), "EmptyTarget");
    assert_eq!(ValidationError::WhitespaceOnlyTarget.name(), "WhitespaceOnlyTarget");
    assert_eq!(
        ValidationError::LeadingOrTrailingWhitespace.name(),
        "LeadingOrTrailingWhitespace"
    );
    assert_eq!(ValidationError::TargetTooLong.name(), "TargetTooLong");
}
