use nibari::control::VisibilityCommand;

#[test]
fn arguments_name_commands() {
    assert_eq!(VisibilityCommand::from_arg(Some("--hide")), Some(VisibilityCommand::Hide));
    assert_eq!(VisibilityCommand::from_arg(Some("--other")), None);
}
