use ockam::branding::Commands;

#[test]
fn test_hide() {
    let commands = Commands::new("node create=host create,project,enroll");
    assert!(!commands.is_hidden("node create"));
    assert!(!commands.is_hidden("project"));
    assert!(!commands.is_hidden("enroll"));
    assert!(commands.is_hidden("command4"));

    let commands = Commands::new("");
    assert!(!commands.is_hidden("command1"));
}

#[test]
fn test_commands() {
    let commands = Commands::new("node create=host create,project,enroll");
    assert_eq!(commands.name("node create"), "host create");
    assert_eq!(commands.name("project"), "project");
    assert_eq!(commands.name("enroll"), "enroll");
    assert_eq!(commands.name("command4"), "command4");

    let commands = Commands::new("");
    assert_eq!(commands.name("command1"), "command1");
}

#[test]
fn entry_text_past_a_second_equals_sign_is_ignored() {
    let commands = Commands::new("a=b=c,,x=");
    assert_eq!(commands.name("a"), "b");
    assert_eq!(commands.name("x"), "");
    assert!(commands.is_hidden("b"));
}
