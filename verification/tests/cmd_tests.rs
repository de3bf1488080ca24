use rustaria::cmd::{Command, Commands};

#[test]
fn reload_is_a_command() {
    let _cmds = Commands::new();
    assert!(matches!(Commands::exec("reload"), Some(Command::Reload)));
}

#[test]
fn other_text_is_no_command() {
    assert!(Commands::exec("").is_none());
    assert!(Commands::exec("reloa").is_none());
    assert!(Commands::exec("reload ").is_none());
    assert!(Commands::exec("Reload").is_none());
    assert!(Commands::exec("stop").is_none());
}
