use leannet::commands::start::StartCommand;
use leannet::commands::Cli;
use leannet::commands::Command;

fn start(config: &str) -> StartCommand {
    StartCommand { config: config.to_string() }
}

#[test]
fn subcommand_is_the_command() {
    let cli = Cli { command: Some(Command::Start(start("a.toml"))), start: None };
    assert_eq!(cli.command(), Command::Start(start("a.toml")));
}

#[test]
fn bare_arguments_mean_start() {
    let cli = Cli { command: None, start: Some(start("b.toml")) };
    assert_eq!(cli.command(), Command::Start(start("b.toml")));
}

#[test]
fn subcommand_wins_over_bare_arguments() {
    let cli = Cli { command: Some(Command::Start(start("a.toml"))), start: Some(start("b.toml")) };
    assert_eq!(cli.command(), Command::Start(start("a.toml")));
}

#[test]
fn commands_are_copied_whole() {
    let command = Command::Start(start("c.toml"));
    assert_eq!(command.clone(), command);
    assert_eq!(start("d.toml").clone(), start("d.toml"));
}
