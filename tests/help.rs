use parson::Command;

#[test]
fn help_text_lays_out_every_section() {
    let c = Command::new("tool")
        .version("2.0")
        .description("Does things")
        .example("tool run")
        .subcommand(Command::new("run").description("Run it"));
    let expected = String::from("tool 2.0\n")
        + "\nDESCRIPTION\n  Does things\n"
        + "\nUSAGE\n  $ parson COMMAND [OPTIONS]\n"
        + "\nEXAMPLE\n  $ tool run\n"
        + "\nCOMMANDS\n  Use \"parson [COMMAND] --help\" for more information about a command.\n"
        + "\nAvailable Commands:\n"
        + "  help  \n  run   Run it\n"
        + "\n";
    assert_eq!(c.help_text("parson"), expected);
}

#[test]
fn help_text_sorts_subcommands() {
    let c = Command::new("tool")
        .subcommand(Command::new("zeta").description("last"))
        .subcommand(Command::new("alpha").description("first"));
    let text = c.help_text("parson");
    let a = text.find("  alpha  first").unwrap();
    let h = text.find("  help").unwrap();
    let z = text.find("  zeta   last").unwrap();
    assert!(a < h && h < z);
}

#[test]
fn help_text_of_help_command() {
    let c = Command::new("help");
    let expected = String::from("help\n")
        + "\nUSAGE\n  $ parson [OPTIONS]\n"
        + "\nCOMMANDS\n  Use \"parson [COMMAND] --help\" for more information about a command.\n"
        + "\nAvailable Commands:\n"
        + "\n";
    assert_eq!(c.help_text("parson"), expected);
}

#[test]
fn version_text_names_program() {
    let c = Command::new("namesay").version("1.0.0");
    assert_eq!(c.version_text("parson"), "parson 1.0.0");
}
