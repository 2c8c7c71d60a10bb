use cli_runtime::entry::{too_many_notice, version_text};
use cli_runtime::{Command, Runtime, Step};

fn entry(short: char, long: &str, description: &str) -> Command<u8> {
    Command::new(short, long.to_string(), 0, description.to_string())
}

fn standard() -> Runtime<u8> {
    Runtime::new(
        vec![
            entry('h', "help", "Explains available commands."),
            entry('v', "version", "Outputs tool version."),
        ],
        None,
    )
}

#[test]
fn help_of_the_two_standard_commands() {
    let rt = standard();
    assert_eq!(
        rt.gen_help(),
        "Help:\n\t -h, --help: Explains available commands.\n\t -v, --version: Outputs tool version.\n"
    );
    let no_args = vec!["prog".to_string()];
    assert_eq!(rt.plan(&no_args), Step::ShowHelp);
}

#[test]
fn help_of_an_empty_table_is_the_header() {
    let rt: Runtime<u8> = Runtime::new(Vec::new(), None);
    assert_eq!(rt.gen_help(), "Help:\n");
}

#[test]
fn help_has_one_line_more_than_commands() {
    for n in 0..6usize {
        let commands: Vec<Command<u8>> = (0..n)
            .map(|i| entry(char::from(b'a' + i as u8), &format!("flag{}", i), "Does a thing."))
            .collect();
        let rt = Runtime::new(commands, None);
        let text = rt.gen_help();
        assert_eq!(text.matches('\n').count(), 1 + n);
        assert_eq!(text.lines().count(), 1 + n);
        assert!(text.ends_with('\n'));
    }
}

#[test]
fn help_is_the_same_every_time() {
    let rt = standard();
    let first = rt.gen_help();
    assert_eq!(rt.gen_help(), first);
    assert_eq!(rt.gen_help(), first);
}

#[test]
fn help_keeps_order_and_duplicates() {
    let rt = Runtime::new(
        vec![
            entry('z', "zeta", "Last letter first."),
            entry('a', "alpha", "First letter second."),
            entry('z', "zeta", "Last letter first."),
        ],
        None,
    );
    assert_eq!(
        rt.gen_help(),
        "Help:\n\t -z, --zeta: Last letter first.\n\t -a, --alpha: First letter second.\n\t -z, --zeta: Last letter first.\n"
    );
}

#[test]
fn help_line_of_one_command() {
    let rt = Runtime::new(vec![entry('q', "quiet", "Says less.")], Some(7));
    assert_eq!(rt.gen_help(), "Help:\n\t -q, --quiet: Says less.\n");
}

#[test]
fn help_writes_characters_beyond_ascii() {
    let rt = Runtime::new(vec![entry('é', "été", "L'été, « enfin ».")], None);
    assert_eq!(rt.gen_help(), "Help:\n\t -é, --été: L'été, « enfin ».\n");
}

#[test]
fn help_with_empty_texts() {
    let rt = Runtime::new(vec![entry('x', "", "")], None);
    assert_eq!(rt.gen_help(), "Help:\n\t -x, --: \n");
}

#[test]
fn version_line() {
    assert_eq!(version_text("tool", "1.2.3", "Ada Lovelace"), "tool version 1.2.3 by Ada Lovelace");
    assert_eq!(version_text("", "", ""), " version  by ");
}

#[test]
fn notice_of_too_many_arguments() {
    assert_eq!(too_many_notice(), "Too many arguments!");
}

#[test]
fn builtins_stand_in_front_of_the_declared() {
    let table = cli_runtime::entry::with_builtins(
        10u8,
        11u8,
        vec![entry('b', "build", "Builds."), entry('c', "clean", "Cleans.")],
    );
    assert_eq!(table.len(), 4);
    assert_eq!(table[0].short_flag, 'h');
    assert_eq!(table[0].long_flag, "help");
    assert_eq!(table[0].description, "Explains available commands.");
    assert_eq!(table[0].command, 10);
    assert_eq!(table[1].short_flag, 'v');
    assert_eq!(table[1].long_flag, "version");
    assert_eq!(table[1].description, "Outputs tool version.");
    assert_eq!(table[1].command, 11);
    assert_eq!(table[2].long_flag, "build");
    assert_eq!(table[3].long_flag, "clean");
    let rt = Runtime::new(table, None);
    assert_eq!(
        rt.gen_help(),
        "Help:\n\t -h, --help: Explains available commands.\n\t -v, --version: Outputs tool version.\n\t -b, --build: Builds.\n\t -c, --clean: Cleans.\n"
    );
}

#[test]
fn builtins_alone_give_the_standard_help() {
    let rt = Runtime::new(cli_runtime::entry::with_builtins(0u8, 1u8, Vec::new()), None);
    assert_eq!(rt.gen_help(), standard().gen_help());
    assert_eq!(rt.commands.len(), 2);
}

#[test]
fn declared_commands_cannot_take_the_place_of_builtins() {
    let table = cli_runtime::entry::with_builtins(
        0u8,
        1u8,
        vec![entry('h', "help", "Mine."), entry('v', "version", "Mine too.")],
    );
    let rt = Runtime::new(table, None);
    assert_eq!(rt.resolve("-h"), Some(0));
    assert_eq!(rt.resolve("--help"), Some(0));
    assert_eq!(rt.resolve("-v"), Some(1));
    assert_eq!(rt.resolve("--version"), Some(1));
    assert!(!rt.has_unique_flags());
}
