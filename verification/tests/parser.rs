use archive_me_plz::parser::{ArgumentIn, Command, UserInput};
use archive_me_plz::text::{same_text, strip_leading_dashes};
use archive_me_plz::{Date, Error};

fn args(list: &[&str]) -> Vec<String> {
    let mut v = vec!["archive_me_plz".to_string()];
    for a in list {
        v.push(a.to_string());
    }
    v
}

fn run(list: &[&str]) -> UserInput {
    match UserInput::from_user_input(args(list)) {
        Ok(Command::Run(input)) => input,
        other => panic!("expected inputs, got {:?}", other),
    }
}

#[test]
fn readme_example_reads_three_arguments() {
    let input = run(&["52", "2024-01-01", "/path/to/directory"]);
    assert_eq!(input.required_min_files, 52);
    assert_eq!(input.oldest_to_keep, Date { year: 2024, month: 1, day: 1 });
    assert_eq!(input.folder_path, "/path/to/directory");
}

#[test]
fn help_text_example_reads_three_arguments() {
    let input = run(&["5", "2024-01-01", "/home/user/folder_with_lots_of_files"]);
    assert_eq!(input.required_min_files, 5);
    assert_eq!(input.oldest_to_keep, Date { year: 2024, month: 1, day: 1 });
    assert_eq!(input.folder_path, "/home/user/folder_with_lots_of_files");
}

#[test]
fn no_argument_asks_for_help() {
    assert!(matches!(UserInput::from_user_input(args(&[])), Ok(Command::Help)));
}

#[test]
fn help_with_any_dashes_asks_for_help() {
    assert!(matches!(UserInput::from_user_input(args(&["help"])), Ok(Command::Help)));
    assert!(matches!(UserInput::from_user_input(args(&["-help"])), Ok(Command::Help)));
    assert!(matches!(UserInput::from_user_input(args(&["--help"])), Ok(Command::Help)));
    assert!(matches!(UserInput::from_user_input(args(&["---help"])), Ok(Command::Help)));
}

#[test]
fn one_other_argument_is_refused() {
    assert!(matches!(
        UserInput::from_user_input(args(&["5"])),
        Err(Error::OnlyProvidedOneArgument)
    ));
    assert!(matches!(
        UserInput::from_user_input(args(&["HELP"])),
        Err(Error::OnlyProvidedOneArgument)
    ));
}

#[test]
fn two_arguments_are_refused() {
    assert!(matches!(
        UserInput::from_user_input(args(&["5", "2024-01-01"])),
        Err(Error::OnlyProvideTwoArguments)
    ));
}

#[test]
fn four_arguments_are_refused() {
    assert!(matches!(
        UserInput::from_user_input(args(&["5", "2024-01-01", "/x", "extra"])),
        Err(Error::TooManyArguments)
    ));
}

#[test]
fn arguments_are_read_by_position_even_when_repeated() {
    let input = run(&["5", "2024-01-01", "5"]);
    assert_eq!(input.required_min_files, 5);
    assert_eq!(input.oldest_to_keep, Date { year: 2024, month: 1, day: 1 });
    assert_eq!(input.folder_path, "5");

    let input = run(&["3", "2024-06-30", "2024-06-30"]);
    assert_eq!(input.oldest_to_keep, Date { year: 2024, month: 6, day: 30 });
    assert_eq!(input.folder_path, "2024-06-30");
}

#[test]
fn dashes_are_dropped_for_the_help_word_only() {
    let input = run(&["7", "2023-03-04", "--folder"]);
    assert_eq!(input.required_min_files, 7);
    assert_eq!(input.folder_path, "--folder");
}

#[test]
fn plus_sign_is_accepted_in_the_amount() {
    let input = run(&["+8", "2023-03-04", "/x"]);
    assert_eq!(input.required_min_files, 8);
}

#[test]
fn a_bad_amount_is_refused() {
    assert!(matches!(
        UserInput::from_user_input(args(&["abc", "2024-01-01", "/tmp/dir"])),
        Err(Error::ParsInt(_))
    ));
    assert!(matches!(
        UserInput::from_user_input(args(&["-5", "2024-01-01", "/x"])),
        Err(Error::ParsInt(_))
    ));
    assert!(matches!(
        UserInput::from_user_input(args(&["5", "5", "/data"])),
        Err(Error::DateFormat(_))
    ));
}

#[test]
fn a_bad_date_is_refused() {
    assert!(matches!(
        UserInput::from_user_input(args(&["52", "01/01/2024", "/tmp/dir"])),
        Err(Error::DateFormat(_))
    ));
}

#[test]
fn a_bad_amount_is_reported_before_a_bad_date() {
    assert!(matches!(
        UserInput::from_user_input(args(&["x", "y", "/z"])),
        Err(Error::ParsInt(_))
    ));
}

#[test]
fn the_program_name_plays_no_part() {
    let mut other = args(&["9", "2021-09-09", "/p"]);
    other[0] = "something else".to_string();
    match (UserInput::from_user_input(args(&["9", "2021-09-09", "/p"])), UserInput::from_user_input(other)) {
        (Ok(Command::Run(a)), Ok(Command::Run(b))) => {
            assert_eq!(a.required_min_files, b.required_min_files);
            assert_eq!(a.oldest_to_keep, b.oldest_to_keep);
            assert_eq!(a.folder_path, b.folder_path);
        }
        other => panic!("unexpected {:?}", other),
    }
}

#[test]
fn default_input_starts_at_the_epoch() {
    let input = UserInput::default();
    assert_eq!(input.required_min_files, 0);
    assert_eq!(input.oldest_to_keep, Date { year: 1970, month: 1, day: 1 });
    assert_eq!(input.folder_path, "");
}

#[test]
fn argument_names_are_read() {
    assert!(matches!("amount".parse::<ArgumentIn>(), Ok(ArgumentIn::Amount)));
    assert!(matches!("oldest".parse::<ArgumentIn>(), Ok(ArgumentIn::Oldest)));
    assert!(matches!("folder_path".parse::<ArgumentIn>(), Ok(ArgumentIn::FolderPath)));
    assert!(matches!("Amount".parse::<ArgumentIn>(), Err(Error::InvalidInput)));
    assert!(matches!(ArgumentIn::parse_name("folder"), Err(Error::InvalidInput)));
}

#[test]
fn leading_dashes_are_stripped() {
    assert_eq!(strip_leading_dashes("--help"), "help");
    assert_eq!(strip_leading_dashes("-a-b"), "a-b");
    assert_eq!(strip_leading_dashes("---"), "");
    assert_eq!(strip_leading_dashes("plain"), "plain");
    assert_eq!(strip_leading_dashes(&strip_leading_dashes("--x")), strip_leading_dashes("--x"));
}

#[test]
fn same_text_compares_characters() {
    assert!(same_text("abc", "abc"));
    assert!(!same_text("abc", "abd"));
    assert!(!same_text("abc", "ab"));
    assert!(same_text("", ""));
}
