use petool::common::{parse_number, read_arg};
use petool::error::PeError;
use petool::petool::{
    find_command, render_help, root, usage_line, CliError, Command, CommandName, HELP,
};

fn cl_args(words: &[&str]) -> Vec<String> {
    words.iter().map(|w| w.to_string()).collect()
}

#[test]
fn numbers_are_read_from_digits() {
    assert_eq!(parse_number(b"0"), Some(0));
    assert_eq!(parse_number(b"7"), Some(7));
    assert_eq!(parse_number(b"4096"), Some(4096));
    assert_eq!(parse_number(b"0000000000000012"), Some(12));
    assert_eq!(parse_number(b"4294967295"), Some(u32::MAX));
}

#[test]
fn what_is_no_number_is_refused() {
    assert_eq!(parse_number(b""), None);
    assert_eq!(parse_number(b"4294967296"), None);
    assert_eq!(parse_number(b"99999999999999999999999999"), None);
    assert_eq!(parse_number(b"12a"), None);
    assert_eq!(parse_number(b"a12"), None);
    assert_eq!(parse_number(b"-1"), None);
    assert_eq!(parse_number(b"+1"), None);
    assert_eq!(parse_number(b" 1"), None);
    assert_eq!(parse_number(b"0x10"), None);
    assert_eq!(parse_number(b"1/"), None);
    assert_eq!(parse_number(b"1:"), None);
    assert_eq!(parse_number(b"42949672950"), None);
}

#[test]
fn read_arg_names_the_place_of_a_bad_argument() {
    let args = cl_args(&["image.exe", "12", "x", "4294967296", "\u{e9}"]);
    assert_eq!(read_arg(&args, 1), Ok(12));
    assert_eq!(read_arg(&args, 0), Err(PeError::InvalidArgument { index: 0 }));
    assert_eq!(read_arg(&args, 2), Err(PeError::InvalidArgument { index: 2 }));
    assert_eq!(read_arg(&args, 3), Err(PeError::InvalidArgument { index: 3 }));
    assert_eq!(read_arg(&args, 4), Err(PeError::InvalidArgument { index: 4 }));
}

#[test]
fn help_names_the_program_and_lists_the_commands() {
    assert_eq!(
        render_help("petool"),
        format!("usage: petool <command> [args ...]\n{}", HELP)
    );
    assert!(render_help("x").starts_with("usage: x <command> [args ...]\ncommands:\n    dump "));
    assert!(render_help("").ends_with("    help   -- this information"));
}

#[test]
fn commands_are_found_by_their_words() {
    assert_eq!(find_command(&"dump".to_string()), Some(CommandName::Dump));
    assert_eq!(find_command(&"genlds".to_string()), Some(CommandName::Genlds));
    assert_eq!(find_command(&"pe2obj".to_string()), Some(CommandName::Pe2obj));
    assert_eq!(find_command(&"patch".to_string()), Some(CommandName::Patch));
    assert_eq!(find_command(&"setdd".to_string()), Some(CommandName::Setdd));
    assert_eq!(find_command(&"setvs".to_string()), Some(CommandName::Setvs));
    assert_eq!(find_command(&"help".to_string()), Some(CommandName::Help));
    assert_eq!(find_command(&"Dump".to_string()), None);
    assert_eq!(find_command(&"".to_string()), None);
    assert_eq!(usage_line(CommandName::Dump), "usage: petool dump <image>");
    assert_eq!(
        usage_line(CommandName::Setdd),
        "usage: petool setdd <image> <#DataDirectory> <VirtualAddress> <Size>"
    );
}

#[test]
fn a_command_line_without_a_command_is_refused() {
    assert_eq!(root(&cl_args(&["petool"])), Err(CliError::NoCommand));
    assert_eq!(root(&cl_args(&[])), Err(CliError::NoCommand));
    assert_eq!(
        root(&cl_args(&["petool", "frob", "a"])),
        Err(CliError::UnknownCommand { name: "frob".to_string() })
    );
}

#[test]
fn commands_are_read_with_their_arguments() {
    assert_eq!(
        root(&cl_args(&["petool", "dump", "a.exe"])),
        Ok(Command::Dump { image: "a.exe".to_string() })
    );
    assert_eq!(
        root(&cl_args(&["petool", "genlds", "a.exe"])),
        Ok(Command::Genlds { image: "a.exe".to_string() })
    );
    assert_eq!(
        root(&cl_args(&["petool", "pe2obj", "a.exe", "a.obj"])),
        Ok(Command::Pe2obj { input: "a.exe".to_string(), output: "a.obj".to_string() })
    );
    assert_eq!(
        root(&cl_args(&["petool", "patch", "a.exe"])),
        Ok(Command::Patch { image: "a.exe".to_string(), section: ".patch".to_string() })
    );
    assert_eq!(
        root(&cl_args(&["petool", "patch", "a.exe", ".fix"])),
        Ok(Command::Patch { image: "a.exe".to_string(), section: ".fix".to_string() })
    );
    assert_eq!(
        root(&cl_args(&["petool", "setdd", "a.exe", "1", "8192", "40"])),
        Ok(Command::Setdd {
            image: "a.exe".to_string(),
            index: 1,
            virtual_address: 8192,
            size: 40
        })
    );
    assert_eq!(
        root(&cl_args(&["petool", "setvs", "a.exe", ".text", "4096"])),
        Ok(Command::Setvs {
            image: "a.exe".to_string(),
            section: ".text".to_string(),
            virtual_size: 4096
        })
    );
    assert_eq!(root(&cl_args(&["petool", "help"])), Ok(Command::Help));
    assert_eq!(root(&cl_args(&["petool", "help", "me"])), Ok(Command::Help));
}

#[test]
fn a_wrong_count_of_arguments_is_refused() {
    for (words, command) in [
        (vec!["petool", "dump"], CommandName::Dump),
        (vec!["petool", "dump", "a", "b"], CommandName::Dump),
        (vec!["petool", "genlds"], CommandName::Genlds),
        (vec!["petool", "pe2obj", "a"], CommandName::Pe2obj),
        (vec!["petool", "patch"], CommandName::Patch),
        (vec!["petool", "patch", "a", "b", "c"], CommandName::Patch),
        (vec!["petool", "setdd", "a", "1", "2"], CommandName::Setdd),
        (vec!["petool", "setvs", "a", "b", "3", "4"], CommandName::Setvs),
    ] {
        assert_eq!(root(&cl_args(&words)), Err(CliError::Usage { command }));
    }
}

#[test]
fn the_first_bad_number_is_reported() {
    assert_eq!(
        root(&cl_args(&["petool", "setdd", "a.exe", "one", "x", "40"])),
        Err(CliError::Argument {
            command: CommandName::Setdd,
            error: PeError::InvalidArgument { index: 1 }
        })
    );
    assert_eq!(
        root(&cl_args(&["petool", "setdd", "a.exe", "1", "x", "y"])),
        Err(CliError::Argument {
            command: CommandName::Setdd,
            error: PeError::InvalidArgument { index: 2 }
        })
    );
    assert_eq!(
        root(&cl_args(&["petool", "setdd", "a.exe", "1", "2", ""])),
        Err(CliError::Argument {
            command: CommandName::Setdd,
            error: PeError::InvalidArgument { index: 3 }
        })
    );
    assert_eq!(
        root(&cl_args(&["petool", "setvs", "a.exe", ".text", "4k"])),
        Err(CliError::Argument {
            command: CommandName::Setvs,
            error: PeError::InvalidArgument { index: 2 }
        })
    );
}
