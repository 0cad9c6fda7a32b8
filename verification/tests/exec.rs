use lunch::errors::Error;
use lunch::exec::{expand, split_command_line, Arg, CmdLine, Exec, FieldCode};

fn texts(items: &[&str]) -> Vec<String> {
    items.iter().map(|s| s.to_string()).collect()
}

#[test]
#[should_panic]
fn exec_multiple_field_codes() {
    let exec = Exec { program: "echo".to_owned(), args: vec![Arg::FieldCode, Arg::FieldCode] };
    exec.checked_command_line(vec![]).unwrap();
}

#[test]
fn exec_no_args() {
    let exec = Exec { program: "echo".to_owned(), args: vec![] };
    let cmd_line = exec.get_command_line(vec![]);
    assert_eq!(cmd_line.args, vec![] as Vec<String>);
    assert_eq!(cmd_line.cmd, "echo".to_owned());
}

#[test]
fn exec_all_static_args() {
    let exec = Exec {
        program: "echo".to_owned(),
        args: vec![Arg::StaticArg("-n".into()), Arg::StaticArg("-e".into())],
    };
    let cmd_line = exec.get_command_line(vec![]);
    assert_eq!(cmd_line.args, vec!["-n".to_owned(), "-e".to_owned()]);
    assert_eq!(cmd_line.cmd, "echo".to_owned());
}

#[test]
fn exec_field_code_args() {
    let exec = Exec { program: "echo".to_owned(), args: vec![Arg::FieldCode] };
    let cmd_line = exec.get_command_line(vec!["-n".to_owned(), "-e".to_owned()]);
    assert_eq!(cmd_line.args, vec!["-n".to_owned(), "-e".to_owned()]);
    assert_eq!(cmd_line.cmd, "echo".to_owned());
}

#[test]
fn exec_mixed_args() {
    let exec = Exec {
        program: "echo".to_owned(),
        args: vec![Arg::StaticArg("-n".into()), Arg::FieldCode, Arg::StaticArg("-e".into())],
    };
    let cmd_line = exec.get_command_line(vec!["-E".to_owned()]);
    assert_eq!(cmd_line.args, vec!["-n".to_owned(), "-E".to_owned(), "-e".to_owned()]);
    assert_eq!(cmd_line.cmd, "echo".to_owned());
}

#[test]
fn exec_parse_cmd_only() {
    let exec: Exec = "echo".parse().unwrap();
    assert_eq!(&exec.program, &"echo".to_owned());
    assert_eq!(exec.args, vec![]);
}

#[test]
fn exec_parse_args() {
    let exec: Exec = "echo -n -e".parse().unwrap();
    assert_eq!(&exec.program, &"echo".to_owned());
    assert_eq!(
        exec.args,
        vec![Arg::StaticArg("-n".to_owned()), Arg::StaticArg("-e".to_owned())]
    );
}

#[test]
fn exec_parse_field_code() {
    let exec: Exec = "echo -n %f -e".parse().unwrap();
    assert_eq!(&exec.program, &"echo".to_owned());
    assert_eq!(
        exec.args,
        vec![Arg::StaticArg("-n".to_owned()), Arg::FieldCode, Arg::StaticArg("-e".to_owned())]
    );
}

#[test]
fn exec_parse_space() {
    let exec: Exec = r"/opt/Echo\ 2/echo -n %f -e".parse().unwrap();
    assert_eq!(&exec.program, &r"/opt/Echo 2/echo".to_owned());
    assert_eq!(
        exec.args,
        vec![Arg::StaticArg("-n".to_owned()), Arg::FieldCode, Arg::StaticArg("-e".to_owned())]
    );
}

#[test]
fn exec_quoted_arg() {
    let exec: Exec = r##"/opt/Echo\ 2/echo -n %f -e "arg with spaces" -v"##.parse().unwrap();
    assert_eq!(&exec.program, &"/opt/Echo 2/echo".to_owned());
    assert_eq!(
        exec.args,
        vec![
            Arg::StaticArg("-n".to_owned()),
            Arg::FieldCode,
            Arg::StaticArg("-e".to_owned()),
            Arg::StaticArg("arg with spaces".to_owned()),
            Arg::StaticArg("-v".to_owned()),
        ]
    );
}

#[test]
fn test_extract() {
    assert_eq!(FieldCode::extract_field_code("/bin/echo %f"), Some(FieldCode::SingleFile));
    assert_eq!(FieldCode::extract_field_code("/bin/echo %F"), Some(FieldCode::MultipleFiles));
    assert_eq!(FieldCode::extract_field_code("/bin/echo %u"), Some(FieldCode::SingleUrl));
    assert_eq!(FieldCode::extract_field_code("/bin/echo %U"), Some(FieldCode::MultipleUrls));

    assert_eq!(FieldCode::extract_field_code("/bin/echo %G"), None);
    assert_eq!(FieldCode::extract_field_code("/bin/echo"), None);
}

#[test]
fn field_code_single_file_no_args() {
    let exec = Exec { program: "echo".to_owned(), args: vec![Arg::FieldCode] };
    let cmd_lines = FieldCode::SingleFile.expand_exec(&exec, vec![]);
    assert_eq!(cmd_lines.len(), 1);
    let cmd_line = &cmd_lines[0];
    assert_eq!(cmd_line.args, vec![] as Vec<String>);
    assert_eq!(cmd_line.cmd, "echo".to_owned());
}

#[test]
fn field_code_single_file_single_arg() {
    let exec = Exec { program: "echo".to_owned(), args: vec![Arg::FieldCode] };
    let cmd_lines = FieldCode::SingleFile.expand_exec(&exec, vec!["arg".to_owned()]);
    assert_eq!(cmd_lines.len(), 1);
    let cmd_line = &cmd_lines[0];
    assert_eq!(cmd_line.args, vec!["arg".to_owned()]);
    assert_eq!(cmd_line.cmd, "echo".to_owned());
}

#[test]
fn field_code_single_file_multiple_args() {
    let exec = Exec { program: "echo".to_owned(), args: vec![Arg::FieldCode] };
    let cmd_lines =
        FieldCode::SingleFile.expand_exec(&exec, vec!["arg1".to_owned(), "arg2".to_owned()]);
    assert_eq!(cmd_lines.len(), 2);
    let cmd_line = &cmd_lines[0];
    assert_eq!(cmd_line.args, vec!["arg1".to_owned()]);
    assert_eq!(cmd_line.cmd, "echo".to_owned());
    let cmd_line = &cmd_lines[1];
    assert_eq!(cmd_line.args, vec!["arg2".to_owned()]);
    assert_eq!(cmd_line.cmd, "echo".to_owned());
}

#[test]
fn field_code_multiple_files_single_arg() {
    let exec = Exec { program: "echo".to_owned(), args: vec![Arg::FieldCode] };
    let cmd_lines = FieldCode::MultipleFiles.expand_exec(&exec, vec!["arg".to_owned()]);
    assert_eq!(cmd_lines.len(), 1);
    let cmd_line = &cmd_lines[0];
    assert_eq!(cmd_line.args, vec!["arg".to_owned()]);
    assert_eq!(cmd_line.cmd, "echo".to_owned());
}

#[test]
fn field_code_multiple_files_multiple_args() {
    let exec = Exec { program: "echo".to_owned(), args: vec![Arg::FieldCode] };
    let cmd_lines =
        FieldCode::MultipleFiles.expand_exec(&exec, vec!["arg1".to_owned(), "arg2".to_owned()]);
    assert_eq!(cmd_lines.len(), 1);
    let cmd_line = &cmd_lines[0];
    assert_eq!(cmd_line.args, vec!["arg1".to_owned(), "arg2".to_owned()]);
    assert_eq!(cmd_line.cmd, "echo".to_owned());
}

#[test]
fn exec_two_field_codes_give_no_command_line() {
    let exec = Exec { program: "echo".to_owned(), args: vec![Arg::FieldCode, Arg::FieldCode] };
    assert_eq!(exec.field_code_count(), 2);
    assert_eq!(exec.checked_command_line(vec![]), None);
    let parsed = Exec::parse("echo %f %U").unwrap();
    assert_eq!(parsed.field_code_count(), 2);
    assert_eq!(parsed.checked_command_line(texts(&["a"])), None);
}

#[test]
fn exec_one_field_code_gives_a_command_line() {
    let exec = Exec::parse("echo -n %f -e").unwrap();
    assert_eq!(exec.field_code_count(), 1);
    assert_eq!(
        exec.checked_command_line(texts(&["-E"])),
        Some(CmdLine { cmd: "echo".to_owned(), args: texts(&["-n", "-E", "-e"]) })
    );
}

#[test]
fn exec_parse_without_tokens_fails() {
    assert_eq!(Exec::parse(""), Err(Error::InvalidCommandLine("".to_owned())));
    assert_eq!(Exec::parse("\"\""), Err(Error::InvalidCommandLine("\"\"".to_owned())));
    assert_eq!(Exec::parse("\\"), Err(Error::InvalidCommandLine("\\".to_owned())));
}

#[test]
fn split_command_line_follows_the_state_machine() {
    assert_eq!(split_command_line("a b"), texts(&["a", "b"]));
    // a space outside quotes ends the token, empty or not
    assert_eq!(split_command_line("a  b"), texts(&["a", "", "b"]));
    assert_eq!(split_command_line(" a"), texts(&["", "a"]));
    assert_eq!(split_command_line("a "), texts(&["a"]));
    assert_eq!(split_command_line(" "), texts(&[""]));
    // escapes
    assert_eq!(split_command_line(r"a\nb"), texts(&["a\nb"]));
    assert_eq!(split_command_line(r"a\tb"), texts(&["a\tb"]));
    assert_eq!(split_command_line(r"a\\b"), texts(&["a\\b"]));
    assert_eq!(split_command_line(r#"a\"b"#), texts(&["a\"b"]));
    assert_eq!(split_command_line(r"a\ b c"), texts(&["a b", "c"]));
    assert_eq!(split_command_line("a\\"), texts(&["a"]));
    // quotes
    assert_eq!(split_command_line(r#""a b" c"#), texts(&["a b", "c"]));
    assert_eq!(split_command_line(r#"a"b c"d e"#), texts(&["ab cd", "e"]));
    assert_eq!(split_command_line(r#""a b"#), texts(&["a b"]));
    assert_eq!(split_command_line(""), Vec::<String>::new());
}

#[test]
fn arg_parse_knows_the_four_markers() {
    for marker in ["%f", "%F", "%u", "%U"] {
        assert_eq!(Arg::parse(marker), Arg::FieldCode);
    }
    for other in ["%g", "%", "%ff", "f", "", " %f", "%%"] {
        assert_eq!(Arg::parse(other), Arg::StaticArg(other.to_owned()));
    }
    assert_eq!("%u".parse::<Arg>(), Ok(Arg::FieldCode));
}

#[test]
fn extract_field_code_prefers_in_order() {
    assert_eq!(FieldCode::extract_field_code("x %U %u %F %f"), Some(FieldCode::SingleFile));
    assert_eq!(FieldCode::extract_field_code("x %U %u %F"), Some(FieldCode::MultipleFiles));
    assert_eq!(FieldCode::extract_field_code("x %U %u"), Some(FieldCode::SingleUrl));
    assert_eq!(FieldCode::extract_field_code("x%Uy"), Some(FieldCode::MultipleUrls));
    assert_eq!(FieldCode::extract_field_code("%"), None);
    assert_eq!(FieldCode::extract_field_code(""), None);
    assert_eq!(FieldCode::extract_field_code("f%"), None);
}

#[test]
fn expand_single_gives_one_command_per_argument() {
    let exec = Exec::parse("echo -n %f -e").unwrap();
    for code in [FieldCode::SingleFile, FieldCode::SingleUrl] {
        let lines = code.expand_exec(&exec, texts(&["a", "b"]));
        assert_eq!(
            lines,
            vec![
                CmdLine { cmd: "echo".to_owned(), args: texts(&["-n", "a", "-e"]) },
                CmdLine { cmd: "echo".to_owned(), args: texts(&["-n", "b", "-e"]) },
            ]
        );
    }
}

#[test]
fn expand_multiple_gives_one_command_for_all() {
    let exec = Exec::parse("echo -n %F -e").unwrap();
    for code in [FieldCode::MultipleFiles, FieldCode::MultipleUrls] {
        let lines = code.expand_exec(&exec, texts(&["a", "b"]));
        assert_eq!(
            lines,
            vec![CmdLine { cmd: "echo".to_owned(), args: texts(&["-n", "a", "b", "-e"]) }]
        );
    }
}

#[test]
fn expand_without_code_leaves_the_arguments_out() {
    let exec = Exec::parse("echo -n").unwrap();
    let lines = expand(&exec, None, texts(&["a", "b"]));
    assert_eq!(lines, vec![CmdLine { cmd: "echo".to_owned(), args: texts(&["-n"]) }]);
    let lines = expand(&exec, Some(FieldCode::SingleFile), texts(&["a", "b"]));
    assert_eq!(lines.len(), 2);
    let lines = expand(&exec, Some(FieldCode::SingleFile), vec![]);
    assert_eq!(lines, vec![CmdLine { cmd: "echo".to_owned(), args: texts(&["-n"]) }]);
}
