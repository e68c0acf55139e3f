use rye::environ::{activate, lookup, EnvVar};
use rye::listing::{list_scripts, listing_order, render_line};
use rye::run::{
    activated_path, exec_failure, execute, has_nul, native_args, probe, resolve, script_target,
    Args, ExecutionRequest, RunAction, RunError, ENOENT,
};
use rye::script::{get_script_cmd, Script, ScriptEntry};

fn t(s: &str) -> Vec<u8> {
    s.as_bytes().to_vec()
}

fn ts(list: &[&str]) -> Vec<Vec<u8>> {
    list.iter().map(|s| t(s)).collect()
}

fn alias(name: &str, parts: &[&str]) -> ScriptEntry {
    ScriptEntry { name: t(name), script: Script::Cmd(ts(parts)) }
}

fn passthrough(name: &str) -> ScriptEntry {
    ScriptEntry { name: t(name), script: Script::External(t(name)) }
}

#[test]
fn listing_sorts_without_regard_to_case() {
    let table = vec![passthrough("Zeta"), alias("alpha", &["foo"])];
    assert_eq!(list_scripts(&table), ts(&["alpha (foo)", "Zeta"]));
    assert_eq!(listing_order(&table), vec![1usize, 0usize]);
}

#[test]
fn listing_keeps_names_that_differ_in_case_in_table_order() {
    let table = vec![passthrough("b"), passthrough("A"), passthrough("a"), passthrough("B")];
    assert_eq!(listing_order(&table), vec![1usize, 2, 0, 3]);
    assert_eq!(list_scripts(&table), ts(&["A", "a", "b", "B"]));
}

#[test]
fn listing_puts_a_prefix_first() {
    let table = vec![passthrough("abc"), passthrough("ab"), passthrough("")];
    assert_eq!(list_scripts(&table), ts(&["", "ab", "abc"]));
}

#[test]
fn listing_of_an_empty_table_is_empty() {
    let table: Vec<ScriptEntry> = Vec::new();
    assert_eq!(list_scripts(&table), Vec::<Vec<u8>>::new());
}

#[test]
fn alias_line_shows_arguments_in_brackets() {
    assert_eq!(render_line(&alias("serve", &["flask", "run", "--debug"])), t("serve (flask run --debug)"));
    assert_eq!(render_line(&alias("none", &[])), t("none ()"));
    assert_eq!(render_line(&passthrough("black")), t("black"));
}

#[test]
fn alias_resolves_inside_bin_where_the_file_exists() {
    let table = vec![alias("x", &["y", "1"])];
    let args = ts(&["x", "a"]);
    let script = get_script_cmd(&table, &t("x"));
    assert_eq!(script_target(script, &t("bin")), Some(t("bin/y")));
    assert_eq!(resolve(script, &args, &t("bin"), true), ts(&["bin/y", "1", "a"]));
}

#[test]
fn alias_is_left_to_the_search_path_where_the_file_is_absent() {
    let table = vec![alias("x", &["y", "1"])];
    let args = ts(&["x", "a"]);
    let script = get_script_cmd(&table, &t("x"));
    assert_eq!(resolve(script, &args, &t("bin"), false), ts(&["y", "1", "a"]));
}

#[test]
fn passthrough_resolves_the_name_inside_bin() {
    let table = vec![passthrough("x")];
    let args = ts(&["x", "a"]);
    let script = get_script_cmd(&table, &t("x"));
    assert_eq!(script_target(script, &t("bin")), None);
    assert_eq!(resolve(script, &args, &t("bin"), false), ts(&["bin/x", "a"]));
    assert_eq!(resolve(script, &args, &t("bin"), true), ts(&["bin/x", "a"]));
}

#[test]
fn undefined_command_is_passed_on_verbatim() {
    let table = vec![alias("x", &["y"])];
    let args = ts(&["z", "a", "b"]);
    let script = get_script_cmd(&table, &t("z"));
    assert_eq!(script, None);
    assert_eq!(resolve(script, &args, &t("/venv/bin"), true), ts(&["z", "a", "b"]));
}

#[test]
fn empty_alias_counts_as_undefined() {
    let table = vec![alias("x", &[])];
    let args = ts(&["x", "a"]);
    let script = get_script_cmd(&table, &t("x"));
    assert_eq!(script_target(script, &t("bin")), None);
    assert_eq!(resolve(script, &args, &t("bin"), true), ts(&["x", "a"]));
    assert_eq!(resolve(script, &args, &t("bin"), false), ts(&["x", "a"]));
}

#[test]
fn lookup_takes_the_first_entry_of_a_name() {
    let table = vec![alias("x", &["one"]), alias("x", &["two"]), passthrough("y")];
    assert_eq!(get_script_cmd(&table, &t("x")), Some(&Script::Cmd(ts(&["one"]))));
    assert_eq!(get_script_cmd(&table, &t("y")), Some(&Script::External(t("y"))));
    assert_eq!(get_script_cmd(&table, &t("X")), None);
}

#[test]
fn arguments_with_a_zero_byte_are_dropped() {
    let args = vec![t("prog"), vec![b'a', 0, b'b'], t("last"), vec![0]];
    assert_eq!(native_args(&args), ts(&["prog", "last"]));
    assert!(has_nul(&vec![b'a', 0]));
    assert!(!has_nul(&t("plain")));
    assert!(!has_nul(&Vec::new()));
}

#[test]
fn search_path_gets_bin_in_front() {
    assert_eq!(activated_path(&t("/v/bin"), Some(&t("/usr/bin:/bin"))), t("/v/bin:/usr/bin:/bin"));
    assert_eq!(activated_path(&t("/v/bin"), Some(&t(""))), t("/v/bin:"));
    assert_eq!(activated_path(&t("/v/bin"), None), t("/v/bin"));
}

#[test]
fn run_lists_when_asked_or_without_a_command() {
    let table = vec![passthrough("Zeta"), alias("alpha", &["foo"])];
    let listed = RunAction::List(ts(&["alpha (foo)", "Zeta"]));
    let none = Args { list: false, cmd: None };
    assert_eq!(execute(&none, &table, &t("/v"), &t("/v/bin"), false, None), Ok(listed.clone()));
    let both = Args { list: true, cmd: Some(ts(&["alpha"])) };
    assert_eq!(execute(&both, &table, &t("/v"), &t("/v/bin"), true, None), Ok(listed.clone()));
    let bare = Args { list: true, cmd: Some(Vec::new()) };
    assert_eq!(execute(&bare, &table, &t("/v"), &t("/v/bin"), false, None), Ok(listed.clone()));
    assert_eq!(probe(&bare, &table, &t("/v/bin")), None);
    assert_eq!(probe(&none, &table, &t("/v/bin")), None);
    assert_eq!(probe(&both, &table, &t("/v/bin")), None);
}

#[test]
fn run_builds_the_process_replacement() {
    let table = vec![alias("x", &["y", "1"])];
    let cmd = Args { list: false, cmd: Some(ts(&["x", "a"])) };
    assert_eq!(probe(&cmd, &table, &t("/v/bin")), Some(t("/v/bin/y")));
    let action = execute(&cmd, &table, &t("/v"), &t("/v/bin"), true, Some(&t("/usr/bin")));
    assert_eq!(
        action,
        Ok(RunAction::Replace(ExecutionRequest {
            short_name: t("x"),
            argv: ts(&["/v/bin/y", "1", "a"]),
            virtual_env: t("/v"),
            search_path: t("/v/bin:/usr/bin"),
        }))
    );
    let absent = execute(&cmd, &table, &t("/v"), &t("/v/bin"), false, None);
    assert_eq!(
        absent,
        Ok(RunAction::Replace(ExecutionRequest {
            short_name: t("x"),
            argv: ts(&["y", "1", "a"]),
            virtual_env: t("/v"),
            search_path: t("/v/bin"),
        }))
    );
}

#[test]
fn run_passthrough_alias() {
    let table = vec![passthrough("x")];
    let cmd = Args { list: false, cmd: Some(ts(&["x", "a"])) };
    match execute(&cmd, &table, &t("/v"), &t("bin"), false, None) {
        Ok(RunAction::Replace(request)) => assert_eq!(request.argv, ts(&["bin/x", "a"])),
        other => panic!("a command was given: {:?}", other),
    }
}

#[test]
fn missing_program_is_reported_by_the_short_name() {
    let request = ExecutionRequest {
        short_name: t("x"),
        argv: ts(&["/v/bin/y"]),
        virtual_env: t("/v"),
        search_path: t("/v/bin"),
    };
    assert_eq!(exec_failure(&request, ENOENT), RunError::ScriptNotFound(t("x")));
    assert_eq!(exec_failure(&request, 2), RunError::ScriptNotFound(t("x")));
    assert_eq!(exec_failure(&request, 13), RunError::Os(13));
}

fn var(name: &str, value: &str) -> EnvVar {
    EnvVar { name: t(name), value: t(value) }
}

#[test]
fn activation_sets_two_variables_and_removes_one() {
    let env = vec![
        var("HOME", "/home/u"),
        var("PATH", "/usr/bin"),
        var("PYTHONHOME", "/opt/py"),
        var("VIRTUAL_ENV", "/old"),
        var("LANG", "C"),
    ];
    let after = activate(&env, &t("/v"), &t("/v/bin:/usr/bin"));
    assert_eq!(
        after,
        vec![var("HOME", "/home/u"), var("LANG", "C"), var("VIRTUAL_ENV", "/v"), var("PATH", "/v/bin:/usr/bin")]
    );
    assert_eq!(lookup(&after, &t("PYTHONHOME")), None);
    assert_eq!(lookup(&after, &t("PATH")), Some(&t("/v/bin:/usr/bin")));
    assert_eq!(lookup(&env, &t("PATH")), Some(&t("/usr/bin")));
    assert_eq!(activate(&Vec::new(), &t("/v"), &t("/v/bin")), vec![var("VIRTUAL_ENV", "/v"), var("PATH", "/v/bin")]);
}

#[test]
fn request_gives_the_environment_of_the_new_process() {
    let table: Vec<ScriptEntry> = Vec::new();
    let cmd = Args { list: false, cmd: Some(ts(&["tool"])) };
    let env = vec![var("PATH", "/bin"), var("pythonhome", "kept")];
    let old_path = lookup(&env, &t("PATH"));
    match execute(&cmd, &table, &t("/v"), &t("/v/bin"), false, old_path) {
        Ok(RunAction::Replace(request)) => {
            assert_eq!(request.argv, ts(&["tool"]));
            assert_eq!(
                request.environment(&env),
                vec![var("pythonhome", "kept"), var("VIRTUAL_ENV", "/v"), var("PATH", "/v/bin:/bin")]
            );
        }
        other => panic!("a command was given: {:?}", other),
    }
}

#[test]
fn program_with_a_zero_byte_is_not_found() {
    let table = vec![alias("x", &["y\0z", "1"]), passthrough("p")];
    let name = Args { list: false, cmd: Some(vec![vec![b'a', 0], t("b")]) };
    assert_eq!(
        execute(&name, &table, &t("/v"), &t("/v/bin"), false, None),
        Err(RunError::ScriptNotFound(vec![b'a', 0]))
    );
    let aliased = Args { list: false, cmd: Some(ts(&["x", "a"])) };
    assert_eq!(
        execute(&aliased, &table, &t("/v"), &t("/v/bin"), false, None),
        Err(RunError::ScriptNotFound(t("x")))
    );
    let argument = Args { list: false, cmd: Some(vec![t("p"), vec![0], t("b")]) };
    match execute(&argument, &table, &t("/v"), &t("/v/bin"), false, None) {
        Ok(RunAction::Replace(request)) => assert_eq!(request.argv, ts(&["/v/bin/p", "b"])),
        other => panic!("the program can be named: {:?}", other),
    }
}
