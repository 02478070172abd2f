use tiks_shell::compose::{and, execute_line, pipe, stdout_file};
use tiks_shell::dispatch::{
    cat, cd, cp, echo_print, grep, update_response, help, history, ls, mkdir, move_file, pwd, rename, rm, touch, turn_dir,
    turn_file, whoami, ExternalAction,
};
use tiks_shell::fsmodel::{FsModel, FsNode};
use tiks_shell::outcome::{ShellError, STATUS_OK};
use tiks_shell::parse::{parse_line, Joiner};
use tiks_shell::session::{history_push, SessionContext};
use tiks_shell::strutil::{mark_pattern, str_contains, str_eq, tokenize};
use tiks_shell::procs::{add_command_to_thread, add_thread_to_process, CommandPriority};
use tiks_shell::clock::get_time;

fn fresh_session() -> SessionContext {
    SessionContext::new(
        String::from("alice"),
        String::from("hunter2"),
        String::from("/home/alice"),
    )
}

fn run(line: &str, session: &mut SessionContext, fs: &mut FsModel)
    -> Result<Vec<Result<(usize, String), ShellError>>, ShellError> {
    let mut actions: Vec<ExternalAction> = Vec::new();
    execute_line(line, session, fs, &mut actions)
}

#[test]
fn empty_path_touch_is_benign() {
    let mut fs = FsModel::new();
    let r = touch("", &mut fs).unwrap();
    assert_eq!(r.0, STATUS_OK);
    assert_eq!(r.1, "there is None");
    assert_eq!(fs.entries.len(), 0);
}

#[test]
fn empty_path_mkdir_rm_cat_are_benign() {
    let mut fs = FsModel::new();
    let r = mkdir("", &mut fs).unwrap();
    assert_eq!((r.0, r.1.as_str()), (STATUS_OK, "there is None"));
    let r = rm("", &mut fs).unwrap();
    assert_eq!((r.0, r.1.as_str()), (STATUS_OK, "there is None"));
    let r = cat("", &fs).unwrap();
    assert_eq!((r.0, r.1.as_str()), (STATUS_OK, "there is None"));
    assert_eq!(fs.entries.len(), 0);
}

#[test]
fn rm_removes_directory_and_file_by_probe() {
    let mut fs = FsModel::new();
    fs.set("d", FsNode::Dir);
    fs.set("f", FsNode::File(String::from("x")));
    assert_eq!(fs.probe("d"), Some(true));
    let r = rm("d", &mut fs).unwrap();
    assert_eq!(r.0, STATUS_OK);
    assert_eq!(r.1, "");
    assert_eq!(fs.probe("d"), None);
    assert_eq!(fs.probe("f"), Some(false));
    rm("f", &mut fs).unwrap();
    assert_eq!(fs.probe("f"), None);
    // removing a missing path is silently a no-op
    let r = rm("f", &mut fs).unwrap();
    assert_eq!(r.0, STATUS_OK);
}

#[test]
fn pipe_appends_previous_text_to_next_args() {
    let mut session = fresh_session();
    let mut fs = FsModel::new();
    let results = run("echo hello | echo bye", &mut session, &mut fs).unwrap();
    assert_eq!(results.len(), 1);
    let out = results[0].as_ref().unwrap();
    assert_eq!(out.1, "bye hello");
}

#[test]
fn pipe_chains_three_segments_in_order() {
    let mut session = fresh_session();
    let mut fs = FsModel::new();
    let results = run("echo a | echo b | echo c", &mut session, &mut fs).unwrap();
    let out = results[0].as_ref().unwrap();
    assert_eq!(out.1, "c b a");
}

#[test]
fn pipe_failure_aborts_rest_of_chain() {
    let mut session = fresh_session();
    let mut fs = FsModel::new();
    let results = run("cat missing | echo after", &mut session, &mut fs).unwrap();
    assert_eq!(results.len(), 1);
    assert_eq!(results[0], Err(ShellError::NotFound));
}

#[test]
fn background_dispatches_every_segment() {
    let mut session = fresh_session();
    let mut fs = FsModel::new();
    let results = run("touch a & nosuchcmd x & touch b", &mut session, &mut fs).unwrap();
    assert_eq!(results.len(), 3);
    assert!(results[0].is_ok());
    assert_eq!(results[1], Err(ShellError::UnsupportedCommand));
    assert!(results[2].is_ok());
    // the middle failure prevented neither sibling
    assert_eq!(fs.probe("a"), Some(false));
    assert_eq!(fs.probe("b"), Some(false));
}

#[test]
fn history_grows_once_per_parsed_line_in_order() {
    let mut session = fresh_session();
    let mut fs = FsModel::new();
    run("pwd", &mut session, &mut fs).unwrap();
    run("touch a", &mut session, &mut fs).unwrap();
    run("ls", &mut session, &mut fs).unwrap();
    assert_eq!(session.history.len(), 3);
    assert_eq!(session.history[0], "pwd");
    assert_eq!(session.history[1], "touch a");
    assert_eq!(session.history[2], "ls");
    // a line that fails to parse enters no history
    assert!(run("", &mut session, &mut fs).is_err());
    assert_eq!(session.history.len(), 3);
    let (code, text) = history(&session);
    assert_eq!(code, STATUS_OK);
    assert_eq!(text, "pwd\ntouch a\nls\n");
}

#[test]
fn grep_searches_file_lines_with_highlight() {
    let mut fs = FsModel::new();
    fs.set(
        "existing_file.txt",
        FsNode::File(String::from("foo bar\nbaz\nfoofoo")),
    );
    let (code, text) = grep("foo", "existing_file.txt", &fs);
    assert_eq!(code, STATUS_OK);
    assert_eq!(
        text,
        "\x1b[31mfoo\x1b[0m bar\n\x1b[31mfoo\x1b[0m\x1b[31mfoo\x1b[0m\n"
    );
}

#[test]
fn grep_falls_back_to_literal_tokens() {
    let fs = FsModel::new();
    let (code, text) = grep("foo", "foo bar baz", &fs);
    assert_eq!(code, STATUS_OK);
    assert_eq!(text, "\x1b[31mfoo\x1b[0m\n");
}

#[test]
fn grep_with_no_match_emits_nothing() {
    let mut fs = FsModel::new();
    fs.set("f.txt", FsNode::File(String::from("alpha\nbeta")));
    let (code, text) = grep("zzz", "f.txt", &fs);
    assert_eq!(code, STATUS_OK);
    assert_eq!(text, "");
}

#[test]
fn redirect_writes_exact_payload() {
    let mut session = fresh_session();
    let mut fs = FsModel::new();
    fs.set("out.txt", FsNode::File(String::from("old contents")));
    let results = run("echo hello > out.txt", &mut session, &mut fs).unwrap();
    let out = results[0].as_ref().unwrap();
    assert_eq!(out.1, "write over!");
    let r = cat("out.txt", &fs).unwrap();
    assert_eq!(r.1, "hello");
}

#[test]
fn elevation_needs_the_right_secret() {
    let mut session = fresh_session();
    assert_eq!(
        session.toggle_root(String::from("wrong")),
        Err(ShellError::ElevationFailure)
    );
    assert!(!session.root);
    let (_, name) = whoami(&session);
    assert_eq!(name, "alice");
    let r = session.toggle_root(String::from("hunter2")).unwrap();
    assert_eq!(r.1, "Sucessfully to change root");
    assert!(session.root);
    let (_, name) = whoami(&session);
    assert_eq!(name, "root");
}

#[test]
fn parse_rejects_bad_lines() {
    let mut session = fresh_session();
    let mut fs = FsModel::new();
    assert_eq!(run("", &mut session, &mut fs), Err(ShellError::EmptyPipeline));
    assert_eq!(run("   ", &mut session, &mut fs), Err(ShellError::EmptyPipeline));
    assert_eq!(
        run("a | | b", &mut session, &mut fs),
        Err(ShellError::DanglingOperator)
    );
    assert_eq!(
        run("a | b &", &mut session, &mut fs),
        Err(ShellError::MixedOperators)
    );
    assert_eq!(
        run("echo x > a b", &mut session, &mut fs),
        Err(ShellError::MalformedRedirect)
    );
    assert_eq!(
        run("> out.txt", &mut session, &mut fs),
        Err(ShellError::MalformedRedirect)
    );
    assert_eq!(session.history.len(), 0);
}

#[test]
fn parse_classifies_joiners() {
    let toks = tokenize("a b | c");
    let pl = parse_line(&toks).unwrap();
    assert_eq!(pl.joiner, Joiner::Piped);
    assert_eq!(pl.segments.len(), 2);
    let toks = tokenize("a & b & c");
    let pl = parse_line(&toks).unwrap();
    assert_eq!(pl.joiner, Joiner::Background);
    assert_eq!(pl.segments.len(), 3);
    let toks = tokenize("echo hi > f");
    let pl = parse_line(&toks).unwrap();
    assert_eq!(pl.joiner, Joiner::Redirected);
    assert_eq!(pl.redirect.as_deref(), Some("f"));
    assert_eq!(pl.segments[0], vec![String::from("echo"), String::from("hi")]);
    let toks = tokenize("pwd");
    let pl = parse_line(&toks).unwrap();
    assert_eq!(pl.joiner, Joiner::Single);
}

#[test]
fn unknown_command_is_unsupported() {
    let mut session = fresh_session();
    let mut fs = FsModel::new();
    let results = run("frobnicate now", &mut session, &mut fs).unwrap();
    assert_eq!(results[0], Err(ShellError::UnsupportedCommand));
}

#[test]
fn cd_changes_cwd_only_to_existing_directory() {
    let mut session = fresh_session();
    let mut fs = FsModel::new();
    fs.set("projects", FsNode::Dir);
    let r = cd("projects", &mut session, &fs).unwrap();
    assert_eq!(r.1, "Successfully changed directory to projects.");
    let (_, here) = pwd(&session);
    assert_eq!(here, "projects");
    assert_eq!(
        cd("missing", &mut session, &fs),
        Err(ShellError::NotFound)
    );
    assert_eq!(
        cd("", &mut session, &fs),
        Err(ShellError::NotFound)
    );
}

#[test]
fn touch_existing_file_is_an_error() {
    let mut fs = FsModel::new();
    touch("a", &mut fs).unwrap();
    assert_eq!(touch("a", &mut fs), Err(ShellError::AlreadyExists));
}

#[test]
fn cat_missing_file_is_not_found() {
    let fs = FsModel::new();
    assert_eq!(cat("ghost", &fs), Err(ShellError::NotFound));
}

#[test]
fn cat_reads_back_file_contents() {
    let mut fs = FsModel::new();
    fs.set("notes", FsNode::File(String::from("line one\nline two")));
    let r = cat("notes", &fs).unwrap();
    assert_eq!(r.1, "line one\nline two");
    // reading a directory yields empty text, not an error
    fs.set("d", FsNode::Dir);
    let r = cat("d", &fs).unwrap();
    assert_eq!(r.1, "");
}

#[test]
fn rename_and_move_rebind_the_entry() {
    let mut fs = FsModel::new();
    fs.set("a", FsNode::File(String::from("payload")));
    rename("a", "b", &mut fs).unwrap();
    assert_eq!(fs.probe("a"), None);
    assert_eq!(cat("b", &fs).unwrap().1, "payload");
    move_file("b", "c", &mut fs).unwrap();
    assert_eq!(fs.probe("b"), None);
    assert_eq!(cat("c", &fs).unwrap().1, "payload");
    // renaming a missing source changes nothing
    let r = rename("ghost", "d", &mut fs).unwrap();
    assert_eq!(r.0, STATUS_OK);
    assert_eq!(fs.probe("d"), None);
}

#[test]
fn cp_copies_file_contents() {
    let mut fs = FsModel::new();
    fs.set("src.txt", FsNode::File(String::from("payload")));
    let r = cp("src.txt", "dst.txt", &mut fs).unwrap();
    assert_eq!(r.1, "Successfully to copy dst.txt");
    assert_eq!(cat("dst.txt", &fs).unwrap().1, "payload");
    assert_eq!(cat("src.txt", &fs).unwrap().1, "payload");
    assert_eq!(cp("ghost", "x", &mut fs), Err(ShellError::NotFound));
    let r = cp("", "x", &mut fs).unwrap();
    assert_eq!(r.1, "there is None");
}

#[test]
fn mkdir_is_idempotent_about_existing_entries() {
    let mut fs = FsModel::new();
    let r = mkdir("d", &mut fs).unwrap();
    assert_eq!(r.1, "Successfully created d");
    let r = mkdir("d", &mut fs).unwrap();
    assert_eq!(r.1, "Successfully created d");
    assert_eq!(fs.probe("d"), Some(true));
}

#[test]
fn ls_lists_entry_names() {
    let mut fs = FsModel::new();
    fs.set("a", FsNode::File(String::new()));
    fs.set("d", FsNode::Dir);
    let (code, text) = ls(&fs);
    assert_eq!(code, STATUS_OK);
    assert_eq!(text, "a    d    ");
}

#[test]
fn apt_and_tar_yield_collaborator_actions() {
    let mut session = fresh_session();
    let mut fs = FsModel::new();
    let mut actions: Vec<ExternalAction> = Vec::new();
    let results = execute_line("apt -i ripgrep", &mut session, &mut fs, &mut actions).unwrap();
    let out = results[0].as_ref().unwrap();
    assert_eq!(out.1, "Successfully download Package ripgrep");
    assert_eq!(actions, vec![ExternalAction::Install(String::from("ripgrep"))]);

    let mut actions: Vec<ExternalAction> = Vec::new();
    execute_line("tar -zxvf file.txt arch.tar.gz", &mut session, &mut fs, &mut actions).unwrap();
    assert_eq!(
        actions,
        vec![ExternalAction::Compress(String::from("file.txt"), String::from("arch.tar.gz"))]
    );

    let mut actions: Vec<ExternalAction> = Vec::new();
    let results = execute_line("tar -xvf arch.tar.gz", &mut session, &mut fs, &mut actions).unwrap();
    assert_eq!(results[0].as_ref().unwrap().1, "Successfully Decompression");
    assert_eq!(actions, vec![ExternalAction::Decompress(String::from("arch.tar.gz"))]);

    let mut actions: Vec<ExternalAction> = Vec::new();
    let results = execute_line("sudo", &mut session, &mut fs, &mut actions).unwrap();
    assert_eq!(results[0].as_ref().unwrap().1, "Sucessfully to change root");
    assert_eq!(actions, vec![ExternalAction::PromptElevation]);

    // an empty package name is the benign placeholder, with no action
    let mut actions: Vec<ExternalAction> = Vec::new();
    let results = execute_line("apt -i", &mut session, &mut fs, &mut actions).unwrap();
    assert_eq!(results[0].as_ref().unwrap().1, "there is None");
    assert!(actions.is_empty());
}

#[test]
fn turn_dir_routes_and_rejects() {
    let mut session = fresh_session();
    let mut fs = FsModel::new();
    turn_dir(String::from("mkdir"), String::from("d"), &mut session, &mut fs).unwrap();
    assert_eq!(fs.probe("d"), Some(true));
    turn_dir(String::from("cd"), String::from("d"), &mut session, &mut fs).unwrap();
    assert_eq!(session.cwd, "d");
    turn_dir(String::from("rm"), String::from("d"), &mut session, &mut fs).unwrap();
    assert_eq!(fs.probe("d"), None);
    assert_eq!(
        turn_dir(String::from("cat"), String::from("d"), &mut session, &mut fs),
        Err(ShellError::UnsupportedCommand)
    );
}

#[test]
fn turn_file_routes_and_rejects() {
    let mut fs = FsModel::new();
    turn_file(String::from("touch"), String::from("f"), &mut fs).unwrap();
    assert_eq!(fs.probe("f"), Some(false));
    let r = turn_file(String::from("cat"), String::from("f"), &mut fs).unwrap();
    assert_eq!(r.1, "");
    turn_file(String::from("rm"), String::from("f"), &mut fs).unwrap();
    assert_eq!(fs.probe("f"), None);
    assert_eq!(
        turn_file(String::from("mkdir"), String::from("f"), &mut fs),
        Err(ShellError::UnsupportedCommand)
    );
}

#[test]
fn update_response_reports_both_outcomes() {
    let r = update_response("2.1", true);
    assert_eq!(r, (STATUS_OK, String::from("Successfully Update version 2.1")));
    let r = update_response("2.1", false);
    assert_eq!(r, (STATUS_OK, String::from("The current version is the latest one")));
    assert_eq!(echo_print(String::from("hi")), (STATUS_OK, String::from("hi")));
}

#[test]
fn whoami_and_help_texts() {
    let session = fresh_session();
    let (_, name) = whoami(&session);
    assert_eq!(name, "alice");
    assert!(help().contains("Usage: <command> [options] [arg]"));
}

#[test]
fn string_helpers_behave() {
    assert!(str_eq("abc", "abc"));
    assert!(!str_eq("abc", "abd"));
    assert!(!str_eq("abc", "ab"));
    assert!(str_contains("hello world", "lo wo"));
    assert!(!str_contains("hello", "world"));
    assert!(str_contains("anything", ""));
    assert_eq!(mark_pattern("foo bar foo", "foo"), "\x1b[31mfoo\x1b[0m bar \x1b[31mfoo\x1b[0m");
    assert_eq!(mark_pattern("no match", "zzz"), "no match");
    assert_eq!(tokenize("  a  bb\tccc "), vec!["a", "bb", "ccc"]);
    assert_eq!(tokenize(""), Vec::<String>::new());
}

#[test]
fn pipe_and_and_run_on_token_lists() {
    let mut session = fresh_session();
    let mut fs = FsModel::new();
    let mut actions: Vec<ExternalAction> = Vec::new();
    let toks = tokenize("echo one | echo two");
    let r = pipe(&toks, &mut session, &mut fs, &mut actions).unwrap();
    assert_eq!(r, (STATUS_OK, String::from("two one")));
    let toks = tokenize("touch x & touch y");
    let rs = and(&toks, &mut session, &mut fs, &mut actions);
    assert_eq!(rs.len(), 2);
    assert_eq!(fs.probe("x"), Some(false));
    assert_eq!(fs.probe("y"), Some(false));
}

#[test]
fn stdout_file_propagates_command_failure() {
    let mut session = fresh_session();
    let mut fs = FsModel::new();
    let mut actions: Vec<ExternalAction> = Vec::new();
    let seg = tokenize("cat missing");
    let r = stdout_file(&seg, "out.txt", &mut session, &mut fs, &mut actions);
    assert_eq!(r, Err(ShellError::NotFound));
    assert_eq!(fs.probe("out.txt"), None);
}

#[test]
fn history_push_appends_raw_lines() {
    let mut session = fresh_session();
    history_push(&mut session, String::from("first"));
    history_push(&mut session, String::from("second"));
    assert_eq!(session.history, vec!["first", "second"]);
}

#[test]
fn get_time_renders_a_full_timestamp() {
    let (code, text) = get_time();
    assert_eq!(code, STATUS_OK);
    // YYYY-MM-DD HH:MM:SS
    assert!(text.len() >= 19);
    let bytes = text.as_bytes();
    assert_eq!(bytes[bytes.len() - 9], b' ');
    assert_eq!(bytes[bytes.len() - 6], b':');
    assert_eq!(bytes[bytes.len() - 3], b':');
}

#[test]
fn error_messages_are_fixed() {
    assert_eq!(ShellError::UnsupportedCommand.message(), "Unsupported command");
    assert_eq!(ShellError::ElevationFailure.message(), "Sorry, try again");
    assert_eq!(ShellError::EmptyPipeline.message(), "empty pipeline");
}

#[test]
fn control_blocks_wrap_one_command() {
    let tcb = add_command_to_thread(7, String::from("ls"), CommandPriority::Normal);
    assert_eq!(tcb.threads.len(), 1);
    assert_eq!(tcb.threads[0].tid, 7);
    assert_eq!(tcb.threads[0].name, "ls");
    let pm = add_thread_to_process(3, String::from("shell"), tcb);
    assert_eq!(pm.processes.len(), 1);
    assert_eq!(pm.processes[0].pid, 3);
    assert_eq!(pm.processes[0].name, "shell");
    assert_eq!(pm.processes[0].tcb.threads.len(), 1);
}
