use midtown::json::Json;
use midtown::process::{
    check_cmd_output, check_cmd_result, cmd_stdout, find_orphaned_processes, get_descendant_pids,
    get_ppid, kill_orphaned_processes, output_preview, parse_json_warn, read_pids,
    survivors_to_kill, CmdOutcome, CmdOutput, DescendantSearch,
};

fn make_output(status_code: i32, stdout: &str, stderr: &str) -> CmdOutcome {
    CmdOutcome::Ran {
        success: status_code == 0,
        output: CmdOutput { stdout: stdout.to_string(), stderr: stderr.to_string() },
    }
}

fn not_run(why: &str) -> CmdOutcome {
    CmdOutcome::NotRun(why.to_string())
}

#[test]
fn check_cmd_output_returns_output_on_success() {
    let result = check_cmd_output(make_output(0, "hello\n", ""));
    assert!(result.is_some());
    assert_eq!(result.unwrap().stdout, "hello\n");
}

#[test]
fn check_cmd_output_returns_none_on_nonzero_exit() {
    let result = check_cmd_output(make_output(1, "", "something went wrong\n"));
    assert!(result.is_none());
}

#[test]
fn check_cmd_output_returns_none_on_io_error() {
    assert!(check_cmd_output(not_run("command not found")).is_none());
}

#[test]
fn check_cmd_result_returns_output_on_success() {
    let result = check_cmd_result(make_output(0, "hello\n", ""));
    assert!(result.is_ok());
    assert_eq!(result.ok().unwrap().stdout, "hello\n");
}

#[test]
fn check_cmd_result_returns_stderr_on_nonzero_exit() {
    let result = check_cmd_result(make_output(1, "", "something went wrong\n"));
    assert_eq!(result.err().unwrap(), "something went wrong");
}

#[test]
fn check_cmd_result_returns_error_string_on_io_error() {
    let result = check_cmd_result(not_run("command not found"));
    assert_eq!(result.err().unwrap(), "command not found");
}

#[test]
fn cmd_stdout_returns_trimmed_stdout_on_success() {
    assert_eq!(cmd_stdout(make_output(0, "  hello world  \n", "")).unwrap(), "hello world");
}

#[test]
fn cmd_stdout_returns_none_on_nonzero_exit() {
    assert!(cmd_stdout(make_output(1, "output", "error")).is_none());
}

#[test]
fn cmd_stdout_returns_none_on_io_error() {
    assert!(cmd_stdout(not_run("not found")).is_none());
}

#[test]
fn cmd_stdout_returns_none_on_empty_output() {
    assert!(cmd_stdout(make_output(0, "  \n", "")).is_none());
}

#[test]
fn parse_json_warn_parses_valid_json() {
    let result = parse_json_warn(r#"{"key": "value"}"#);
    assert!(result.is_some());
    assert_eq!(result.unwrap().get("key").and_then(Json::as_str), Some("value"));
}

#[test]
fn parse_json_warn_handles_whitespace_padding() {
    let result = parse_json_warn("  [1, 2, 3]  \n").unwrap();
    let numbers: Vec<Option<i64>> =
        result.as_array().unwrap().iter().map(Json::as_i64).collect();
    assert_eq!(numbers, vec![Some(1), Some(2), Some(3)]);
}

#[test]
fn parse_json_warn_returns_none_on_invalid_json() {
    assert!(parse_json_warn("not json at all").is_none());
}

#[test]
fn parse_json_warn_truncates_safely_on_multibyte_boundary() {
    let mut data = String::from("x");
    for _ in 0..50 {
        data.push('\u{1F600}');
    }
    assert!(parse_json_warn(&data).is_none());
    let preview = output_preview(&data);
    let kept = preview.strip_suffix("...").unwrap();
    assert_eq!(kept.len(), 197);
    assert!(data.starts_with(kept));
    assert_eq!(output_preview(" short \n"), "short");
}

#[test]
fn parents_are_read_from_what_is_printed() {
    assert_eq!(get_ppid(Some("  42\n")), Some(42));
    assert_eq!(get_ppid(Some("x")), None);
    assert_eq!(get_ppid(None), None);
    assert_eq!(read_pids(Some("7\nx\n 8 \n")), vec![7, 8]);
    assert!(read_pids(None).is_empty());
}

#[test]
fn all_descendants_are_found_once() {
    let children = |pid: u32| match pid {
        1 => "2\n3\n",
        2 => "4\n",
        3 => "4\n",
        _ => "",
    };
    let mut search = DescendantSearch::below(1);
    let mut asked = vec![];
    while let Some(pid) = search.next_pid() {
        asked.push(pid);
        get_descendant_pids(&mut search, Some(children(pid)));
    }
    let mut found = search.found.clone();
    found.sort();
    assert_eq!(found, vec![2, 3, 4]);
    assert_eq!(asked.len(), 4);
}

#[test]
fn orphans_are_those_whose_parent_is_the_first_process() {
    let pids = vec![10, 11, 12];
    let parents = vec![Some(1), Some(10), None];
    let orphans = find_orphaned_processes(&pids, &parents);
    assert_eq!(orphans, vec![10]);
    assert_eq!(kill_orphaned_processes(&orphans), ["10"]);
    assert_eq!(survivors_to_kill(&orphans, &vec![false]), None);
    assert_eq!(
        survivors_to_kill(&vec![10, 11], &vec![false, true]),
        Some(vec!["-9".to_string(), "11".to_string()])
    );
}
