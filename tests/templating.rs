use wl::config::{Parallel, Step};
use wl::state::PidTable;
use wl::templating::{apply_placeholders, expand_token, expand_value, TemplateError};

fn table(entries: &[(&str, &[u32])]) -> PidTable {
    let mut t = PidTable::new();
    for (id, pids) in entries {
        t.insert(id, &pids.to_vec());
    }
    t
}

#[test]
fn single_pid_expands_to_its_decimal() {
    let t = table(&[("A", &[111])]);
    assert_eq!(expand_value("p\"{A:pid}\"", &t), Ok("111".to_string()));
}

#[test]
fn pid_list_expands_comma_joined() {
    let t = table(&[("A", &[111, 112])]);
    assert_eq!(expand_value("p\"{A:pid,}\"", &t), Ok("111,112".to_string()));
}

#[test]
fn unmarked_value_is_unchanged() {
    let t = table(&[("A", &[111])]);
    assert_eq!(
        expand_value("hello {not a placeholder}", &t),
        Ok("hello {not a placeholder}".to_string())
    );
    assert_eq!(expand_value("{A:pid}", &t), Ok("{A:pid}".to_string()));
}

#[test]
fn missing_closing_brace_is_an_error() {
    let t = table(&[("A", &[111])]);
    assert_eq!(expand_value("p\"{A:pid\"", &t), Err(TemplateError::MissingClosingBrace));
}

#[test]
fn missing_closing_quote_is_an_error() {
    let t = table(&[("A", &[111])]);
    assert_eq!(expand_value("p\"{A:pid}", &t), Err(TemplateError::MissingClosingQuote));
    assert_eq!(expand_value("p\"", &t), Err(TemplateError::MissingClosingQuote));
}

#[test]
fn text_around_tokens_is_kept() {
    let t = table(&[("A", &[7, 8]), ("B", &[42])]);
    assert_eq!(
        expand_value("p\"perf -p {A:pid,} --tid {B:pid} end\"", &t),
        Ok("perf -p 7,8 --tid 42 end".to_string())
    );
    assert_eq!(expand_value("p\"\"", &t), Ok(String::new()));
}

#[test]
fn unknown_step_is_an_error() {
    let t = table(&[("A", &[1])]);
    assert_eq!(expand_value("p\"{Z:pid}\"", &t), Err(TemplateError::UnknownId("Z".to_string())));
    assert_eq!(expand_value("p\"{Z:pid,}\"", &t), Err(TemplateError::UnknownId("Z".to_string())));
}

#[test]
fn empty_pid_list_has_no_first_pid() {
    let t = table(&[("A", &[])]);
    assert_eq!(expand_value("p\"{A:pid}\"", &t), Err(TemplateError::NoPid("A".to_string())));
    assert_eq!(expand_value("p\"{A:pid,}\"", &t), Ok(String::new()));
}

#[test]
fn unknown_key_and_missing_key_are_errors() {
    let t = table(&[("A", &[1])]);
    assert_eq!(
        expand_token("A:ppid", &t),
        Err(TemplateError::UnknownKey("ppid".to_string()))
    );
    assert_eq!(expand_token("A", &t), Err(TemplateError::MissingKey("A".to_string())));
    assert_eq!(expand_token("A:pid", &t), Ok("1".to_string()));
}

#[test]
fn later_publication_replaces_earlier() {
    let t = table(&[("A", &[1]), ("A", &[2, 3])]);
    assert_eq!(expand_token("A:pid,", &t), Ok("2,3".to_string()));
}

fn shell_step() -> Step {
    Step {
        id: Some("B".to_string()),
        runtime: "shell".to_string(),
        parallel: Some(Parallel { processes: Some(2), threads: None }),
        location: None,
        stdout: None,
        duration_ms: None,
        env: Some(vec![
            ("TARGET".to_string(), "p\"{A:pid}\"".to_string()),
            ("PLAIN".to_string(), "x{y}".to_string()),
        ]),
        wrapper: Some("p\"taskset -p {A:pid}\"".to_string()),
        executable: None,
        args: Some(vec!["p\"{A:pid}\"".to_string()]),
        command: Some("p\"kill -0 {A:pid,}\"".to_string()),
        shell: None,
        depends_on: None,
        when: None,
    }
}

#[test]
fn step_fields_are_templated() {
    let t = table(&[("A", &[111, 112])]);
    let out = apply_placeholders(shell_step(), &t).unwrap();
    assert_eq!(out.command, Some("kill -0 111,112".to_string()));
    assert_eq!(out.wrapper, Some("taskset -p 111".to_string()));
    assert_eq!(
        out.env,
        Some(vec![
            ("TARGET".to_string(), "111".to_string()),
            ("PLAIN".to_string(), "x{y}".to_string()),
        ])
    );
    assert_eq!(out.args, Some(vec!["p\"{A:pid}\"".to_string()]));
    assert_eq!(out.id, Some("B".to_string()));
}

#[test]
fn step_templating_fails_on_first_bad_field() {
    let t = table(&[]);
    match apply_placeholders(shell_step(), &t) {
        Err(e) => assert_eq!(e, TemplateError::UnknownId("A".to_string())),
        Ok(_) => panic!("templating should fail"),
    }
}

#[test]
fn template_error_messages_name_the_culprit() {
    assert_eq!(TemplateError::UnknownId("A".to_string()).message(), "unknown id 'A'");
    assert_eq!(TemplateError::NoPid("A".to_string()).message(), "no pid for id 'A'");
    assert_eq!(
        TemplateError::MissingClosingBrace.message(),
        "placeholder missing closing '}'"
    );
}
