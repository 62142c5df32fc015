use gptfeed::comment::{comment_marker, get_filetype_suffix};
use gptfeed::envelope::render_envelope;
use gptfeed::load::{decode_text, load_input, normalize_stdin, ResolvedInput};
use gptfeed::pipeline::process_input;
use gptfeed::resolve::{resolve_inputs, Source};

const TEMP_PATH: &str = "/tmp/.tmpQ3xZ7k";

fn strings(items: &[&str]) -> Vec<String> {
    items.iter().map(|s| s.to_string()).collect()
}

fn input(label: &str, content: &str) -> ResolvedInput {
    ResolvedInput { label: label.to_string(), content: content.to_string() }
}

fn labels(sources: &[Source]) -> Vec<Option<String>> {
    sources
        .iter()
        .map(|s| match s {
            Source::Stdin => None,
            Source::File(p) => Some(p.clone()),
        })
        .collect()
}

fn run_one_file(container: &str, comment_prefix: Option<&str>) -> String {
    let files = strings(&[TEMP_PATH]);
    let fetched = vec![Ok(b"test content\n".to_vec())];
    let result = process_input(&files, container, comment_prefix, &fetched);
    assert!(result.is_ok());
    result.ok().unwrap()
}

#[test]
fn test_get_filetype_suffix() {
    assert_eq!(get_filetype_suffix("test.py"), "py");
}

#[test]
fn test_process_files_with_custom_container() {
    let output = run_one_file("pre", None);
    let expected_output = format!("<pre>\n// {}\ntest content\n</pre>\n", TEMP_PATH);
    assert_eq!(output, expected_output);
}

#[test]
fn test_process_files_with_default_container() {
    let output = run_one_file("code", None);
    let expected_output = format!("<code>\n// {}\ntest content\n</code>\n", TEMP_PATH);
    assert_eq!(output, expected_output);
}

#[test]
fn test_process_files_with_custom_comment() {
    let output = run_one_file("code", Some(";"));
    let expected_output = format!("<code>\n; {}\ntest content\n</code>\n", TEMP_PATH);
    assert_eq!(output, expected_output);
}

#[test]
fn suffix_is_text_after_last_dot() {
    assert_eq!(get_filetype_suffix("archive.tar.gz"), "gz");
    assert_eq!(get_filetype_suffix("README"), "");
    assert_eq!(get_filetype_suffix(""), "");
    assert_eq!(get_filetype_suffix("trailing."), "");
    assert_eq!(get_filetype_suffix(".bashrc"), "bashrc");
}

#[test]
fn markers_follow_suffix() {
    assert_eq!(comment_marker("x.py", None), "#");
    assert_eq!(comment_marker("x.rb", None), "#");
    assert_eq!(comment_marker("x.sql", None), "--");
    assert_eq!(comment_marker("x.rs", None), "//");
    assert_eq!(comment_marker("README", None), "//");
    assert_eq!(comment_marker("", None), "//");
    assert_eq!(comment_marker("x.sql", Some(";")), ";");
}

#[test]
fn headers_for_suffixes() {
    let cases = [
        ("x.py", None, "# x.py\n"),
        ("x.sql", None, "-- x.sql\n"),
        ("x.sql", Some(";"), "; x.sql\n"),
        ("README", None, "// README\n"),
    ];
    for (name, prefix, header) in cases {
        let out = render_envelope("c", prefix, &[input(name, "")]);
        assert_eq!(out, format!("<c>\n{}</c>\n", header));
    }
}

#[test]
fn envelope_of_single_input() {
    let files = strings(&["a.txt"]);
    let fetched = vec![Ok(b"hi\n".to_vec())];
    let out = process_input(&files, "demo", None, &fetched).ok().unwrap();
    assert_eq!(out, "<demo>\n// a.txt\nhi\n</demo>\n");
}

#[test]
fn two_inputs_have_one_blank_line_between() {
    let out = render_envelope("code", None, &[input("a.txt", "one\n"), input("b.py", "two\n")]);
    assert_eq!(out, "<code>\n// a.txt\none\n\n# b.py\ntwo\n</code>\n");
}

#[test]
fn empty_input_list_renders_tags_only() {
    assert_eq!(render_envelope("code", None, &[]), "<code>\n</code>\n");
}

#[test]
fn repeated_file_is_loaded_once() {
    let files = strings(&["a.txt", "a.txt", "b.txt"]);
    let sources = resolve_inputs(&files);
    assert_eq!(labels(&sources), vec![Some("a.txt".to_string()), Some("b.txt".to_string())]);
    let fetched = vec![Ok(b"A\n".to_vec()), Ok(b"B\n".to_vec())];
    let out = process_input(&files, "code", None, &fetched).ok().unwrap();
    assert_eq!(out, "<code>\n// a.txt\nA\n\n// b.txt\nB\n</code>\n");
}

#[test]
fn repeated_runs_give_same_output() {
    let files = strings(&["a.txt", "b.sql"]);
    let fetched = vec![Ok(b"x\n".to_vec()), Ok(b"y".to_vec())];
    let first = process_input(&files, "code", None, &fetched).ok().unwrap();
    let second = process_input(&files, "code", None, &fetched).ok().unwrap();
    assert_eq!(first, second);
    assert_eq!(first, "<code>\n// a.txt\nx\n\n-- b.sql\ny</code>\n");
}

#[test]
fn stdin_stands_where_first_requested() {
    let files = strings(&["a.txt", "-", "b.txt", "-"]);
    let sources = resolve_inputs(&files);
    assert_eq!(
        labels(&sources),
        vec![Some("a.txt".to_string()), None, Some("b.txt".to_string())]
    );
}

#[test]
fn no_files_means_stdin() {
    let sources = resolve_inputs(&[]);
    assert_eq!(labels(&sources), vec![None]);
    let fetched = vec![Ok(b"hello".to_vec())];
    let out = process_input(&[], "code", None, &fetched).ok().unwrap();
    assert_eq!(out, "<code>\n// \nhello\n</code>\n");
}

#[test]
fn stdin_gets_one_final_newline() {
    assert_eq!(normalize_stdin("hello".to_string()), "hello\n");
    assert_eq!(normalize_stdin("hello\n".to_string()), "hello\n");
    assert_eq!(normalize_stdin(String::new()), "");
    let loaded = load_input(&Source::Stdin, &Ok(b"hello".to_vec())).ok().unwrap();
    assert_eq!(loaded.label, "");
    assert_eq!(loaded.content, "hello\n");
}

#[test]
fn file_content_is_kept_verbatim() {
    let source = Source::File("a.txt".to_string());
    let loaded = load_input(&source, &Ok(b"no newline".to_vec())).ok().unwrap();
    assert_eq!(loaded.label, "a.txt");
    assert_eq!(loaded.content, "no newline");
}

#[test]
fn invalid_utf8_is_decoded_lossily() {
    assert_eq!(decode_text(b"ok \xff end"), "ok \u{FFFD} end");
    assert_eq!(decode_text("h\u{e9}".as_bytes()), "h\u{e9}");
}

#[test]
fn missing_file_fails_the_run() {
    let files = strings(&["a.txt", "missing.txt", "b.txt"]);
    let fetched = vec![
        Ok(b"A\n".to_vec()),
        Err("No such file or directory".to_string()),
        Ok(b"B\n".to_vec()),
    ];
    let result = process_input(&files, "code", None, &fetched);
    let failure = result.err().unwrap();
    assert_eq!(failure.path, "missing.txt");
    assert_eq!(failure.cause, "No such file or directory");
}

#[test]
fn first_failure_is_reported() {
    let files = strings(&["x.txt", "y.txt"]);
    let fetched = vec![Err("denied".to_string()), Err("gone".to_string())];
    let failure = process_input(&files, "code", None, &fetched).err().unwrap();
    assert_eq!(failure.path, "x.txt");
    assert_eq!(failure.cause, "denied");
}
