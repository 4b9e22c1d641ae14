use clean_dowman::logger::{init_file_logging, FileLogger};
use clean_dowman::progress_bar::Color;
use clean_dowman::requests::{
    default_download_requests, destination_var_names, env_var_names, expand_env_vars, get_downloads_from_hashmap,
};

#[test]
fn color_codes() {
    assert_eq!(Color::Green.code(), "\x1b[32m");
    assert_eq!(Color::Yellow.code(), "\x1b[33m");
    assert_eq!(Color::Red.code(), "\x1b[31m");
    assert_eq!(Color::Reset.code(), "\x1b[0m");
}

#[test]
fn log_entry_format() {
    let l = FileLogger::new("logs/app.log");
    assert_eq!(l.log_file(), "logs/app.log");
    assert_eq!(l.log_entry("2024-01-02 03:04:05", "INFO", "hello"), "2024-01-02 03:04:05 [INFO] hello\n");
}

#[test]
fn init_logging_succeeds() {
    assert_eq!(init_file_logging("x.log", "debug"), Ok(()));
}

#[test]
fn variable_names_in_order() {
    assert_eq!(env_var_names("%TEMP%\\a\\%USER%.txt"), vec!["TEMP".to_string(), "USER".to_string()]);
    assert_eq!(env_var_names("no vars"), Vec::<String>::new());
    assert_eq!(env_var_names("50% done"), Vec::<String>::new());
    assert_eq!(env_var_names("%%x"), vec!["".to_string()]);
}

#[test]
fn expansion_replaces_known_variables() {
    let values = vec![Some("C:\\Temp".to_string()), None];
    assert_eq!(expand_env_vars("%TEMP%\\a\\%NOPE%.txt", &values), "C:/Temp/a/%NOPE%.txt");
}

#[test]
fn expansion_does_not_rescan_values() {
    let values = vec![Some("%B%".to_string()), Some("x".to_string())];
    assert_eq!(expand_env_vars("%A%-%B%", &values), "%B%-x");
}

#[test]
fn unpaired_percent_is_kept() {
    assert_eq!(expand_env_vars("a%b", &vec![]), "a%b");
    assert_eq!(expand_env_vars("plain/path", &vec![]), "plain/path");
    assert_eq!(expand_env_vars("dir\\file", &vec![]), "dir/file");
}

#[test]
fn requests_from_json() {
    let text = r#"{"b": ["Bee", "http://b", "%TEMP%\\b"], "a": ["Ay", "http://a", "x\\y"]}"#;
    let names = destination_var_names(Some(text));
    assert_eq!(names, vec![Vec::<String>::new(), vec!["TEMP".to_string()]]);
    let values = vec![vec![], vec![Some("C:\\Tmp".to_string())]];
    let reqs = get_downloads_from_hashmap(Some(text), &values);
    assert_eq!(reqs.len(), 2);
    assert_eq!(reqs[0].id, "a");
    assert_eq!(reqs[0].name, "Ay");
    assert_eq!(reqs[0].url, "http://a");
    assert_eq!(reqs[0].destination, "x/y");
    assert_eq!(reqs[1].id, "b");
    assert_eq!(reqs[1].destination, "C:/Tmp/b");
}

#[test]
fn unknown_variable_is_kept() {
    let text = r#"{"a": ["A", "u", "%NOPE%\\f"]}"#;
    let reqs = get_downloads_from_hashmap(Some(text), &vec![vec![None]]);
    assert_eq!(reqs[0].destination, "%NOPE%/f");
    // values not given at all are treated as not set
    let reqs = get_downloads_from_hashmap(Some(text), &vec![]);
    assert_eq!(reqs[0].destination, "%NOPE%/f");
}

#[test]
fn bad_json_gives_defaults() {
    assert!(destination_var_names(Some("not json")).is_empty());
    let reqs = get_downloads_from_hashmap(Some("not json"), &vec![]);
    assert_eq!(reqs.len(), 3);
    let reqs = get_downloads_from_hashmap(None, &vec![]);
    assert_eq!(reqs[1].url, "https://httpbin.org/json");
    assert_eq!(reqs[0].destination, "downloads/rust-logo.png");
}

#[test]
fn default_requests_list() {
    let d = default_download_requests();
    assert_eq!(d.len(), 3);
    assert_eq!(d[0].id, "file1");
    assert_eq!(d[0].name, "Rust Logo");
    assert_eq!(d[0].destination, "downloads/rust-logo.png");
    assert_eq!(d[2].id, "file3");
    assert_eq!(d[2].url, "https://www.w3.org/WAI/ER/tests/xhtml/testfiles/resources/pdf/dummy.pdf");
}
