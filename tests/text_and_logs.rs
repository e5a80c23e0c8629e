use wl::logline::{end_line, log_label, start_line};
use wl::runtime::RuntimeKind;
use wl::samples::{samples, SamplesError};
use wl::source::{check_download_status, default_source, is_http_url, plan_source, ResolveError, SourcePlan};
use wl::cache::cache_context;
use wl::text::{join_pids, push_signed_decimal};

#[test]
fn pids_join_with_commas() {
    assert_eq!(join_pids(&vec![]), "");
    assert_eq!(join_pids(&vec![0]), "0");
    assert_eq!(join_pids(&vec![111, 112, 4294967295]), "111,112,4294967295");
}

#[test]
fn signed_decimals() {
    let mut s = String::new();
    push_signed_decimal(&mut s, -2147483648);
    assert_eq!(s, "-2147483648");
    let mut t = String::from("x=");
    push_signed_decimal(&mut t, 30);
    assert_eq!(t, "x=30");
}

#[test]
fn log_lines_have_stable_format() {
    let label = log_label(&Some("A".to_string()), RuntimeKind::Shell);
    assert_eq!(label, "step=A runtime=shell");
    assert_eq!(log_label(&None, RuntimeKind::Python), "step=unknown runtime=python");
    assert_eq!(
        start_line(42, 1700000000000, &label, "bash -lc exit 3"),
        "start pid=42 ts=1700000000000 step=A runtime=shell cmd=\"bash -lc exit 3\""
    );
    assert_eq!(
        end_line(42, 1700000000123, &label, 123, Some(3)),
        "end pid=42 ts=1700000000123 step=A runtime=shell duration_ms=123 exit=3"
    );
    assert_eq!(
        end_line(42, 5, &label, 0, None),
        "end pid=42 ts=5 step=A runtime=shell duration_ms=0 exit=signal"
    );
}

#[test]
fn http_addresses_are_recognized() {
    assert!(is_http_url("http://example.com/a.py"));
    assert!(is_http_url("https://example.com/a.py"));
    assert!(!is_http_url("ftp://example.com/a.py"));
    assert!(!is_http_url("./http://x"));
    assert!(!is_http_url("http:/"));
}

#[test]
fn sources_are_planned_by_location() {
    let cache = cache_context("plan", "/w");
    assert_eq!(
        plan_source(&None, "runtimes/python/main.py", "py", &cache),
        SourcePlan::Default("runtimes/python/main.py".to_string())
    );
    assert_eq!(
        plan_source(&Some("local.py".to_string()), "d", "py", &cache),
        SourcePlan::Local("local.py".to_string())
    );
    let url = "https://example.com/main.py";
    assert_eq!(
        plan_source(&Some(url.to_string()), "d", "py", &cache),
        SourcePlan::Remote {
            url: url.to_string(),
            download_path: cache.url_source_path(url, "py"),
            run_path: cache.config_source_path(url, "py"),
        }
    );
    let (p, e) = default_source(RuntimeKind::Golang).unwrap();
    assert_eq!((p.as_str(), e.as_str()), ("runtimes/golang/main.go", "go"));
    assert!(default_source(RuntimeKind::Shell).is_none());
}

#[test]
fn download_status_must_be_success() {
    assert_eq!(check_download_status("u", 200), Ok(()));
    assert_eq!(check_download_status("u", 299), Ok(()));
    let err = check_download_status("u", 404).unwrap_err();
    assert_eq!(err, ResolveError::BadStatus { url: "u".to_string(), status: 404 });
    assert_eq!(err.message(), "failed to download 'u': status 404");
    assert_eq!(
        ResolveError::MissingPath("x.py".to_string()).message(),
        "location path 'x.py' does not exist"
    );
}

#[test]
fn samples_go_under_a_fresh_directory() {
    let bundled = vec!["python/main.py".to_string(), "node/main.js".to_string()];
    assert_eq!(
        samples("out", false, &bundled).unwrap(),
        vec!["out/python/main.py".to_string(), "out/node/main.js".to_string()]
    );
    let err = samples("out", true, &bundled).unwrap_err();
    assert_eq!(err, SamplesError::OutputExists("out".to_string()));
    assert_eq!(err.message(), "output directory 'out' already exists");
}
