use wl::runtime::{detect_command, ensure_runtime_available, runtime_kind, RuntimeError, RuntimeKind};

#[test]
fn detection_commands_follow_the_runtime_name() {
    assert_eq!(detect_command("Node.JS"), Some("node".to_string()));
    assert_eq!(detect_command("CPython"), Some("python3".to_string()));
    assert_eq!(detect_command("go"), Some("go".to_string()));
    assert_eq!(detect_command("java"), Some("javac".to_string()));
    assert_eq!(detect_command("Native(Rust)"), Some("rustc".to_string()));
    assert_eq!(detect_command("shell"), Some("bash".to_string()));
    assert_eq!(detect_command("bin"), None);
    assert_eq!(detect_command("cobol"), None);
}

#[test]
fn preflight_verdicts() {
    assert_eq!(ensure_runtime_available("python", true), Ok(()));
    assert_eq!(
        ensure_runtime_available("python", false),
        Err(RuntimeError::NotDetected {
            runtime: "python".to_string(),
            command: "python3".to_string()
        })
    );
    assert_eq!(ensure_runtime_available("BIN", false), Ok(()));
    assert_eq!(
        ensure_runtime_available("cobol", true),
        Err(RuntimeError::NotRecognized("cobol".to_string()))
    );
}

#[test]
fn launchable_kinds() {
    assert_eq!(runtime_kind("Python3"), Ok(RuntimeKind::Python));
    assert_eq!(runtime_kind("node.js"), Ok(RuntimeKind::Node));
    assert_eq!(runtime_kind("GO"), Ok(RuntimeKind::Golang));
    assert_eq!(runtime_kind("bin"), Ok(RuntimeKind::Bin));
    assert_eq!(runtime_kind("shell"), Ok(RuntimeKind::Shell));
    assert_eq!(runtime_kind("jvm"), Err(RuntimeError::NotImplemented("jvm".to_string())));
}

#[test]
fn runtime_error_messages() {
    assert_eq!(
        RuntimeError::NotDetected { runtime: "go".to_string(), command: "go".to_string() }
            .message(),
        "runtime 'go' not detected (missing 'go')"
    );
    assert_eq!(
        RuntimeError::NotImplemented("jvm".to_string()).message(),
        "runtime 'jvm' is not implemented yet"
    );
}
