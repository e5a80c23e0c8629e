//! Runtime kinds: which names a step may use, which toolchain command
//! proves a runtime is installed, and which kinds can be launched.
use vstd::prelude::*;
use crate::text::{lower_of, lowercase_text, owned_text, push_text, same_text};

verus! {

/// The execution kinds that steps can be launched with.
#[derive(Debug, Clone, Copy, PartialEq, Eq, Structural)]
pub enum RuntimeKind {
    Python,
    Node,
    Golang,
    Bin,
    Shell,
}

/// Why a runtime cannot be used.
#[derive(Debug, PartialEq, Eq)]
pub enum RuntimeError {
    /// The runtime's toolchain command was not found on this host.
    NotDetected { runtime: String, command: String },
    /// The runtime name is not one this library knows.
    NotRecognized(String),
    /// The runtime is known but steps cannot be launched with it.
    NotImplemented(String),
}

impl RuntimeError {
    /// A human-readable description of the error.
    pub fn message(&self) -> (r: String) {
        let mut out = String::new();
        push_text(&mut out, "runtime '");
        match self {
            RuntimeError::NotDetected { runtime, command } => {
                push_text(&mut out, runtime.as_str());
                push_text(&mut out, "' not detected (missing '");
                push_text(&mut out, command.as_str());
                push_text(&mut out, "')");
            },
            RuntimeError::NotRecognized(runtime) => {
                push_text(&mut out, runtime.as_str());
                push_text(&mut out, "' is not recognized");
            },
            RuntimeError::NotImplemented(runtime) => {
                push_text(&mut out, runtime.as_str());
                push_text(&mut out, "' is not implemented yet");
            },
        }
        out
    }
}

/// The command whose presence shows that the runtime named `name` (lower
/// case) is installed; `bin` needs none.
pub open spec fn detect_command_of(name: Seq<char>) -> Option<Seq<char>> {
    if name == "node"@ || name == "node.js"@ {
        Some("node"@)
    } else if name == "python"@ || name == "python3"@ || name == "cpython"@ {
        Some("python3"@)
    } else if name == "golang"@ || name == "go"@ {
        Some("go"@)
    } else if name == "jvm"@ || name == "java"@ || name == "javac"@ {
        Some("javac"@)
    } else if name == "native(rust)"@ || name == "rust"@ || name == "rustc"@ {
        Some("rustc"@)
    } else if name == "shell"@ {
        Some("bash"@)
    } else {
        None
    }
}

/// The command to look for on the host before a step of `runtime` runs.
pub fn detect_command(runtime: &str) -> (r: Option<String>)
    ensures
        match r {
            Some(c) => detect_command_of(lower_of(runtime@)) == Some(c@),
            None => detect_command_of(lower_of(runtime@)) is None,
        },
{
    let name = lowercase_text(runtime);
    let n = name.as_str();
    if same_text(n, "node") || same_text(n, "node.js") {
        Some(owned_text("node"))
    } else if same_text(n, "python") || same_text(n, "python3") || same_text(n, "cpython") {
        Some(owned_text("python3"))
    } else if same_text(n, "golang") || same_text(n, "go") {
        Some(owned_text("go"))
    } else if same_text(n, "jvm") || same_text(n, "java") || same_text(n, "javac") {
        Some(owned_text("javac"))
    } else if same_text(n, "native(rust)") || same_text(n, "rust") || same_text(n, "rustc") {
        Some(owned_text("rustc"))
    } else if same_text(n, "shell") {
        Some(owned_text("bash"))
    } else {
        None
    }
}

/// The preflight verdict on `runtime`, given whether its detection command
/// (see `detect_command`) was found on the host: a runtime with such a
/// command is available iff it was found; `bin` always is; any other name
/// is not recognized.
pub fn ensure_runtime_available(runtime: &str, detected: bool) -> (r: Result<(), RuntimeError>)
    ensures
        match detect_command_of(lower_of(runtime@)) {
            Some(c) => if detected {
                r is Ok
            } else {
                r matches Err(RuntimeError::NotDetected { runtime: rt, command: cmd }) && rt@
                    == runtime@ && cmd@ == c
            },
            None => if lower_of(runtime@) == "bin"@ {
                r is Ok
            } else {
                r matches Err(RuntimeError::NotRecognized(rt)) && rt@ == runtime@
            },
        },
{
    match detect_command(runtime) {
        Some(command) => {
            if detected {
                Ok(())
            } else {
                Err(RuntimeError::NotDetected { runtime: owned_text(runtime), command })
            }
        },
        None => {
            let name = lowercase_text(runtime);
            if same_text(name.as_str(), "bin") {
                Ok(())
            } else {
                Err(RuntimeError::NotRecognized(owned_text(runtime)))
            }
        },
    }
}

/// The kind that a runtime named `name` (lower case) launches with.
pub open spec fn kind_of(name: Seq<char>) -> Option<RuntimeKind> {
    if name == "python"@ || name == "python3"@ || name == "cpython"@ {
        Some(RuntimeKind::Python)
    } else if name == "node"@ || name == "node.js"@ {
        Some(RuntimeKind::Node)
    } else if name == "golang"@ || name == "go"@ {
        Some(RuntimeKind::Golang)
    } else if name == "bin"@ {
        Some(RuntimeKind::Bin)
    } else if name == "shell"@ {
        Some(RuntimeKind::Shell)
    } else {
        None
    }
}

/// The adapter a step of `runtime` is launched with.
pub fn runtime_kind(runtime: &str) -> (r: Result<RuntimeKind, RuntimeError>)
    ensures
        match kind_of(lower_of(runtime@)) {
            Some(k) => r == Ok::<RuntimeKind, RuntimeError>(k),
            None => r matches Err(RuntimeError::NotImplemented(rt)) && rt@ == runtime@,
        },
{
    let name = lowercase_text(runtime);
    let n = name.as_str();
    if same_text(n, "python") || same_text(n, "python3") || same_text(n, "cpython") {
        Ok(RuntimeKind::Python)
    } else if same_text(n, "node") || same_text(n, "node.js") {
        Ok(RuntimeKind::Node)
    } else if same_text(n, "golang") || same_text(n, "go") {
        Ok(RuntimeKind::Golang)
    } else if same_text(n, "bin") {
        Ok(RuntimeKind::Bin)
    } else if same_text(n, "shell") {
        Ok(RuntimeKind::Shell)
    } else {
        Err(RuntimeError::NotImplemented(owned_text(runtime)))
    }
}

impl RuntimeKind {
    /// The name of the kind in log labels.
    pub fn label(&self) -> (r: &'static str)
        ensures
            r@ == label_of(*self),
    {
        match self {
            RuntimeKind::Python => "python",
            RuntimeKind::Node => "node",
            RuntimeKind::Golang => "golang",
            RuntimeKind::Bin => "bin",
            RuntimeKind::Shell => "shell",
        }
    }
}

/// The name of a kind in log labels.
pub open spec fn label_of(k: RuntimeKind) -> Seq<char> {
    match k {
        RuntimeKind::Python => "python"@,
        RuntimeKind::Node => "node"@,
        RuntimeKind::Golang => "golang"@,
        RuntimeKind::Bin => "bin"@,
        RuntimeKind::Shell => "shell"@,
    }
}

} // verus!
