//! Building the concrete commands of a step: the runtime's own argument
//! vector, an optional wrapper in front of it, one command per replica.
use vstd::prelude::*;
use crate::config::{env_of, processes_of, step_env, step_processes, ConfigError, Step};
use crate::runtime::RuntimeKind;
use crate::text::{joined, join_texts, owned_text, push_text, texts, trim_of, trim_text};

verus! {

/// What `str::split_whitespace` gives for a text: it depends on the
/// characters alone.
pub uninterp spec fn words_of(s: Seq<char>) -> Seq<Seq<char>>;

/// Relies on str::split_whitespace: the whitespace-separated words of a
/// text, in order.
#[verifier::external_body]
fn split_args(value: &str) -> (r: Vec<String>)
    ensures
        texts(r@) == words_of(value@),
{
    value.split_whitespace().map(|part| part.to_string()).collect()
}

/// One process to start: its argument vector (program first), the text
/// shown for it in logs, and its environment overrides.
#[derive(Debug)]
pub struct CommandSpec {
    pub argv: Vec<String>,
    pub display: String,
    pub env: Vec<(String, String)>,
}

/// A command as character sequences.
pub struct CommandView {
    pub argv: Seq<Seq<char>>,
    pub display: Seq<char>,
    pub env: Seq<(String, String)>,
}

impl View for CommandSpec {
    type V = CommandView;

    open spec fn view(&self) -> CommandView {
        CommandView { argv: texts(self.argv@), display: self.display@, env: self.env@ }
    }
}

/// The wrapper of a step, when it has one that is not blank.
pub open spec fn active_wrapper(wrapper: Option<String>) -> Option<Seq<char>> {
    match wrapper {
        Some(w) => if trim_of(w@).len() == 0 {
            None
        } else {
            Some(w@)
        },
        None => None,
    }
}

/// The wrapper's program and arguments: its words, or the whole text when
/// it has none.
pub open spec fn wrapper_parts(w: Seq<char>) -> Seq<Seq<char>> {
    if words_of(w).len() == 0 {
        seq![w]
    } else {
        words_of(w)
    }
}

/// The argument vector run for `base` under an optional wrapper: the
/// wrapper's words, `--`, then `base`.
pub open spec fn wrapped_argv(wrapper: Option<String>, base: Seq<Seq<char>>) -> Seq<Seq<char>> {
    match active_wrapper(wrapper) {
        Some(w) => wrapper_parts(w) + seq!["--"@] + base,
        None => base,
    }
}

/// The log text of `base` under an optional wrapper.
pub open spec fn wrapped_display(wrapper: Option<String>, base: Seq<Seq<char>>) -> Seq<char> {
    match active_wrapper(wrapper) {
        Some(w) => joined(words_of(w), " "@) + " -- "@ + joined(base, " "@),
        None => joined(base, " "@),
    }
}

fn copy_texts(v: &Vec<String>, out: &mut Vec<String>)
    ensures
        final(out)@.len() == old(out)@.len() + v@.len(),
        texts(final(out)@) == texts(old(out)@) + texts(v@),
{
    let n = v.len();
    let mut i: usize = 0;
    while i < n
        invariant
            n == v@.len(),
            i <= n,
            texts(out@) == texts(old(out)@) + texts(v@).take(i as int),
            out@.len() == old(out)@.len() + i,
        decreases n - i,
    {
        let ghost before = out@;
        out.push(v[i].clone());
        assert(texts(out@) =~= texts(before).push(v@[i as int]@));
        i += 1;
        assert(texts(out@) =~= texts(old(out)@) + texts(v@).take(i as int));
    }
    assert(texts(v@).take(n as int) =~= texts(v@));
}

/// A base command with an optional wrapper in front: the wrapper's words
/// become the program and its first arguments, followed by `--` and the
/// base command; a blank wrapper is ignored.
pub fn wrap_command(wrapper: &Option<String>, base: &Vec<String>) -> (r: CommandSpec)
    ensures
        texts(r.argv@) == wrapped_argv(*wrapper, texts(base@)),
        r.display@ == wrapped_display(*wrapper, texts(base@)),
        r.env@ == Seq::<(String, String)>::empty(),
{
    let w = match wrapper {
        Some(w) => w,
        None => return base_command(base),
    };
    let trimmed = trim_text(w.as_str());
    if trimmed.as_str().unicode_len() == 0 {
        return base_command(base);
    }
    let parts = split_args(w.as_str());
    let mut argv: Vec<String> = Vec::new();
    if parts.len() == 0 {
        argv.push(owned_text(w.as_str()));
        assert(texts(argv@) =~= seq![w@]);
    } else {
        copy_texts(&parts, &mut argv);
        assert(texts(argv@) =~= texts(parts@));
    }
    let ghost head = texts(argv@);
    argv.push(owned_text("--"));
    assert(texts(argv@) =~= head + seq!["--"@]);
    copy_texts(base, &mut argv);
    let mut display = join_texts(&parts, " ");
    push_text(&mut display, " -- ");
    let tail = join_texts(base, " ");
    push_text(&mut display, tail.as_str());
    CommandSpec { argv, display, env: Vec::new() }
}

/// A command that runs `base` as it is.
fn base_command(base: &Vec<String>) -> (r: CommandSpec)
    ensures
        texts(r.argv@) == texts(base@),
        r.display@ == joined(texts(base@), " "@),
        r.env@ == Seq::<(String, String)>::empty(),
{
    let mut argv: Vec<String> = Vec::new();
    copy_texts(base, &mut argv);
    assert(texts(argv@) =~= texts(base@));
    CommandSpec { argv, display: join_texts(base, " "), env: Vec::new() }
}

/// The extra arguments of a step.
pub open spec fn args_of(step: Step) -> Seq<Seq<char>> {
    match step.args {
        Some(a) => texts(a@),
        None => Seq::empty(),
    }
}

/// The shell of a shell step: its `shell`, or `bash`.
pub open spec fn shell_of(step: Step) -> Seq<char> {
    match step.shell {
        Some(s) => s@,
        None => "bash"@,
    }
}

/// What a runtime adapter runs for one replica of `step`, where `program`
/// is the resolved source file (python, node) or the built binary
/// (golang); `None` when a bin step has no program or a shell step no
/// command.
pub open spec fn base_argv_of(kind: RuntimeKind, step: Step, program: Seq<char>) -> Option<
    Seq<Seq<char>>,
> {
    match kind {
        RuntimeKind::Python => Some(seq!["python3"@, program] + args_of(step)),
        RuntimeKind::Node => Some(seq!["node"@, program] + args_of(step)),
        RuntimeKind::Golang => Some(seq![program] + args_of(step)),
        RuntimeKind::Bin => match step.executable {
            Some(e) => Some(seq![e@] + args_of(step)),
            None => None,
        },
        RuntimeKind::Shell => match step.command {
            Some(c) => Some(seq![shell_of(step), "-lc"@, c@]),
            None => None,
        },
    }
}

fn push_args(step: &Step, argv: &mut Vec<String>)
    ensures
        texts(final(argv)@) == texts(old(argv)@) + args_of(*step),
{
    match &step.args {
        Some(a) => copy_texts(a, argv),
        None => {
            assert(texts(argv@) =~= texts(argv@) + Seq::<Seq<char>>::empty());
        },
    }
}

/// The argument vector that the runtime adapter of `kind` runs for `step`.
pub fn base_argv(kind: RuntimeKind, step: &Step, program: &str) -> (r: Result<
    Vec<String>,
    ConfigError,
>)
    ensures
        match base_argv_of(kind, *step, program@) {
            Some(a) => r matches Ok(v) && texts(v@) == a,
            None => r == Err::<Vec<String>, ConfigError>(
                if kind == RuntimeKind::Bin {
                    ConfigError::MissingExec
                } else {
                    ConfigError::MissingCommand
                },
            ),
        },
{
    let mut argv: Vec<String> = Vec::new();
    match kind {
        RuntimeKind::Python | RuntimeKind::Node => {
            if kind == RuntimeKind::Python {
                argv.push(owned_text("python3"));
            } else {
                argv.push(owned_text("node"));
            }
            argv.push(owned_text(program));
        },
        RuntimeKind::Golang => {
            argv.push(owned_text(program));
        },
        RuntimeKind::Bin => {
            match &step.executable {
                Some(e) => argv.push(e.clone()),
                None => return Err(ConfigError::MissingExec),
            }
        },
        RuntimeKind::Shell => {
            let command = match &step.command {
                Some(c) => c,
                None => return Err(ConfigError::MissingCommand),
            };
            match &step.shell {
                Some(s) => argv.push(s.clone()),
                None => argv.push(owned_text("bash")),
            }
            argv.push(owned_text("-lc"));
            argv.push(command.clone());
            assert(texts(argv@) =~= seq![shell_of(*step), "-lc"@, command@]);
            return Ok(argv);
        },
    }
    let ghost head = texts(argv@);
    push_args(step, &mut argv);
    assert(texts(argv@) =~= head + args_of(*step));
    Ok(argv)
}

/// The command of each replica of `step`: its base argument vector under
/// its wrapper, with its environment overrides.
pub open spec fn replica_view(step: Step, base: Seq<Seq<char>>) -> CommandView {
    CommandView {
        argv: wrapped_argv(step.wrapper, base),
        display: wrapped_display(step.wrapper, base),
        env: env_of(step),
    }
}

/// The commands of all replicas of a step, one per process that
/// `parallel.processes` asks for, all alike.
pub fn replica_commands(kind: RuntimeKind, step: &Step, program: &str) -> (r: Result<
    Vec<CommandSpec>,
    ConfigError,
>)
    ensures
        match base_argv_of(kind, *step, program@) {
            Some(a) => r matches Ok(v) && v@.len() == processes_of(*step) && forall|i: int|
                0 <= i < v@.len() ==> #[trigger] v@[i]@ == replica_view(*step, a),
            None => r matches Err(e) && e == if kind == RuntimeKind::Bin {
                ConfigError::MissingExec
            } else {
                ConfigError::MissingCommand
            },
        },
{
    let base = match base_argv(kind, step, program) {
        Ok(b) => b,
        Err(e) => return Err(e),
    };
    let ghost a = texts(base@);
    let n = step_processes(step);
    let mut out: Vec<CommandSpec> = Vec::new();
    let mut i: u32 = 0;
    while i < n
        invariant
            n == processes_of(*step),
            texts(base@) == a,
            i <= n,
            out@.len() == i,
            forall|j: int| 0 <= j < i ==> #[trigger] out@[j]@ == replica_view(*step, a),
        decreases n - i,
    {
        let wrapped = wrap_command(&step.wrapper, &base);
        let spec = CommandSpec { argv: wrapped.argv, display: wrapped.display, env: step_env(step) };
        out.push(spec);
        i += 1;
    }
    Ok(out)
}

} // verus!
