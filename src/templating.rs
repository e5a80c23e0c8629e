//! Placeholder expansion: `p"...{id:pid}...{id:pid,}..."` values rewritten
//! with the process ids that other steps published.
use vstd::prelude::*;
use crate::config::Step;
use crate::state::PidTable;
use crate::text::{
    dec_of, has_prefix, joined_pids, join_pids, push_decimal, push_text, same_text, starts_with_text,
};

verus! {

/// Why a placeholder could not be expanded.
#[derive(Debug, PartialEq, Eq)]
pub enum TemplateError {
    /// The value starts with `p"` but does not end with `"`.
    MissingClosingQuote,
    /// A `{` has no matching `}`.
    MissingClosingBrace,
    /// A token has no `:` between its id and its key.
    MissingKey(String),
    /// The token names a step that published no process ids.
    UnknownId(String),
    /// `pid` of a step that published an empty list.
    NoPid(String),
    /// A key other than `pid` and `pid,`.
    UnknownKey(String),
}

impl TemplateError {
    /// A human-readable description of the error.
    pub fn message(&self) -> String {
        let mut out = String::new();
        match self {
            TemplateError::MissingClosingQuote => push_text(&mut out, "placeholder missing closing '\"'"),
            TemplateError::MissingClosingBrace => push_text(&mut out, "placeholder missing closing '}'"),
            TemplateError::MissingKey(token) => {
                push_text(&mut out, "placeholder missing key in '");
                push_text(&mut out, token.as_str());
                push_text(&mut out, "'");
            },
            TemplateError::UnknownId(id) => {
                push_text(&mut out, "unknown id '");
                push_text(&mut out, id.as_str());
                push_text(&mut out, "'");
            },
            TemplateError::NoPid(id) => {
                push_text(&mut out, "no pid for id '");
                push_text(&mut out, id.as_str());
                push_text(&mut out, "'");
            },
            TemplateError::UnknownKey(key) => {
                push_text(&mut out, "unknown placeholder key '");
                push_text(&mut out, key.as_str());
                push_text(&mut out, "'");
            },
        }
        out
    }
}

/// A placeholder error, with its texts as character sequences.
pub enum TemplateFault {
    MissingClosingQuote,
    MissingClosingBrace,
    MissingKey(Seq<char>),
    UnknownId(Seq<char>),
    NoPid(Seq<char>),
    UnknownKey(Seq<char>),
}

impl View for TemplateError {
    type V = TemplateFault;

    open spec fn view(&self) -> TemplateFault {
        match self {
            TemplateError::MissingClosingQuote => TemplateFault::MissingClosingQuote,
            TemplateError::MissingClosingBrace => TemplateFault::MissingClosingBrace,
            TemplateError::MissingKey(t) => TemplateFault::MissingKey(t@),
            TemplateError::UnknownId(t) => TemplateFault::UnknownId(t@),
            TemplateError::NoPid(t) => TemplateFault::NoPid(t@),
            TemplateError::UnknownKey(t) => TemplateFault::UnknownKey(t@),
        }
    }
}

/// An expansion result, with its texts as character sequences.
pub open spec fn outcome_view(r: Result<String, TemplateError>) -> Result<Seq<char>, TemplateFault> {
    match r {
        Ok(s) => Ok(s@),
        Err(e) => Err(e@),
    }
}

/// The position of the first `c` in `s`.
pub open spec fn find_char(s: Seq<char>, c: char) -> Option<int>
    decreases s.len(),
{
    if s.len() == 0 {
        None
    } else if s[0] == c {
        Some(0)
    } else {
        match find_char(s.drop_first(), c) {
            Some(i) => Some(i + 1),
            None => None,
        }
    }
}

pub proof fn lemma_find_char(s: Seq<char>, c: char)
    ensures
        match find_char(s, c) {
            Some(i) => 0 <= i < s.len() && s[i] == c && forall|j: int| 0 <= j < i ==> s[j] != c,
            None => forall|j: int| 0 <= j < s.len() ==> s[j] != c,
        },
    decreases s.len(),
{
    if s.len() > 0 {
        lemma_find_char(s.drop_first(), c);
        if s[0] != c {
            assert forall|j: int| 1 <= j < s.len() implies s[j] == s.drop_first()[j - 1] by {}
        }
    }
}

fn find_char_in(s: &str, c: char) -> (r: Option<usize>)
    ensures
        match r {
            Some(i) => find_char(s@, c) == Some(i as int),
            None => find_char(s@, c) is None,
        },
{
    proof {
        lemma_find_char(s@, c);
    }
    let n = s.unicode_len();
    let mut i: usize = 0;
    while i < n
        invariant
            n == s@.len(),
            i <= n,
            forall|j: int| 0 <= j < i ==> s@[j] != c,
        decreases n - i,
    {
        if s.get_char(i) == c {
            proof {
                lemma_find_char(s@, c);
            }
            return Some(i);
        }
        i += 1;
    }
    None
}

/// What a token `id:key` expands to, given the published process ids.
pub open spec fn token_expansion(token: Seq<char>, pids: Map<Seq<char>, Seq<u32>>) -> Result<
    Seq<char>,
    TemplateFault,
> {
    match find_char(token, ':') {
        None => Err(TemplateFault::MissingKey(token)),
        Some(c) => {
            let id = token.take(c);
            let key = token.skip(c + 1);
            if key == "pid"@ {
                if !pids.contains_key(id) {
                    Err(TemplateFault::UnknownId(id))
                } else if pids[id].len() == 0 {
                    Err(TemplateFault::NoPid(id))
                } else {
                    Ok(dec_of(pids[id][0] as nat))
                }
            } else if key == "pid,"@ {
                if !pids.contains_key(id) {
                    Err(TemplateFault::UnknownId(id))
                } else {
                    Ok(joined_pids(pids[id]))
                }
            } else {
                Err(TemplateFault::UnknownKey(key))
            }
        },
    }
}

/// Expands one token: `id:pid` gives the first process id of step `id`,
/// `id:pid,` all of them joined by commas.
pub fn expand_token(token: &str, pids: &PidTable) -> (r: Result<String, TemplateError>)
    ensures
        outcome_view(r) == token_expansion(token@, pids@),
{
    let n = token.unicode_len();
    let colon = match find_char_in(token, ':') {
        Some(c) => c,
        None => return Err(TemplateError::MissingKey(token.to_owned())),
    };
    proof {
        lemma_find_char(token@, ':');
    }
    let id = token.substring_char(0, colon);
    let key = token.substring_char(colon + 1, n);
    assert(id@ =~= token@.take(colon as int));
    assert(key@ =~= token@.skip(colon + 1));
    if same_text(key, "pid") {
        match pids.get(id) {
            None => Err(TemplateError::UnknownId(id.to_owned())),
            Some(list) => {
                if list.len() == 0 {
                    Err(TemplateError::NoPid(id.to_owned()))
                } else {
                    let mut out = String::new();
                    push_decimal(&mut out, list[0] as u64);
                    assert(out@ =~= dec_of(list@[0] as nat));
                    Ok(out)
                }
            },
        }
    } else if same_text(key, "pid,") {
        match pids.get(id) {
            None => Err(TemplateError::UnknownId(id.to_owned())),
            Some(list) => Ok(join_pids(list)),
        }
    } else {
        Err(TemplateError::UnknownKey(key.to_owned()))
    }
}

/// What the body of a quoted value expands to: every `{token}` replaced,
/// left to right, in one pass.
pub open spec fn body_expansion(rest: Seq<char>, pids: Map<Seq<char>, Seq<u32>>) -> Result<
    Seq<char>,
    TemplateFault,
>
    decreases rest.len(),
{
    match find_char(rest, '{') {
        None => Ok(rest),
        Some(start) => {
            let after = rest.skip(start + 1);
            match find_char(after, '}') {
                None => Err(TemplateFault::MissingClosingBrace),
                Some(end) => {
                    proof {
                        lemma_find_char(rest, '{');
                        lemma_find_char(after, '}');
                    }
                    match token_expansion(after.take(end), pids) {
                        Err(e) => Err(e),
                        Ok(t) => match body_expansion(after.skip(end + 1), pids) {
                            Err(e) => Err(e),
                            Ok(tail) => Ok(rest.take(start) + t + tail),
                        },
                    }
                },
            }
        },
    }
}

/// What a configuration value expands to: unchanged unless it starts with
/// `p"`; then it must end with `"`, and the text between is expanded.
pub open spec fn value_expansion(v: Seq<char>, pids: Map<Seq<char>, Seq<u32>>) -> Result<
    Seq<char>,
    TemplateFault,
> {
    if !has_prefix(v, seq!['p', '"']) {
        Ok(v)
    } else if v.len() < 3 || v.last() != '"' {
        Err(TemplateFault::MissingClosingQuote)
    } else {
        body_expansion(v.subrange(2, v.len() - 1), pids)
    }
}

proof fn lemma_unclosed_brace_fails(rest: Seq<char>, pids: Map<Seq<char>, Seq<u32>>, i: int)
    requires
        0 <= i < rest.len(),
        rest[i] == '{',
        forall|j: int| i < j < rest.len() ==> rest[j] != '}',
    ensures
        body_expansion(rest, pids) is Err,
    decreases rest.len(),
{
    lemma_find_char(rest, '{');
    let start = find_char(rest, '{').unwrap();
    let after = rest.skip(start + 1);
    lemma_find_char(after, '}');
    match find_char(after, '}') {
        None => {},
        Some(end) => {
            assert(after[end] == rest[start + 1 + end]);
            assert(start + 1 + end < i);
            let tail = after.skip(end + 1);
            let k = i - (start + 1 + end + 1);
            assert(tail[k] == rest[i]);
            assert forall|j: int| k < j < tail.len() implies tail[j] != '}' by {
                assert(tail[j] == rest[j + start + end + 2]);
            }
            lemma_unclosed_brace_fails(tail, pids, k);
        },
    }
}

/// A value marked `p"` with broken quoting never passes through: without
/// its closing quote it is refused as such, and a `{` in the quoted text
/// with no `}` after it makes the expansion fail rather than cut the value
/// short.
pub proof fn lemma_malformed_placeholder_fails(
    v: Seq<char>,
    pids: Map<Seq<char>, Seq<u32>>,
    i: int,
)
    requires
        has_prefix(v, seq!['p', '"']),
    ensures
        v.len() < 3 || v.last() != '"' ==> value_expansion(v, pids) matches Err(
            TemplateFault::MissingClosingQuote,
        ),
        v.len() >= 3 && v.last() == '"' && 2 <= i < v.len() - 1 && v[i] == '{' && (forall|j: int|
            i < j < v.len() - 1 ==> v[j] != '}') ==> value_expansion(v, pids) is Err,
{
    if v.len() >= 3 && v.last() == '"' && 2 <= i < v.len() - 1 && v[i] == '{' && (forall|j: int|
        i < j < v.len() - 1 ==> v[j] != '}') {
        let body = v.subrange(2, v.len() - 1);
        assert(body[i - 2] == v[i]);
        assert forall|j: int| i - 2 < j < body.len() implies body[j] != '}' by {
            assert(body[j] == v[j + 2]);
        }
        lemma_unclosed_brace_fails(body, pids, i - 2);
    }
}

/// The value `p"{id:key}"`.
pub open spec fn placeholder(id: Seq<char>, key: Seq<char>) -> Seq<char> {
    seq!['p', '"', '{'] + id + seq![':'] + key + seq!['}', '"']
}

proof fn lemma_single_token(id: Seq<char>, key: Seq<char>, pids: Map<Seq<char>, Seq<u32>>)
    requires
        forall|j: int| 0 <= j < id.len() ==> id[j] != ':' && id[j] != '}',
        forall|j: int| 0 <= j < key.len() ==> key[j] != '}',
    ensures
        value_expansion(placeholder(id, key), pids) == token_expansion(id + seq![':'] + key, pids),
{
    let v = placeholder(id, key);
    assert(v.take(2) =~= seq!['p', '"']);
    assert(has_prefix(v, seq!['p', '"']));
    assert(v.len() >= 3 && v.last() == '"');
    let body = v.subrange(2, v.len() - 1);
    let token = id + seq![':'] + key;
    assert(body =~= seq!['{'] + token + seq!['}']);
    lemma_find_char(body, '{');
    assert(find_char(body, '{') == Some(0int));
    let after = body.skip(1);
    assert(after =~= token + seq!['}']);
    let m = token.len() as int;
    lemma_find_char(after, '}');
    assert(after[m] == '}');
    assert forall|j: int| 0 <= j < m implies after[j] != '}' by {
        assert(after[j] == token[j]);
        if j < id.len() {
            assert(token[j] == id[j]);
        } else if j > id.len() {
            assert(token[j] == key[j - id.len() - 1]);
        }
    }
    assert(find_char(after, '}') == Some(m));
    assert(after.take(m) =~= token);
    let rest = after.skip(m + 1);
    assert(rest =~= Seq::<char>::empty());
    assert(find_char(rest, '{') is None);
    assert(body_expansion(rest, pids) == Ok::<Seq<char>, TemplateFault>(rest));
    assert(value_expansion(v, pids) == body_expansion(body, pids));
    match token_expansion(token, pids) {
        Ok(t) => {
            assert(body.take(0) + t + rest =~= t);
        },
        Err(_) => {},
    }
}

proof fn lemma_token_parts(id: Seq<char>, key: Seq<char>)
    requires
        forall|j: int| 0 <= j < id.len() ==> id[j] != ':',
    ensures
        find_char(id + seq![':'] + key, ':') == Some(id.len() as int),
        (id + seq![':'] + key).take(id.len() as int) == id,
        (id + seq![':'] + key).skip(id.len() as int + 1) == key,
{
    let token = id + seq![':'] + key;
    lemma_find_char(token, ':');
    assert(token[id.len() as int] == ':');
    assert forall|j: int| 0 <= j < id.len() implies token[j] != ':' by {
        assert(token[j] == id[j]);
    }
    assert(token.take(id.len() as int) =~= id);
    assert(token.skip(id.len() as int + 1) =~= key);
}

/// Templating round trip: for a step id without `:` or `}`, `p"{id:pid}"`
/// expands to the first process id that step published, `p"{id:pid,}"` to
/// all of them joined by commas, and both fail naming the id when the step
/// published none.
pub proof fn lemma_pid_placeholders_round_trip(id: Seq<char>, pids: Map<Seq<char>, Seq<u32>>)
    requires
        forall|j: int| 0 <= j < id.len() ==> id[j] != ':' && id[j] != '}',
    ensures
        pids.contains_key(id) && pids[id].len() > 0 ==> value_expansion(
            placeholder(id, "pid"@),
            pids,
        ) == Ok::<Seq<char>, TemplateFault>(dec_of(pids[id][0] as nat)),
        pids.contains_key(id) ==> value_expansion(placeholder(id, "pid,"@), pids) == Ok::<
            Seq<char>,
            TemplateFault,
        >(joined_pids(pids[id])),
        !pids.contains_key(id) ==> (value_expansion(placeholder(id, "pid"@), pids) matches Err(
            TemplateFault::UnknownId(x),
        ) && x == id),
        !pids.contains_key(id) ==> (value_expansion(placeholder(id, "pid,"@), pids) matches Err(
            TemplateFault::UnknownId(x),
        ) && x == id),
{
    reveal_strlit("pid");
    reveal_strlit("pid,");
    assert("pid"@ =~= seq!['p', 'i', 'd']);
    assert("pid,"@ =~= seq!['p', 'i', 'd', ',']);
    assert("pid"@ != "pid,"@);
    lemma_single_token(id, "pid"@, pids);
    lemma_single_token(id, "pid,"@, pids);
    lemma_token_parts(id, "pid"@);
    lemma_token_parts(id, "pid,"@);
}

/// `r` with `done` written before its text.
pub open spec fn after_text(done: Seq<char>, r: Result<Seq<char>, TemplateFault>) -> Result<
    Seq<char>,
    TemplateFault,
> {
    match r {
        Ok(t) => Ok(done + t),
        Err(e) => Err(e),
    }
}

/// Expands the placeholders of one configuration value against a snapshot
/// of published process ids; a value without the `p"` marker is returned
/// as it is.
pub fn expand_value(value: &str, pids: &PidTable) -> (r: Result<String, TemplateError>)
    ensures
        outcome_view(r) == value_expansion(value@, pids@),
{
    proof {
        reveal_strlit("p\"");
    }
    assert(seq!['p', '"'] =~= "p\""@);
    if !starts_with_text(value, "p\"") {
        return Ok(value.to_owned());
    }
    let n = value.unicode_len();
    if n < 3 || value.get_char(n - 1) != '"' {
        return Err(TemplateError::MissingClosingQuote);
    }
    let ghost body = value@.subrange(2, n - 1);
    let mut rest: &str = value.substring_char(2, n - 1);
    let mut out = String::new();
    assert(out@ + rest@ =~= rest@);
    assert(after_text(out@, body_expansion(rest@, pids@)) =~= body_expansion(body, pids@));
    loop
        invariant
            body_expansion(body, pids@) == after_text(out@, body_expansion(rest@, pids@)),
            value_expansion(value@, pids@) == body_expansion(body, pids@),
        decreases rest@.len(),
    {
        proof {
            lemma_find_char(rest@, '{');
        }
        let len = rest.unicode_len();
        let start = match find_char_in(rest, '{') {
            None => {
                let ghost done = out@;
                push_text(&mut out, rest);
                return Ok(out);
            },
            Some(start) => start,
        };
        let ghost done = out@;
        let ghost whole = rest@;
        let head = rest.substring_char(0, start);
        assert(head@ =~= whole.take(start as int));
        push_text(&mut out, head);
        let after = rest.substring_char(start + 1, len);
        assert(after@ =~= rest@.skip(start + 1));
        proof {
            lemma_find_char(after@, '}');
        }
        let after_len = after.unicode_len();
        let end = match find_char_in(after, '}') {
            None => return Err(TemplateError::MissingClosingBrace),
            Some(end) => end,
        };
        let token = after.substring_char(0, end);
        assert(token@ =~= after@.take(end as int));
        let t = match expand_token(token, pids) {
            Err(e) => return Err(e),
            Ok(t) => t,
        };
        push_text(&mut out, t.as_str());
        rest = after.substring_char(end + 1, after_len);
        assert(rest@ =~= after@.skip(end + 1));
        proof {
            match body_expansion(rest@, pids@) {
                Ok(tail) => {
                    assert(done + (whole.take(start as int) + t@ + tail) =~= out@ + tail);
                },
                Err(_) => {},
            }
        }
    }
}

/// An optional text as a character sequence.
pub open spec fn optional_text(o: Option<String>) -> Option<Seq<char>> {
    match o {
        Some(s) => Some(s@),
        None => None,
    }
}

/// Key and value pairs as character sequences.
pub open spec fn pairs_view(env: Seq<(String, String)>) -> Seq<(Seq<char>, Seq<char>)> {
    env.map_values(|e: (String, String)| (e.0@, e.1@))
}

/// An optional environment as character sequences.
pub open spec fn optional_pairs(o: Option<Vec<(String, String)>>) -> Option<
    Seq<(Seq<char>, Seq<char>)>,
> {
    match o {
        Some(env) => Some(pairs_view(env@)),
        None => None,
    }
}

/// The expansion of an optional value.
pub open spec fn optional_expansion(o: Option<String>, pids: Map<Seq<char>, Seq<u32>>) -> Result<
    Option<Seq<char>>,
    TemplateFault,
> {
    match o {
        None => Ok(None),
        Some(s) => match value_expansion(s@, pids) {
            Ok(t) => Ok(Some(t)),
            Err(e) => Err(e),
        },
    }
}

/// The expansion of each environment value, keys kept; the first failure
/// in declaration order wins.
pub open spec fn env_expansion(env: Seq<(String, String)>, pids: Map<Seq<char>, Seq<u32>>) -> Result<
    Seq<(Seq<char>, Seq<char>)>,
    TemplateFault,
>
    decreases env.len(),
{
    if env.len() == 0 {
        Ok(Seq::empty())
    } else {
        match env_expansion(env.drop_last(), pids) {
            Err(e) => Err(e),
            Ok(done) => match value_expansion(env.last().1@, pids) {
                Err(e) => Err(e),
                Ok(v) => Ok(done.push((env.last().0@, v))),
            },
        }
    }
}

/// The expansion of an optional environment.
pub open spec fn optional_env_expansion(
    o: Option<Vec<(String, String)>>,
    pids: Map<Seq<char>, Seq<u32>>,
) -> Result<Option<Seq<(Seq<char>, Seq<char>)>>, TemplateFault> {
    match o {
        None => Ok(None),
        Some(env) => match env_expansion(env@, pids) {
            Ok(e) => Ok(Some(e)),
            Err(e) => Err(e),
        },
    }
}

/// The templated fields of a step (command, wrapper, environment), or the
/// first failure among them in that order.
pub open spec fn step_templating(step: Step, pids: Map<Seq<char>, Seq<u32>>) -> Result<
    (Option<Seq<char>>, Option<Seq<char>>, Option<Seq<(Seq<char>, Seq<char>)>>),
    TemplateFault,
> {
    match optional_expansion(step.command, pids) {
        Err(e) => Err(e),
        Ok(c) => match optional_expansion(step.wrapper, pids) {
            Err(e) => Err(e),
            Ok(w) => match optional_env_expansion(step.env, pids) {
                Err(e) => Err(e),
                Ok(v) => Ok((c, w, v)),
            },
        },
    }
}

/// `t` keeps every field of `s` that templating does not touch.
pub open spec fn same_untemplated(t: Step, s: Step) -> bool {
    &&& t.id == s.id
    &&& t.runtime == s.runtime
    &&& t.parallel == s.parallel
    &&& t.location == s.location
    &&& t.stdout == s.stdout
    &&& t.duration_ms == s.duration_ms
    &&& t.executable == s.executable
    &&& t.args == s.args
    &&& t.shell == s.shell
    &&& t.depends_on == s.depends_on
    &&& t.when == s.when
}

fn expand_optional(o: &Option<String>, pids: &PidTable) -> (r: Result<Option<String>, TemplateError>)
    ensures
        match r {
            Ok(t) => optional_expansion(*o, pids@) == Ok::<_, TemplateFault>(optional_text(t)),
            Err(e) => optional_expansion(*o, pids@) == Err::<Option<Seq<char>>, _>(e@),
        },
{
    match o {
        None => Ok(None),
        Some(s) => match expand_value(s.as_str(), pids) {
            Ok(t) => Ok(Some(t)),
            Err(e) => Err(e),
        },
    }
}

fn expand_env(env: &Vec<(String, String)>, pids: &PidTable) -> (r: Result<
    Vec<(String, String)>,
    TemplateError,
>)
    ensures
        match r {
            Ok(t) => env_expansion(env@, pids@) == Ok::<_, TemplateFault>(pairs_view(t@)),
            Err(e) => env_expansion(env@, pids@) == Err::<Seq<(Seq<char>, Seq<char>)>, _>(e@),
        },
{
    let mut out: Vec<(String, String)> = Vec::new();
    let n = env.len();
    let mut i: usize = 0;
    assert(env@.take(0) =~= Seq::<(String, String)>::empty());
    assert(pairs_view(out@) =~= Seq::<(Seq<char>, Seq<char>)>::empty());
    while i < n
        invariant
            n == env@.len(),
            i <= n,
            env_expansion(env@.take(i as int), pids@) == Ok::<_, TemplateFault>(pairs_view(out@)),
        decreases n - i,
    {
        assert(env@.take(i + 1).drop_last() =~= env@.take(i as int));
        let (k, v) = &env[i];
        let expanded = match expand_value(v.as_str(), pids) {
            Ok(t) => t,
            Err(e) => {
                proof {
                    lemma_env_expansion_prefix(env@, pids@, i + 1);
                }
                return Err(e);
            },
        };
        let ghost before = out@;
        out.push((k.clone(), expanded));
        assert(pairs_view(out@) =~= pairs_view(before).push((k@, expanded@)));
        i += 1;
    }
    assert(env@.take(n as int) =~= env@);
    Ok(out)
}

proof fn lemma_env_expansion_prefix(
    env: Seq<(String, String)>,
    pids: Map<Seq<char>, Seq<u32>>,
    k: int,
)
    requires
        0 <= k <= env.len(),
        env_expansion(env.take(k), pids) is Err,
    ensures
        env_expansion(env, pids) == env_expansion(env.take(k), pids),
    decreases env.len() - k,
{
    if k < env.len() {
        assert(env.take(k + 1).drop_last() =~= env.take(k));
        lemma_env_expansion_prefix(env, pids, k + 1);
    } else {
        assert(env.take(k) =~= env);
    }
}

/// A new step whose command, wrapper and environment values have their
/// placeholders expanded against a snapshot of published process ids; the
/// other fields are kept.
pub fn apply_placeholders(step: Step, pids: &PidTable) -> (r: Result<Step, TemplateError>)
    ensures
        match r {
            Ok(t) => step_templating(step, pids@) == Ok::<_, TemplateFault>(
                (optional_text(t.command), optional_text(t.wrapper), optional_pairs(t.env)),
            ) && same_untemplated(t, step),
            Err(e) => step_templating(step, pids@) == Err::<
                (Option<Seq<char>>, Option<Seq<char>>, Option<Seq<(Seq<char>, Seq<char>)>>),
                _,
            >(e@),
        },
{
    let command = match expand_optional(&step.command, pids) {
        Ok(c) => c,
        Err(e) => return Err(e),
    };
    let wrapper = match expand_optional(&step.wrapper, pids) {
        Ok(w) => w,
        Err(e) => return Err(e),
    };
    let env = match &step.env {
        None => None,
        Some(env) => match expand_env(env, pids) {
            Ok(e) => Some(e),
            Err(e) => return Err(e),
        },
    };
    let Step {
        id,
        runtime,
        parallel,
        location,
        stdout,
        duration_ms,
        env: _,
        wrapper: _,
        executable,
        args,
        command: _,
        shell,
        depends_on,
        when,
    } = step;
    Ok(
        Step {
            id,
            runtime,
            parallel,
            location,
            stdout,
            duration_ms,
            env,
            wrapper,
            executable,
            args,
            command,
            shell,
            depends_on,
            when,
        },
    )
}

} // verus!
