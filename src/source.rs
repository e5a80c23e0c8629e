//! Where a step's source file comes from: its runtime's default, a local
//! path, or an address whose download is cached.
use vstd::prelude::*;
use crate::cache::{hash_of, join_path, source_file_name, CacheContext};
use crate::runtime::RuntimeKind;
use crate::text::{has_prefix, owned_text, push_decimal, push_text, starts_with_text};

verus! {

/// `value` is an `http://` or `https://` address.
pub open spec fn is_http_url_spec(value: Seq<char>) -> bool {
    has_prefix(value, "http://"@) || has_prefix(value, "https://"@)
}

/// Whether a location is an `http://` or `https://` address.
pub fn is_http_url(value: &str) -> (r: bool)
    ensures
        r == is_http_url_spec(value@),
{
    starts_with_text(value, "http://") || starts_with_text(value, "https://")
}

/// How to obtain the source file of a step.
#[derive(Debug, PartialEq, Eq)]
pub enum SourcePlan {
    /// Use the runtime's bundled default, as it is.
    Default(String),
    /// Use this local file, which must exist.
    Local(String),
    /// Download `url` into `download_path` unless it is there, copy it to
    /// `run_path` unless that is there, and use `run_path`.
    Remote { url: String, download_path: String, run_path: String },
}

/// The default source file and extension of the runtimes that run one.
pub open spec fn default_source_of(kind: RuntimeKind) -> Option<(Seq<char>, Seq<char>)> {
    match kind {
        RuntimeKind::Python => Some(("runtimes/python/main.py"@, "py"@)),
        RuntimeKind::Node => Some(("runtimes/node/main.js"@, "js"@)),
        RuntimeKind::Golang => Some(("runtimes/golang/main.go"@, "go"@)),
        _ => None,
    }
}

/// The default source file and extension of a runtime, if it runs one.
pub fn default_source(kind: RuntimeKind) -> (r: Option<(String, String)>)
    ensures
        match default_source_of(kind) {
            Some((p, e)) => r matches Some((rp, re)) && rp@ == p && re@ == e,
            None => r is None,
        },
{
    match kind {
        RuntimeKind::Python => Some((owned_text("runtimes/python/main.py"), owned_text("py"))),
        RuntimeKind::Node => Some((owned_text("runtimes/node/main.js"), owned_text("js"))),
        RuntimeKind::Golang => Some((owned_text("runtimes/golang/main.go"), owned_text("go"))),
        _ => None,
    }
}

/// How to obtain a step's source: its default without a location; a
/// download cached by address for an `http(s)://` location; else the
/// local path.
pub fn plan_source(
    location: &Option<String>,
    default_path: &str,
    extension: &str,
    cache: &CacheContext,
) -> (r: SourcePlan)
    ensures
        match location {
            None => r matches SourcePlan::Default(p) && p@ == default_path@,
            Some(l) => if is_http_url_spec(l@) {
                r matches SourcePlan::Remote { url, download_path, run_path } && url@ == l@
                    && download_path@ == join_path(
                    join_path(cache.url_dir@, hash_of(l@)),
                    source_file_name(extension@),
                ) && run_path@ == join_path(
                    join_path(cache.source_dir@, hash_of(l@)),
                    source_file_name(extension@),
                )
            } else {
                r matches SourcePlan::Local(p) && p@ == l@
            },
        },
{
    match location {
        None => SourcePlan::Default(owned_text(default_path)),
        Some(l) => {
            if is_http_url(l.as_str()) {
                SourcePlan::Remote {
                    url: owned_text(l.as_str()),
                    download_path: cache.url_source_path(l.as_str(), extension),
                    run_path: cache.config_source_path(l.as_str(), extension),
                }
            } else {
                SourcePlan::Local(owned_text(l.as_str()))
            }
        },
    }
}

/// Why a source could not be obtained.
#[derive(Debug, PartialEq, Eq)]
pub enum ResolveError {
    /// A local location that does not exist.
    MissingPath(String),
    /// A download answered with a status outside 200..300.
    BadStatus { url: String, status: u16 },
}

impl ResolveError {
    /// A human-readable description of the error.
    pub fn message(&self) -> String {
        let mut out = String::new();
        match self {
            ResolveError::MissingPath(p) => {
                push_text(&mut out, "location path '");
                push_text(&mut out, p.as_str());
                push_text(&mut out, "' does not exist");
            },
            ResolveError::BadStatus { url, status } => {
                push_text(&mut out, "failed to download '");
                push_text(&mut out, url.as_str());
                push_text(&mut out, "': status ");
                push_decimal(&mut out, *status as u64);
            },
        }
        out
    }
}

/// Whether a download answered with a success status (200 to 299);
/// otherwise the error to report.
pub fn check_download_status(url: &str, status: u16) -> (r: Result<(), ResolveError>)
    ensures
        200 <= status < 300 ==> r is Ok,
        !(200 <= status < 300) ==> (r matches Err(ResolveError::BadStatus { url: u, status: s })
            && u@ == url@ && s == status),
{
    if 200 <= status && status < 300 {
        Ok(())
    } else {
        Err(ResolveError::BadStatus { url: owned_text(url), status })
    }
}

} // verus!
