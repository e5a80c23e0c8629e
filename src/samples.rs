//! Placing the bundled sample runtimes under an output directory.
use vstd::prelude::*;
use crate::cache::{join_path, path_join};
use crate::text::{owned_text, push_text};

verus! {

/// Why samples were not written.
#[derive(Debug, PartialEq, Eq)]
pub enum SamplesError {
    /// The output directory is there already.
    OutputExists(String),
}

impl SamplesError {
    /// A human-readable description of the error.
    pub fn message(&self) -> String {
        let mut out = String::new();
        match self {
            SamplesError::OutputExists(dir) => {
                push_text(&mut out, "output directory '");
                push_text(&mut out, dir.as_str());
                push_text(&mut out, "' already exists");
            },
        }
        out
    }
}

/// Where each bundled sample (given by its path relative to the bundle)
/// is written under `output_dir`, in order; refused when the directory
/// exists already, so that nothing is overwritten.
pub fn samples(output_dir: &str, output_exists: bool, bundled: &Vec<String>) -> (r: Result<
    Vec<String>,
    SamplesError,
>)
    ensures
        output_exists ==> (r matches Err(SamplesError::OutputExists(d)) && d@ == output_dir@),
        !output_exists ==> (r matches Ok(paths) && paths@.len() == bundled@.len() && forall|i: int|
            0 <= i < bundled@.len() ==> #[trigger] paths@[i]@ == join_path(
                output_dir@,
                bundled@[i]@,
            )),
{
    if output_exists {
        return Err(SamplesError::OutputExists(owned_text(output_dir)));
    }
    let mut paths: Vec<String> = Vec::new();
    let n = bundled.len();
    let mut i: usize = 0;
    while i < n
        invariant
            n == bundled@.len(),
            i <= n,
            paths@.len() == i,
            forall|j: int| 0 <= j < i ==> #[trigger] paths@[j]@ == join_path(
                output_dir@,
                bundled@[j]@,
            ),
        decreases n - i,
    {
        paths.push(path_join(output_dir, bundled[i].as_str()));
        i += 1;
    }
    Ok(paths)
}

} // verus!
