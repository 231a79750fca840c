//! What the command line asks for.
use vstd::prelude::*;

use crate::text::chars_of;

verus! {

/// The report that a command line asks for.
#[derive(Clone, Copy, Debug, PartialEq, Eq, Structural)]
pub enum ReportKind {
    /// The columnar report on block devices only.
    DefaultReport,
    /// The columnar report on every filesystem.
    FullReport,
    /// The JSON document on every filesystem.
    JsonReport,
}

/// The report asked for by the first argument: `--json`, `--all`, or
/// anything else (or nothing) for the default report.
pub open spec fn kind_of(arg: Option<Seq<char>>) -> ReportKind {
    match arg {
        Some(a) => if a == "--json"@ {
            ReportKind::JsonReport
        } else if a == "--all"@ {
            ReportKind::FullReport
        } else {
            ReportKind::DefaultReport
        },
        None => ReportKind::DefaultReport,
    }
}

/// Whether `a` and `b` hold the same characters.
pub fn same_text(a: &str, b: &str) -> (r: bool)
    ensures
        r == (a@ == b@),
{
    let x = chars_of(a);
    let y = chars_of(b);
    if x.len() != y.len() {
        return false;
    }
    let mut i: usize = 0;
    while i < x.len()
        invariant
            x@ == a@,
            y@ == b@,
            x.len() == y.len(),
            i <= x.len(),
            forall|j: int| 0 <= j < i ==> x@[j] == y@[j],
        decreases x.len() - i,
    {
        if x[i] != y[i] {
            assert(x@[i as int] != y@[i as int]);
            return false;
        }
        i = i + 1;
    }
    assert(x@ =~= y@);
    true
}

impl ReportKind {
    /// The report asked for by the first command-line argument, if any.
    pub fn from_arg(arg: Option<&str>) -> (r: ReportKind)
        ensures
            r == kind_of(
                match arg {
                    Some(a) => Some(a@),
                    None => None,
                },
            ),
    {
        match arg {
            Some(a) => if same_text(a, "--json") {
                ReportKind::JsonReport
            } else if same_text(a, "--all") {
                ReportKind::FullReport
            } else {
                ReportKind::DefaultReport
            },
            None => ReportKind::DefaultReport,
        }
    }
}

} // verus!
