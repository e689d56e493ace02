//! Routing a built artifact to its sink.
//!
//! A built artifact goes to exactly one of three sinks: a local file,
//! standard output, or a single submission to one of the node's two
//! endpoints. The choices here are pure; performing the write or the
//! network round-trip is the surrounding program's work.
use vstd::prelude::*;

verus! {

/// The two submission endpoints a node offers: committing execution, or
/// speculative execution that evaluates the artifact without persisting
/// any state change.
#[derive(Clone, Copy, PartialEq, Eq, Structural, Debug)]
pub enum Endpoint {
    Standard,
    Speculative,
}

/// The single action a dispatch performs.
#[derive(Clone, PartialEq, Eq, Debug)]
pub enum DispatchAction {
    WriteFile { path: String },
    WriteStdout,
    Submit { endpoint: Endpoint },
}

pub ghost enum DispatchActionV {
    WriteFile { path: Seq<char> },
    WriteStdout,
    Submit { endpoint: Endpoint },
}

impl View for DispatchAction {
    type V = DispatchActionV;

    open spec fn view(&self) -> DispatchActionV {
        match self {
            DispatchAction::WriteFile { path } => DispatchActionV::WriteFile { path: path@ },
            DispatchAction::WriteStdout => DispatchActionV::WriteStdout,
            DispatchAction::Submit { endpoint } => DispatchActionV::Submit { endpoint: *endpoint },
        }
    }
}

/// Relies on std's `String::push_str`: appends the given string slice onto
/// the end of this `String`.
pub assume_specification[ String::push_str ](s: &mut String, string: &str)
    ensures
        final(s)@ == old(s)@ + string@,
;

/// Chooses the submission endpoint: the speculative switch selects the
/// non-committing execution path, otherwise the committing one; never both.
pub fn select_endpoint(speculative: bool) -> (r: Endpoint)
    ensures
        speculative ==> r == Endpoint::Speculative,
        !speculative ==> r == Endpoint::Standard,
{
    if speculative {
        Endpoint::Speculative
    } else {
        Endpoint::Standard
    }
}

/// Plans the local-write sink: an empty output path means standard output.
pub fn plan_local_write(output_path: &str) -> (r: DispatchAction)
    ensures
        output_path@.len() == 0 ==> r@ == DispatchActionV::WriteStdout,
        output_path@.len() > 0 ==> r@ == (DispatchActionV::WriteFile { path: output_path@ }),
{
    if output_path.is_empty() {
        DispatchAction::WriteStdout
    } else {
        DispatchAction::WriteFile { path: output_path.to_owned() }
    }
}

/// The confirmation string of a successful local write: empty when the
/// artifact went to standard output.
pub open spec fn spec_local_write_message(path: Seq<char>) -> Seq<char> {
    if path.len() == 0 {
        Seq::empty()
    } else {
        "Wrote the deploy to "@ + path
    }
}

pub fn local_write_message(output_path: &str) -> (r: String)
    ensures
        r@ == spec_local_write_message(output_path@),
{
    if output_path.is_empty() {
        let r = String::new();
        proof {
            assert(r@ =~= spec_local_write_message(output_path@));
        }
        r
    } else {
        let mut r = String::new();
        r.push_str("Wrote the deploy to ");
        r.push_str(output_path);
        proof {
            assert(r@ =~= spec_local_write_message(output_path@));
        }
        r
    }
}

} // verus!
