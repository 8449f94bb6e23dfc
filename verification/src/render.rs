//! Textual rendering of values: integers in decimal, booleans as `true` /
//! `false`, strings verbatim, tuples as `(first, second)` recursively, and
//! closures as a fixed opaque placeholder.

use vstd::prelude::*;
use vstd::string::*;
use crate::value::{Val, ValV};
use crate::text::{render_int, int_to_string};

verus! {

/// The rendering of a value, as a character sequence.  Total: every value
/// renders.
pub open spec fn render(v: ValV) -> Seq<char>
    decreases v,
{
    match v {
        ValV::Int(i) => render_int(i),
        ValV::Str(s) => s,
        ValV::Bool(b) => if b {
            "true"@
        } else {
            "false"@
        },
        ValV::Tuple(a, b) => "("@ + render(*a) + ", "@ + render(*b) + ")"@,
        ValV::Closure { .. } => "<#closure>"@,
    }
}

impl Val {
    /// Renders the value exactly as `render` describes.
    pub fn to_display_string(&self) -> (s: String)
        ensures
            s@ == render(self@),
        decreases *self,
    {
        match self {
            Val::Int(i) => int_to_string(*i),
            Val::Bool(b) => if *b {
                String::from_str("true")
            } else {
                String::from_str("false")
            },
            Val::Str(s) => s.clone(),
            Val::Tuple(pair) => {
                let mut s = String::from_str("(");
                let a = (&*pair.0).to_display_string();
                let b = (&*pair.1).to_display_string();
                s.append(a.as_str());
                s.append(", ");
                s.append(b.as_str());
                s.append(")");
                proof {
                    assert(s@ =~= render(self@));
                }
                s
            },
            Val::Closure { .. } => String::from_str("<#closure>"),
        }
    }
}

} // verus!
