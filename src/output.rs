//! The text handed back for one evaluation.

use vstd::prelude::*;
use crate::diagnostic::{flatten_all_spec, flatten_diagnostics, Diagnostic};
use crate::render::{pretty_print_value, render};
use crate::value::Value;

verus! {

/// The text of an evaluation that yielded no value and no diagnostic.
pub open spec fn no_value_text() -> Seq<char> {
    seq!['(', 'n', 'o', ' ', 'v', 'a', 'l', 'u', 'e', ')']
}

/// The text of an evaluation's outcome: the flattened diagnostics when there
/// are any, otherwise the rendered value at depth 0.
pub open spec fn outcome_text(value: Option<Value>, errors: Seq<Diagnostic>) -> Seq<char> {
    if errors.len() > 0 {
        flatten_all_spec(errors)
    } else {
        match value {
            Some(v) => render(v, 0),
            None => no_value_text(),
        }
    }
}

/// The text to hand back for an evaluation that produced `value` and
/// reported `errors`.
pub fn evaluation_text(value: Option<&Value>, errors: &Vec<Diagnostic>) -> (r: String)
    ensures
        r@ == outcome_text(
            match value {
                Some(v) => Some(*v),
                None => None,
            },
            errors@,
        ),
{
    if errors.len() > 0 {
        flatten_diagnostics(errors)
    } else {
        match value {
            Some(v) => pretty_print_value(v, 0),
            None => {
                proof {
                    reveal_strlit("(no value)");
                }
                String::from_str("(no value)")
            },
        }
    }
}

} // verus!
