use vstd::prelude::*;

use crate::emitter::TranslateMetadata;

verus! {

/// The operator tag handed to the shared arithmetic dispatcher.  The
/// dispatcher is the single place that encodes how each operator of the
/// binary/unary family is rendered as shell syntax; the comparison operator
/// is the representative member in scope here.
#[derive(Clone, Copy, Debug, PartialEq, Eq, Structural)]
pub enum ArithOp {
    Lt,
}

/// The view of an optional operand text: its characters, or empty when the
/// operand is absent (as for a unary member of the family).
pub open spec fn spec_operand(o: Option<String>) -> Seq<char> {
    match o {
        Some(s) => s@,
        None => Seq::empty(),
    }
}

/// What the dispatcher renders for a tag and two fully rendered operand
/// texts.
pub open spec fn spec_computation(op: ArithOp, left: Seq<char>, right: Seq<char>) -> Seq<char> {
    match op {
        ArithOp::Lt => "$(( "@ + left + " < "@ + right + " ))"@,
    }
}

/// Renders one tagged computation over already-rendered operand texts.  The
/// emission context is threaded through for uniformity with every other
/// translate step; the rendering itself depends only on the tag and the
/// operand texts.
pub fn translate_computation(
    _meta: &TranslateMetadata,
    op: ArithOp,
    left: Option<String>,
    right: Option<String>,
) -> (r: String)
    ensures
        r@ == spec_computation(op, spec_operand(left), spec_operand(right)),
{
    let l = match left {
        Some(s) => s,
        None => String::new(),
    };
    let rt = match right {
        Some(s) => s,
        None => String::new(),
    };
    match op {
        ArithOp::Lt => {
            let mut out = "$(( ".to_owned();
            out.append(l.as_str());
            out.append(" < ");
            out.append(rt.as_str());
            out.append(" ))");
            proof {
                assert(out@ =~= "$(( "@ + l@ + " < "@ + rt@ + " ))"@);
            }
            out
        },
    }
}

} // verus!
