use vstd::prelude::*;

verus! {

/// The closed set of static types used by the checker.  A value of this type
/// is immutable once assigned to a node and is compared structurally.
#[derive(Clone, Copy, Debug, PartialEq, Eq, Structural)]
pub enum Type {
    Num,
    Bool,
    Text,
    Null,
}

/// The printable name of a type, used when a diagnostic cites operand types.
pub open spec fn spec_type_name(t: Type) -> Seq<char> {
    match t {
        Type::Num => "Num"@,
        Type::Bool => "Bool"@,
        Type::Text => "Text"@,
        Type::Null => "Null"@,
    }
}

impl Type {
    /// Renders the type's name, for use in diagnostics.
    pub fn name(&self) -> (r: String)
        ensures
            r@ == spec_type_name(*self),
    {
        match self {
            Type::Num => "Num".to_owned(),
            Type::Bool => "Bool".to_owned(),
            Type::Text => "Text".to_owned(),
            Type::Null => "Null".to_owned(),
        }
    }
}

} // verus!
