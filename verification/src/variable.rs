use vstd::prelude::*;

use crate::diagnostics::{loud_at, Failure, Message};
use crate::emitter::TranslateMetadata;
use crate::parser::{is_name, variable, ParserMetadata};
use crate::types::Type;

verus! {

/// The diagnostic text for a reference to a name no active scope declares.
pub open spec fn spec_undef_text(name: Seq<char>) -> Seq<char> {
    "Variable '"@ + name + "' does not exist"@
}

/// Resolves a name against the scope memory, innermost scope first.  Returns
/// the variable's type, or a loud diagnostic anchored at `position` naming
/// the missing identifier.
pub fn handle_variable_reference(
    meta: &ParserMetadata,
    position: usize,
    name: &String,
) -> (r: Result<Type, Failure>)
    ensures
        r is Ok <==> meta.mem.resolve(name@) is Some,
        r matches Ok(t) ==> meta.mem.resolve(name@) == Some(t),
        r matches Err(f) ==> loud_at(f, position, spec_undef_text(name@)),
{
    match meta.mem.get_variable(name) {
        Some(t) => Ok(t),
        None => {
            let mut text = "Variable '".to_owned();
            text.append(name.as_str());
            text.append("' does not exist");
            proof {
                assert(text@ =~= spec_undef_text(name@));
            }
            Err(Failure::Loud(Message::new(position, text)))
        },
    }
}

/// A read of a variable: resolves the name against the scope memory at parse
/// time and renders as a shell parameter substitution.
#[derive(Debug)]
pub struct VariableGet {
    pub name: String,
    pub kind: Type,
}

impl VariableGet {
    /// The resolved static type of this reference.
    pub open spec fn spec_type(self) -> Type {
        self.kind
    }

    /// What this reference renders as: `${name}`.
    pub open spec fn spec_translate(self) -> Seq<char> {
        "${"@ + self.name@ + "}"@
    }

    pub fn new() -> (r: VariableGet)
        ensures
            r.name@ == Seq::<char>::empty(),
            r.kind == Type::Null,
    {
        VariableGet { name: String::new(), kind: Type::Null }
    }

    pub fn get_type(&self) -> (r: Type)
        ensures
            r == self.spec_type(),
    {
        self.kind
    }

    /// Consumes one identifier token and resolves it.  A non-identifier at
    /// the cursor is a quiet failure that leaves the cursor untouched; an
    /// identifier no active scope declares is a loud failure naming it,
    /// anchored at the identifier's position.
    pub fn parse(&mut self, meta: &mut ParserMetadata) -> (r: Result<(), Failure>)
        requires
            old(meta).wf(),
        ensures
            final(meta).stream() == old(meta).stream(),
            final(meta).mem == old(meta).mem,
            final(meta).wf(),
            final(meta).cursor() >= old(meta).cursor(),
            r is Ok <==> old(meta).has_current() && is_name(old(meta).cur_word()) && old(
                meta,
            ).mem.resolve(old(meta).cur_word()) is Some,
            r is Ok ==> final(meta).cursor() == old(meta).cursor() + 1 && final(self).name@ == old(
                meta,
            ).cur_word() && Some(final(self).kind) == old(meta).mem.resolve(old(meta).cur_word()),
            r matches Err(Failure::Quiet(p)) ==> final(meta).cursor() == old(meta).cursor() && p
                == old(meta).spec_error_position() && !(old(meta).has_current() && is_name(
                old(meta).cur_word(),
            )),
            r matches Err(Failure::Loud(m)) ==> old(meta).has_current() && is_name(
                old(meta).cur_word(),
            ) && old(meta).mem.resolve(old(meta).cur_word()) is None && m.position == old(
                meta,
            ).spec_error_position() && m.text@ == spec_undef_text(old(meta).cur_word()),
    {
        let position = meta.error_position();
        let name = match variable(meta) {
            Ok(w) => w,
            Err(f) => {
                return Err(f);
            },
        };
        let kind = match handle_variable_reference(meta, position, &name) {
            Ok(t) => t,
            Err(f) => {
                return Err(f);
            },
        };
        self.name = name;
        self.kind = kind;
        Ok(())
    }

    /// Renders the read as `${name}`; a variable read mutates no emission
    /// state.
    pub fn translate(&self, meta: &mut TranslateMetadata) -> (r: String)
        ensures
            final(meta).indent == old(meta).indent,
            r@ == self.spec_translate(),
    {
        let mut out = "${".to_owned();
        out.append(self.name.as_str());
        out.append("}");
        proof {
            assert(out@ =~= self.spec_translate());
        }
        out
    }
}

} // verus!
