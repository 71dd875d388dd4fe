use vstd::prelude::*;

use crate::compute::{spec_computation, translate_computation, ArithOp};
use crate::diagnostics::{loud_at, Failure, Message};
use crate::emitter::TranslateMetadata;
use crate::memory::resolve_in;
use crate::parser::{
    is_name, is_number, spec_pos_at, token, word_is_name, word_is_number, ParserMetadata, Token,
};
use crate::types::{spec_type_name, Type};
use crate::variable::{spec_undef_text, VariableGet};

verus! {

/// The diagnostic text of an operand-type mismatch: the operator family's
/// base message, citing both operand types.
pub open spec fn spec_mismatch_text(base: Seq<char>, l: Type, r: Type) -> Seq<char> {
    base + ": "@ + spec_type_name(l) + " and "@ + spec_type_name(r)
}

/// The base message of the comparison family's type check.
pub open spec fn spec_cmp_error_base() -> Seq<char> {
    "Cannot compare two values of different types"@
}

/// Every loud failure an expression parse can raise carries a semantic
/// diagnostic: an operand-type mismatch citing a pair of types that really
/// fails the comparison's type check, or an undeclared variable named in
/// the text.
pub open spec fn spec_semantic_text(t: Seq<char>) -> bool {
    ||| exists|l: Type, r: Type|
        t == spec_mismatch_text(spec_cmp_error_base(), l, r) && !(l == r && l == Type::Num)
    ||| exists|n: Seq<char>| is_name(n) && t == spec_undef_text(n)
}

/// The shared per-operator type check: both operand types must match each
/// other and belong to the operator's allowed set.  Anything else is a loud
/// failure at `position`, citing both operand types after the operator's
/// base message.
pub fn expression_arms_of_type(
    l: Type,
    r: Type,
    allowed: &Vec<Type>,
    position: usize,
    base: &String,
) -> (res: Result<(), Failure>)
    ensures
        res is Ok <==> l == r && allowed@.contains(l),
        res matches Err(f) ==> loud_at(f, position, spec_mismatch_text(base@, l, r)),
{
    let mut found = false;
    let mut j: usize = 0;
    proof {
        assert(!allowed@.take(0).contains(l));
    }
    while j < allowed.len()
        invariant
            j <= allowed.len(),
            found == allowed@.take(j as int).contains(l),
        decreases allowed.len() - j,
    {
        proof {
            if allowed@.take(j as int + 1).contains(l) {
                let k = choose|k: int|
                    0 <= k < j + 1 && #[trigger] allowed@.take(j as int + 1)[k] == l;
                assert(k == j || allowed@.take(j as int)[k] == l);
            }
            if allowed@.take(j as int).contains(l) {
                let k = choose|k: int| 0 <= k < j && #[trigger] allowed@.take(j as int)[k] == l;
                assert(allowed@.take(j as int + 1)[k] == l);
            }
        }
        if allowed[j] == l {
            found = true;
            proof {
                assert(allowed@.take(j as int + 1)[j as int] == l);
            }
        }
        j = j + 1;
    }
    proof {
        assert(allowed@.take(allowed@.len() as int) =~= allowed@);
    }
    if found && l == r {
        Ok(())
    } else {
        let mut text = base.clone();
        text.append(": ");
        let ln = l.name();
        text.append(ln.as_str());
        text.append(" and ");
        let rn = r.name();
        text.append(rn.as_str());
        proof {
            assert(text@ =~= spec_mismatch_text(base@, l, r));
        }
        Err(Failure::Loud(Message::new(position, text)))
    }
}

/// Whether the single token at the cursor can begin (and finish) an operand:
/// a numeric literal, a boolean literal, or a declared variable name.
pub open spec fn spec_atom_ok(w: Seq<char>, frames: Seq<Seq<(Seq<char>, Type)>>) -> bool {
    ||| is_number(w)
    ||| w == "true"@ || w == "false"@
    ||| (is_name(w) && resolve_in(frames, w) is Some)
}

/// The static type such an operand resolves to.
pub open spec fn spec_atom_type(w: Seq<char>, frames: Seq<Seq<(Seq<char>, Type)>>) -> Type {
    if is_number(w) {
        Type::Num
    } else if w == "true"@ || w == "false"@ {
        Type::Bool
    } else {
        match resolve_in(frames, w) {
            Some(t) => t,
            None => Type::Null,
        }
    }
}

/// What such an operand renders as.
pub open spec fn spec_atom_render(w: Seq<char>) -> Seq<char> {
    if is_number(w) {
        w
    } else if w == "true"@ {
        "1"@
    } else if w == "false"@ {
        "0"@
    } else {
        "${"@ + w + "}"@
    }
}

/// Whether the single token at the cursor aborts an operand parse loudly: a
/// valid variable name (and not a literal) that no active scope declares.
pub open spec fn spec_atom_aborts(w: Seq<char>, frames: Seq<Seq<(Seq<char>, Type)>>) -> bool {
    &&& is_name(w)
    &&& !is_number(w)
    &&& w != "true"@
    &&& w != "false"@
    &&& resolve_in(frames, w) is None
}

/// The spec-level outcome of a parse attempt: the construct parsed, with its
/// resolved type, the token index just past it and its rendering; a quiet
/// rejection carrying the position it is anchored to; or a loud abort
/// carrying its full diagnostic.
pub ghost enum ParseOutcome {
    Parsed { t: Type, end: int, render: Seq<char> },
    Rejected { position: usize },
    Aborted { position: usize, text: Seq<char> },
}

/// How many tokens remain at index `i` of a stream of `len` tokens.
pub open spec fn spec_measure(len: int, i: int) -> int {
    if 0 <= i <= len {
        len - i
    } else {
        0
    }
}

/// What a comparison attempt at token index `i` yields: an operand, the
/// comparison literal, the rest of the expression as the right operand, and
/// the type check over both operand types, whose failure is anchored at the
/// comparison literal and cites both types.
pub open spec fn spec_parse_lt(
    toks: Seq<Token>,
    i: int,
    frames: Seq<Seq<(Seq<char>, Type)>>,
) -> ParseOutcome
    decreases spec_measure(toks.len() as int, i), 0int,
{
    if 0 <= i < toks.len() && spec_atom_ok(toks[i].word@, frames) {
        if i + 1 < toks.len() && toks[i + 1].word@ == "<"@ {
            match spec_parse_expr(toks, i + 2, frames) {
                ParseOutcome::Parsed { t, end, render } => {
                    if spec_atom_type(toks[i].word@, frames) == Type::Num && t == Type::Num {
                        ParseOutcome::Parsed {
                            t: Type::Bool,
                            end,
                            render: spec_computation(
                                ArithOp::Lt,
                                spec_atom_render(toks[i].word@),
                                render,
                            ),
                        }
                    } else {
                        ParseOutcome::Aborted {
                            position: spec_pos_at(toks, i + 1),
                            text: spec_mismatch_text(
                                spec_cmp_error_base(),
                                spec_atom_type(toks[i].word@, frames),
                                t,
                            ),
                        }
                    }
                },
                ParseOutcome::Rejected { position } => ParseOutcome::Rejected { position },
                ParseOutcome::Aborted { position, text } => ParseOutcome::Aborted {
                    position,
                    text,
                },
            }
        } else {
            ParseOutcome::Rejected { position: spec_pos_at(toks, i + 1) }
        }
    } else if 0 <= i < toks.len() && spec_atom_aborts(toks[i].word@, frames) {
        ParseOutcome::Aborted {
            position: spec_pos_at(toks, i),
            text: spec_undef_text(toks[i].word@),
        }
    } else {
        ParseOutcome::Rejected { position: spec_pos_at(toks, i) }
    }
}

/// What a full expression parse at token index `i` yields: the comparison
/// attempt and, on its quiet rejection only, the single-operand fallback
/// (whose own rejection is anchored back at `i`).
pub open spec fn spec_parse_expr(
    toks: Seq<Token>,
    i: int,
    frames: Seq<Seq<(Seq<char>, Type)>>,
) -> ParseOutcome
    decreases spec_measure(toks.len() as int, i), 1int,
{
    match spec_parse_lt(toks, i, frames) {
        ParseOutcome::Parsed { t, end, render } => ParseOutcome::Parsed { t, end, render },
        ParseOutcome::Aborted { position, text } => ParseOutcome::Aborted { position, text },
        ParseOutcome::Rejected { position } => {
            if 0 <= i < toks.len() && spec_atom_ok(toks[i].word@, frames) {
                ParseOutcome::Parsed {
                    t: spec_atom_type(toks[i].word@, frames),
                    end: i + 1,
                    render: spec_atom_render(toks[i].word@),
                }
            } else {
                ParseOutcome::Rejected { position: spec_pos_at(toks, i) }
            }
        },
    }
}

/// A parsed comparison spans at least three tokens and a parsed expression
/// at least one; neither ends past the stream.
pub proof fn lemma_parse_end_bounds(toks: Seq<Token>, i: int, frames: Seq<Seq<(Seq<char>, Type)>>)
    requires
        0 <= i,
    ensures
        spec_parse_lt(toks, i, frames) is Parsed ==> i + 3 <= spec_parse_lt(toks, i, frames)->end
            <= toks.len(),
        spec_parse_expr(toks, i, frames) is Parsed ==> i + 1 <= spec_parse_expr(
            toks,
            i,
            frames,
        )->end <= toks.len(),
    decreases spec_measure(toks.len() as int, i),
{
    if 0 <= i < toks.len() && spec_atom_ok(toks[i].word@, frames) && i + 1 < toks.len() && toks[i
        + 1].word@ == "<"@ {
        lemma_parse_end_bounds(toks, i + 2, frames);
    }
}

/// A comparison whose two operands both resolve to Number parses
/// successfully and resolves to Boolean: with a numeric operand before the
/// comparison literal and a numeric right-hand expression after it, the
/// comparison attempt succeeds, and the whole expression parse agrees with
/// it.
pub proof fn lemma_comparison_of_numbers_parses(
    toks: Seq<Token>,
    i: int,
    frames: Seq<Seq<(Seq<char>, Type)>>,
)
    requires
        0 <= i,
        i + 1 < toks.len(),
        spec_atom_ok(toks[i].word@, frames),
        spec_atom_type(toks[i].word@, frames) == Type::Num,
        toks[i + 1].word@ == "<"@,
        spec_parse_expr(toks, i + 2, frames) is Parsed,
        spec_parse_expr(toks, i + 2, frames)->t == Type::Num,
    ensures
        spec_parse_lt(toks, i, frames) is Parsed,
        spec_parse_lt(toks, i, frames)->t == Type::Bool,
        spec_parse_expr(toks, i, frames) == spec_parse_lt(toks, i, frames),
{
}

/// A comparison whose operand types differ, or either of whose operand
/// types is not Number, fails loudly: the attempt aborts instead of being
/// rejected or falling back to a single operand, and its diagnostic is
/// anchored at the comparison literal and cites both operand types.
pub proof fn lemma_comparison_mismatch_aborts(
    toks: Seq<Token>,
    i: int,
    frames: Seq<Seq<(Seq<char>, Type)>>,
)
    requires
        0 <= i,
        i + 1 < toks.len(),
        spec_atom_ok(toks[i].word@, frames),
        toks[i + 1].word@ == "<"@,
        spec_parse_expr(toks, i + 2, frames) is Parsed,
        !(spec_atom_type(toks[i].word@, frames) == Type::Num && spec_parse_expr(
            toks,
            i + 2,
            frames,
        )->t == Type::Num),
    ensures
        spec_parse_lt(toks, i, frames) == (ParseOutcome::Aborted {
            position: toks[i + 1].position,
            text: spec_mismatch_text(
                spec_cmp_error_base(),
                spec_atom_type(toks[i].word@, frames),
                spec_parse_expr(toks, i + 2, frames)->t,
            ),
        }),
        spec_parse_expr(toks, i, frames) == spec_parse_lt(toks, i, frames),
{
}

/// An expression node: a literal, a variable read, or a comparison.  A node
/// is constructed empty and populated by its parse step; the empty node is
/// never part of a successfully parsed tree.
#[derive(Debug)]
#[allow(inconsistent_fields)]
pub enum Expr {
    Empty,
    Number { value: String },
    BoolLit { value: bool },
    VariableGet(VariableGet),
    Lt(Box<Lt>),
}

/// The binary comparison `left < right`, representative of the binary
/// operator family: it parses its operands with precedence awareness,
/// enforces the family's per-operator allowed-type set, and delegates its
/// rendering to the tag-dispatched shared emitter.
#[derive(Debug)]
pub struct Lt {
    pub left: Box<Expr>,
    pub right: Box<Expr>,
}

impl Expr {
    /// The node's resolved static type.
    pub open spec fn spec_type(self) -> Type {
        match self {
            Expr::Empty => Type::Null,
            Expr::Number { .. } => Type::Num,
            Expr::BoolLit { .. } => Type::Bool,
            Expr::VariableGet(v) => v.spec_type(),
            Expr::Lt(_) => Type::Bool,
        }
    }

    /// What the node renders as.
    pub open spec fn spec_translate(self) -> Seq<char>
        decreases self,
    {
        match self {
            Expr::Empty => Seq::empty(),
            Expr::Number { value } => value@,
            Expr::BoolLit { value } => if value {
                "1"@
            } else {
                "0"@
            },
            Expr::VariableGet(v) => v.spec_translate(),
            Expr::Lt(l) => l.spec_translate(),
        }
    }

    pub fn new() -> (r: Expr)
        ensures
            r == Expr::Empty,
    {
        Expr::Empty
    }

    pub fn get_type(&self) -> (r: Type)
        ensures
            r == self.spec_type(),
    {
        match self {
            Expr::Empty => Type::Null,
            Expr::Number { .. } => Type::Num,
            Expr::BoolLit { .. } => Type::Bool,
            Expr::VariableGet(v) => v.get_type(),
            Expr::Lt(_) => Type::Bool,
        }
    }

    /// Parses one expression: a comparison when the tokens ahead form one,
    /// otherwise a single operand.  The result, the node built, the cursor
    /// and the diagnostic all follow the spec-level outcome of the
    /// expression grammar at the entry cursor.
    pub fn parse(&mut self, meta: &mut ParserMetadata) -> (r: Result<(), Failure>)
        requires
            old(meta).wf(),
        ensures
            final(meta).stream() == old(meta).stream(),
            final(meta).mem == old(meta).mem,
            final(meta).wf(),
            final(meta).cursor() >= old(meta).cursor(),
            r is Ok ==> old(meta).cursor() < final(meta).cursor(),
            r is Ok ==> old(meta).has_current() && spec_atom_ok(
                old(meta).cur_word(),
                old(meta).mem.frames(),
            ),
            r matches Err(Failure::Quiet(p)) ==> final(meta).cursor() == old(meta).cursor() && p
                == old(meta).spec_error_position() && !(old(meta).has_current() && spec_atom_ok(
                old(meta).cur_word(),
                old(meta).mem.frames(),
            )),
            r matches Err(Failure::Loud(m)) ==> spec_semantic_text(m.text@),
            ({
                let o = spec_parse_expr(
                    old(meta).stream(),
                    old(meta).cursor() as int,
                    old(meta).mem.frames(),
                );
                &&& (r is Ok <==> o is Parsed)
                &&& (r is Ok ==> o == (ParseOutcome::Parsed {
                    t: final(self).spec_type(),
                    end: final(meta).cursor() as int,
                    render: final(self).spec_translate(),
                }))
                &&& (r matches Err(Failure::Quiet(p)) <==> o is Rejected)
                &&& (r matches Err(Failure::Quiet(p)) ==> o == (ParseOutcome::Rejected {
                    position: p,
                }))
                &&& (r matches Err(Failure::Loud(m)) <==> o is Aborted)
                &&& (r matches Err(Failure::Loud(m)) ==> o == (ParseOutcome::Aborted {
                    position: m.position,
                    text: m.text@,
                }))
            }),
        decreases old(meta).remaining(), 1int,
    {
        let ghost s0 = old(meta).stream();
        let ghost i0 = old(meta).cursor() as int;
        let ghost f0 = old(meta).mem.frames();
        let start = meta.get_index();
        let mut lt_mod = Lt::new();
        match lt_mod.parse(meta) {
            Ok(()) => {
                *self = Expr::Lt(Box::new(lt_mod));
                return Ok(());
            },
            Err(Failure::Loud(m)) => {
                return Err(Failure::Loud(m));
            },
            Err(Failure::Quiet(_)) => {
                meta.set_index(start);
            },
        }
        let fallback = parse_left_expr(meta, self);
        proof {
            if fallback matches Err(Failure::Loud(_)) {
                assert(spec_parse_lt(s0, i0, f0) is Aborted);
            }
        }
        fallback
    }

    /// Renders the node; expressions mutate no emission state.
    pub fn translate(&self, meta: &mut TranslateMetadata) -> (r: String)
        ensures
            final(meta).indent == old(meta).indent,
            r@ == self.spec_translate(),
        decreases self,
    {
        match self {
            Expr::Empty => String::new(),
            Expr::Number { value } => value.clone(),
            Expr::BoolLit { value } => {
                if *value {
                    "1".to_owned()
                } else {
                    "0".to_owned()
                }
            },
            Expr::VariableGet(v) => v.translate(meta),
            Expr::Lt(l) => l.translate(meta),
        }
    }
}

/// Parses, into `expr`, everything that binds tighter than the comparison
/// operator: a single operand token.  This is the shared left-expression
/// entry point of the operator family.
pub fn parse_left_expr(meta: &mut ParserMetadata, expr: &mut Expr) -> (r: Result<(), Failure>)
    requires
        old(meta).wf(),
    ensures
        final(meta).stream() == old(meta).stream(),
        final(meta).mem == old(meta).mem,
        final(meta).wf(),
        final(meta).cursor() >= old(meta).cursor(),
        r is Ok <==> old(meta).has_current() && spec_atom_ok(
            old(meta).cur_word(),
            old(meta).mem.frames(),
        ),
        r is Ok ==> final(meta).cursor() == old(meta).cursor() + 1 && final(expr).spec_type()
            == spec_atom_type(old(meta).cur_word(), old(meta).mem.frames())
            && final(expr).spec_translate() == spec_atom_render(old(meta).cur_word()),
        r is Err ==> *final(expr) == *old(expr),
        r matches Err(Failure::Quiet(p)) ==> final(meta).cursor() == old(meta).cursor() && p == old(
            meta,
        ).spec_error_position() && !(old(meta).has_current() && spec_atom_aborts(
            old(meta).cur_word(),
            old(meta).mem.frames(),
        )),
        r matches Err(Failure::Loud(m)) ==> old(meta).has_current() && spec_atom_aborts(
            old(meta).cur_word(),
            old(meta).mem.frames(),
        ) && m.position == old(
            meta,
        ).spec_error_position() && m.text@ == spec_undef_text(old(meta).cur_word()),
{
    let w_opt = match meta.get_current_token() {
        Some(t) => Some(t.word.clone()),
        None => None,
    };
    let w = match w_opt {
        Some(w) => w,
        None => {
            return Err(Failure::Quiet(meta.error_position()));
        },
    };
    if word_is_number(w.as_str()) {
        meta.increment_index();
        *expr = Expr::Number { value: w };
        Ok(())
    } else if w == "true".to_owned() {
        meta.increment_index();
        *expr = Expr::BoolLit { value: true };
        Ok(())
    } else if w == "false".to_owned() {
        meta.increment_index();
        *expr = Expr::BoolLit { value: false };
        Ok(())
    } else if word_is_name(w.as_str()) {
        let mut vg = VariableGet::new();
        match vg.parse(meta) {
            Ok(()) => {
                *expr = Expr::VariableGet(vg);
                Ok(())
            },
            Err(f) => Err(f),
        }
    } else {
        Err(Failure::Quiet(meta.error_position()))
    }
}

impl Lt {
    /// What this comparison renders as: both operands fully rendered, left
    /// first, handed to the dispatcher under the comparison tag.
    pub open spec fn spec_translate(self) -> Seq<char>
        decreases self,
    {
        spec_computation(ArithOp::Lt, self.left.spec_translate(), self.right.spec_translate())
    }

    pub fn new() -> (r: Lt)
        ensures
            *r.left == Expr::Empty,
            *r.right == Expr::Empty,
    {
        Lt { left: Box::new(Expr::new()), right: Box::new(Expr::new()) }
    }

    /// A comparison's resolved type is Boolean, independent of its operand
    /// types.
    pub fn get_type(&self) -> (r: Type)
        ensures
            r == Type::Bool,
    {
        Type::Bool
    }

    /// Parses `left < right` and enforces the comparison's operand-type
    /// compatibility: both operand types must be numeric.  The position of
    /// the operator token is captured before it is consumed, and the type
    /// mismatch is a loud failure at that position citing both operand
    /// types.  On success, `left` and `right` are the two parsed operand
    /// subtrees; result, cursor and diagnostic all follow the spec-level
    /// outcome of the comparison grammar at the entry cursor.
    pub fn parse(&mut self, meta: &mut ParserMetadata) -> (r: Result<(), Failure>)
        requires
            old(meta).wf(),
        ensures
            final(meta).stream() == old(meta).stream(),
            final(meta).mem == old(meta).mem,
            final(meta).wf(),
            final(meta).cursor() >= old(meta).cursor(),
            r is Ok ==> old(meta).cursor() + 3 <= final(meta).cursor(),
            r is Ok ==> old(meta).has_current() && spec_atom_ok(
                old(meta).cur_word(),
                old(meta).mem.frames(),
            ),
            r is Ok ==> final(self).left.spec_type() == Type::Num
                && final(self).right.spec_type() == Type::Num,
            r is Ok ==> final(self).left.spec_translate() == spec_atom_render(
                old(meta).cur_word(),
            ) && final(self).left.spec_type() == spec_atom_type(
                old(meta).cur_word(),
                old(meta).mem.frames(),
            ),
            r is Ok ==> ({
                let ro = spec_parse_expr(
                    old(meta).stream(),
                    old(meta).cursor() as int + 2,
                    old(meta).mem.frames(),
                );
                &&& ro is Parsed
                &&& final(self).right.spec_type() == ro->t
                &&& final(self).right.spec_translate() == ro->render
            }),
            r matches Err(Failure::Quiet(p)) ==> final(meta).cursor() == old(meta).cursor(),
            r matches Err(Failure::Loud(m)) ==> spec_semantic_text(m.text@),
            ({
                let o = spec_parse_lt(
                    old(meta).stream(),
                    old(meta).cursor() as int,
                    old(meta).mem.frames(),
                );
                &&& (r is Ok <==> o is Parsed)
                &&& (r is Ok ==> o == (ParseOutcome::Parsed {
                    t: Type::Bool,
                    end: final(meta).cursor() as int,
                    render: final(self).spec_translate(),
                }))
                &&& (r matches Err(Failure::Quiet(p)) <==> o is Rejected)
                &&& (r matches Err(Failure::Quiet(p)) ==> o == (ParseOutcome::Rejected {
                    position: p,
                }))
                &&& (r matches Err(Failure::Loud(m)) <==> o is Aborted)
                &&& (r matches Err(Failure::Loud(m)) ==> o == (ParseOutcome::Aborted {
                    position: m.position,
                    text: m.text@,
                }))
            }),
        decreases old(meta).remaining(), 0int,
    {
        let ghost s0 = old(meta).stream();
        let ghost i0 = old(meta).cursor() as int;
        let ghost f0 = old(meta).mem.frames();
        let start = meta.get_index();
        let mut left = Expr::new();
        match parse_left_expr(meta, &mut left) {
            Ok(()) => (),
            Err(f) => {
                return Err(f);
            },
        }
        let position = meta.error_position();
        let op = "<".to_owned();
        match token(meta, &op) {
            Ok(()) => (),
            Err(f) => {
                meta.set_index(start);
                return Err(f);
            },
        }
        let mut right = Expr::new();
        match right.parse(meta) {
            Ok(()) => (),
            Err(Failure::Loud(m)) => {
                return Err(Failure::Loud(m));
            },
            Err(Failure::Quiet(p)) => {
                meta.set_index(start);
                return Err(Failure::Quiet(p));
            },
        }
        let l_type = left.get_type();
        let r_type = right.get_type();
        let mut allowed: Vec<Type> = Vec::new();
        allowed.push(Type::Num);
        let base = "Cannot compare two values of different types".to_owned();
        proof {
            assert(allowed@.contains(l_type) ==> allowed@[choose|k: int|
                0 <= k < allowed@.len() && #[trigger] allowed@[k] == l_type] == l_type);
            assert(l_type == Type::Num ==> allowed@.contains(l_type)) by {
                if l_type == Type::Num {
                    assert(allowed@[0] == l_type);
                }
            }
        }
        match expression_arms_of_type(l_type, r_type, &allowed, position, &base) {
            Ok(()) => (),
            Err(f) => {
                proof {
                    assert(allowed@[0] == Type::Num);
                    assert(base@ == spec_cmp_error_base());
                }
                return Err(f);
            },
        }
        self.left = Box::new(left);
        self.right = Box::new(right);
        Ok(())
    }

    /// Renders the comparison: left operand first, then right, then the
    /// dispatcher under the `Lt` tag.
    pub fn translate(&self, meta: &mut TranslateMetadata) -> (r: String)
        ensures
            final(meta).indent == old(meta).indent,
            r@ == self.spec_translate(),
        decreases self,
    {
        let left = self.left.translate(meta);
        let right = self.right.translate(meta);
        translate_computation(meta, ArithOp::Lt, Some(left), Some(right))
    }
}

} // verus!
