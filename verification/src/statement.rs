use vstd::prelude::*;

use crate::diagnostics::Failure;
use crate::emitter::TranslateMetadata;
use crate::expression::{
    lemma_parse_end_bounds, spec_parse_expr, spec_semantic_text, Expr, ParseOutcome,
};
use crate::parser::{is_name, spec_pos_at, token, variable, ParserMetadata, Token};
use crate::types::Type;

verus! {

/// What a declaration attempt at token index `i` yields: the `let` keyword,
/// a name, `=`, and an initializer expression, rendered as a shell
/// assignment.
pub open spec fn spec_parse_vinit(
    toks: Seq<Token>,
    i: int,
    frames: Seq<Seq<(Seq<char>, Type)>>,
) -> ParseOutcome {
    if 0 <= i < toks.len() && toks[i].word@ == "let"@ {
        if i + 1 < toks.len() && is_name(toks[i + 1].word@) {
            if i + 2 < toks.len() && toks[i + 2].word@ == "="@ {
                match spec_parse_expr(toks, i + 3, frames) {
                    ParseOutcome::Parsed { t, end, render } => ParseOutcome::Parsed {
                        t,
                        end,
                        render: toks[i + 1].word@ + "="@ + render,
                    },
                    ParseOutcome::Rejected { position } => ParseOutcome::Rejected { position },
                    ParseOutcome::Aborted { position, text } => ParseOutcome::Aborted {
                        position,
                        text,
                    },
                }
            } else {
                ParseOutcome::Rejected { position: spec_pos_at(toks, i + 2) }
            }
        } else {
            ParseOutcome::Rejected { position: spec_pos_at(toks, i + 1) }
        }
    } else {
        ParseOutcome::Rejected { position: spec_pos_at(toks, i) }
    }
}

/// What a statement attempt at token index `i` yields: a declaration when
/// the tokens ahead form one, otherwise a bare expression (whose own
/// rejection is anchored back at `i`).
pub open spec fn spec_parse_stmt(
    toks: Seq<Token>,
    i: int,
    frames: Seq<Seq<(Seq<char>, Type)>>,
) -> ParseOutcome {
    match spec_parse_vinit(toks, i, frames) {
        ParseOutcome::Parsed { t, end, render } => ParseOutcome::Parsed { t, end, render },
        ParseOutcome::Aborted { position, text } => ParseOutcome::Aborted { position, text },
        ParseOutcome::Rejected { .. } => spec_parse_expr(toks, i, frames),
    }
}

/// A parsed statement spans at least one token and ends within the stream.
pub proof fn lemma_stmt_end_bounds(toks: Seq<Token>, i: int, frames: Seq<Seq<(Seq<char>, Type)>>)
    requires
        0 <= i,
    ensures
        spec_parse_stmt(toks, i, frames) is Parsed ==> i + 1 <= spec_parse_stmt(
            toks,
            i,
            frames,
        )->end <= toks.len(),
{
    lemma_parse_end_bounds(toks, i, frames);
    lemma_parse_end_bounds(toks, i + 3, frames);
}

/// The scope frames after a statement parsed at token index `i`: a
/// declaration extends the innermost frame with its name and its
/// initializer's type; any other statement leaves the frames unchanged.
pub open spec fn spec_frames_after_stmt(
    toks: Seq<Token>,
    i: int,
    frames: Seq<Seq<(Seq<char>, Type)>>,
) -> Seq<Seq<(Seq<char>, Type)>> {
    match spec_parse_vinit(toks, i, frames) {
        ParseOutcome::Parsed { t, .. } => frames.drop_last().push(
            frames.last().push((toks[i + 1].word@, t)),
        ),
        _ => frames,
    }
}

/// A declaration `let name = expr`: parses its initializer, records the
/// name with the initializer's static type in the innermost scope, and
/// renders as a shell assignment.
#[derive(Debug)]
pub struct VariableInit {
    pub name: String,
    pub expr: Expr,
}

impl VariableInit {
    /// What the declaration renders as: `name=value`.
    pub open spec fn spec_translate(self) -> Seq<char> {
        self.name@ + "="@ + self.expr.spec_translate()
    }

    pub fn new() -> (r: VariableInit)
        ensures
            r.name@ == Seq::<char>::empty(),
            r.expr == Expr::Empty,
    {
        VariableInit { name: String::new(), expr: Expr::new() }
    }

    /// Parses `let name = expr` and declares the name in the innermost
    /// scope.  The result, the built node, the cursor, the scope extension
    /// and the diagnostic all follow the spec-level outcome of the
    /// declaration grammar at the entry cursor; a quiet failure leaves the
    /// cursor and the scope memory untouched.
    pub fn parse(&mut self, meta: &mut ParserMetadata) -> (r: Result<(), Failure>)
        requires
            old(meta).wf(),
            old(meta).mem.depth() > 0,
        ensures
            final(meta).stream() == old(meta).stream(),
            final(meta).wf(),
            final(meta).cursor() >= old(meta).cursor(),
            final(meta).mem.frames().len() == old(meta).mem.frames().len(),
            forall|i: int|
                0 <= i < old(meta).mem.frames().len() - 1 ==> final(meta).mem.frames()[i] == old(
                    meta,
                ).mem.frames()[i],
            r is Ok ==> old(meta).cursor() < final(meta).cursor() && final(meta).mem.frames()
                =~= old(meta).mem.frames().drop_last().push(
                old(meta).mem.frames().last().push(
                    (final(self).name@, final(self).expr.spec_type()),
                ),
            ),
            r is Ok ==> final(self).name@ == old(meta).stream()[old(meta).cursor() as int
                + 1].word@,
            r is Ok ==> final(meta).mem.frames() =~= spec_frames_after_stmt(
                old(meta).stream(),
                old(meta).cursor() as int,
                old(meta).mem.frames(),
            ),
            r is Err ==> final(meta).mem == old(meta).mem,
            r matches Err(Failure::Quiet(_)) ==> final(meta).cursor() == old(meta).cursor(),
            r matches Err(Failure::Loud(m)) ==> spec_semantic_text(m.text@),
            ({
                let o = spec_parse_vinit(
                    old(meta).stream(),
                    old(meta).cursor() as int,
                    old(meta).mem.frames(),
                );
                &&& (r is Ok <==> o is Parsed)
                &&& (r is Ok ==> o == (ParseOutcome::Parsed {
                    t: final(self).expr.spec_type(),
                    end: final(meta).cursor() as int,
                    render: final(self).spec_translate(),
                }))
                &&& (r matches Err(Failure::Quiet(p)) <==> o is Rejected)
                &&& (r matches Err(Failure::Quiet(p)) ==> o == (ParseOutcome::Rejected {
                    position: p,
                }))
                &&& (r matches Err(Failure::Loud(m)) <==> o is Aborted)
                &&& (r matches Err(Failure::Loud(m)) ==> o == (ParseOutcome::Aborted {
                    position: m.position,
                    text: m.text@,
                }))
            }),
    {
        let start = meta.get_index();
        let kw = "let".to_owned();
        match token(meta, &kw) {
            Ok(()) => (),
            Err(f) => {
                return Err(f);
            },
        }
        let name = match variable(meta) {
            Ok(w) => w,
            Err(f) => {
                meta.set_index(start);
                return Err(f);
            },
        };
        let eq = "=".to_owned();
        match token(meta, &eq) {
            Ok(()) => (),
            Err(f) => {
                meta.set_index(start);
                return Err(f);
            },
        }
        let mut expr = Expr::new();
        match expr.parse(meta) {
            Ok(()) => (),
            Err(Failure::Loud(m)) => {
                return Err(Failure::Loud(m));
            },
            Err(Failure::Quiet(p)) => {
                meta.set_index(start);
                return Err(Failure::Quiet(p));
            },
        }
        let kind = expr.get_type();
        meta.mem.add_variable(name.clone(), kind);
        self.name = name;
        self.expr = expr;
        Ok(())
    }

    /// Renders the declaration as `name=value`.
    pub fn translate(&self, meta: &mut TranslateMetadata) -> (r: String)
        ensures
            final(meta).indent == old(meta).indent,
            r@ == self.spec_translate(),
    {
        let mut out = self.name.clone();
        out.append("=");
        let value = self.expr.translate(meta);
        out.append(value.as_str());
        proof {
            assert(out@ =~= self.spec_translate());
        }
        out
    }
}

/// One statement: a variable declaration or a bare expression.  A statement
/// is constructed empty and populated by its parse step.
#[derive(Debug)]
pub enum Statement {
    Empty,
    VariableInit(VariableInit),
    Expression(Expr),
}

impl Statement {
    /// What the statement renders as.
    pub open spec fn spec_translate(self) -> Seq<char> {
        match self {
            Statement::Empty => Seq::empty(),
            Statement::VariableInit(vi) => vi.spec_translate(),
            Statement::Expression(e) => e.spec_translate(),
        }
    }

    pub fn new() -> (r: Statement)
        ensures
            r == Statement::Empty,
    {
        Statement::Empty
    }

    /// Parses one statement, trying each statement kind in order.  The
    /// result, the built statement's rendering, the cursor, the scope
    /// effect and the diagnostic all follow the spec-level outcome of the
    /// statement grammar at the entry cursor; a quiet failure leaves the
    /// cursor and the scope memory untouched, and a successful parse
    /// consumes at least one token and touches no scope but the innermost.
    pub fn parse(&mut self, meta: &mut ParserMetadata) -> (r: Result<(), Failure>)
        requires
            old(meta).wf(),
            old(meta).mem.depth() > 0,
        ensures
            final(meta).stream() == old(meta).stream(),
            final(meta).wf(),
            final(meta).cursor() >= old(meta).cursor(),
            final(meta).mem.frames().len() == old(meta).mem.frames().len(),
            forall|i: int|
                0 <= i < old(meta).mem.frames().len() - 1 ==> final(meta).mem.frames()[i] == old(
                    meta,
                ).mem.frames()[i],
            old(meta).mem.frames().last().is_prefix_of(final(meta).mem.frames().last()),
            r is Ok ==> old(meta).cursor() < final(meta).cursor(),
            r is Ok ==> final(meta).mem.frames() =~= spec_frames_after_stmt(
                old(meta).stream(),
                old(meta).cursor() as int,
                old(meta).mem.frames(),
            ),
            r is Err ==> final(meta).mem == old(meta).mem,
            r matches Err(Failure::Quiet(p)) ==> final(meta).cursor() == old(meta).cursor(),
            r matches Err(Failure::Loud(m)) ==> spec_semantic_text(m.text@),
            ({
                let o = spec_parse_stmt(
                    old(meta).stream(),
                    old(meta).cursor() as int,
                    old(meta).mem.frames(),
                );
                &&& (r is Ok <==> o is Parsed)
                &&& (r is Ok ==> (o matches ParseOutcome::Parsed { t, end, render }
                    && final(meta).cursor() == end && final(self).spec_translate() == render))
                &&& (r matches Err(Failure::Quiet(p)) <==> o is Rejected)
                &&& (r matches Err(Failure::Quiet(p)) ==> o == (ParseOutcome::Rejected {
                    position: p,
                }))
                &&& (r matches Err(Failure::Loud(m)) <==> o is Aborted)
                &&& (r matches Err(Failure::Loud(m)) ==> o == (ParseOutcome::Aborted {
                    position: m.position,
                    text: m.text@,
                }))
            }),
    {
        let mut init = VariableInit::new();
        match init.parse(meta) {
            Ok(()) => {
                proof {
                    assert(old(meta).mem.frames().last().is_prefix_of(
                        final(meta).mem.frames().last(),
                    ));
                }
                *self = Statement::VariableInit(init);
                return Ok(());
            },
            Err(Failure::Loud(m)) => {
                return Err(Failure::Loud(m));
            },
            Err(Failure::Quiet(_)) => (),
        }
        let mut expr = Expr::new();
        match expr.parse(meta) {
            Ok(()) => {
                *self = Statement::Expression(expr);
                Ok(())
            },
            Err(f) => Err(f),
        }
    }

    /// Renders the statement; statements mutate no emission state.
    pub fn translate(&self, meta: &mut TranslateMetadata) -> (r: String)
        ensures
            final(meta).indent == old(meta).indent,
            r@ == self.spec_translate(),
    {
        match self {
            Statement::Empty => String::new(),
            Statement::VariableInit(vi) => vi.translate(meta),
            Statement::Expression(e) => e.translate(meta),
        }
    }
}

} // verus!
