use vstd::prelude::*;

use crate::diagnostics::{Failure, Message};
use crate::emitter::{spec_indent, TranslateMetadata};
use crate::expression::{spec_measure, spec_semantic_text, ParseOutcome};
use crate::parser::{ParserMetadata, Token};
use crate::statement::{
    lemma_stmt_end_bounds, spec_frames_after_stmt, spec_parse_stmt, Statement,
};
use crate::types::Type;

verus! {

/// A word that opens a line comment.
pub open spec fn is_comment(w: Seq<char>) -> bool {
    w.len() > 0 && w[0] == '#'
}

fn word_is_comment(w: &str) -> (r: bool)
    ensures
        r == is_comment(w@),
{
    if w.unicode_len() == 0 {
        return false;
    }
    w.get_char(0) == '#'
}

/// The spec-level outcome of a block parse: the statement sequence ended (at
/// the end of the stream or at an unconsumed terminator), with the renders
/// of the statements parsed, in source order; or it failed, with the full
/// diagnostic and the renders of the statements parsed before the failure.
pub ghost enum BlockOutcome {
    Done { end: int, renders: Seq<Seq<char>> },
    Failed { position: usize, text: Seq<char>, renders: Seq<Seq<char>> },
}

/// What the statement loop yields from token index `i` under the given
/// scope frames: separators and comments are skipped, a terminator `}` or
/// the end of the stream ends the loop (the terminator left unconsumed), a
/// quiet statement failure is wrapped as the generic diagnostic at its
/// position, a loud one passes through unchanged, and each parsed statement
/// extends the frames for the statements after it.
pub open spec fn spec_parse_block(
    toks: Seq<Token>,
    i: int,
    frames: Seq<Seq<(Seq<char>, Type)>>,
) -> BlockOutcome
    decreases spec_measure(toks.len() as int, i),
    via spec_parse_block_decreases
{
    if !(0 <= i < toks.len()) {
        BlockOutcome::Done { end: i, renders: Seq::empty() }
    } else if toks[i].word@ == "\n"@ || toks[i].word@ == ";"@ || is_comment(toks[i].word@) {
        spec_parse_block(toks, i + 1, frames)
    } else if toks[i].word@ == "}"@ {
        BlockOutcome::Done { end: i, renders: Seq::empty() }
    } else {
        match spec_parse_stmt(toks, i, frames) {
            ParseOutcome::Parsed { t, end, render } => {
                match spec_parse_block(toks, end, spec_frames_after_stmt(toks, i, frames)) {
                    BlockOutcome::Done { end: after, renders } => BlockOutcome::Done {
                        end: after,
                        renders: seq![render] + renders,
                    },
                    BlockOutcome::Failed { position, text, renders } => BlockOutcome::Failed {
                        position,
                        text,
                        renders: seq![render] + renders,
                    },
                }
            },
            ParseOutcome::Rejected { position } => BlockOutcome::Failed {
                position,
                text: "Unexpected token"@,
                renders: Seq::empty(),
            },
            ParseOutcome::Aborted { position, text } => BlockOutcome::Failed {
                position,
                text,
                renders: Seq::empty(),
            },
        }
    }
}

#[via_fn]
proof fn spec_parse_block_decreases(toks: Seq<Token>, i: int, frames: Seq<Seq<(Seq<char>, Type)>>) {
    if 0 <= i < toks.len() {
        lemma_stmt_end_bounds(toks, i, frames);
    }
}

/// The renders of a statement sequence, in order.
pub open spec fn spec_renders_of(stmts: Seq<Statement>) -> Seq<Seq<char>> {
    stmts.map(|k: int, s: Statement| s.spec_translate())
}

/// Holds when `after` is `before` with one statement appended per render,
/// in order, each rendering as stated.
pub open spec fn spec_statements_appended(
    before: Seq<Statement>,
    after: Seq<Statement>,
    renders: Seq<Seq<char>>,
) -> bool {
    &&& after.len() == before.len() + renders.len()
    &&& forall|k: int| 0 <= k < before.len() ==> after[k] == before[k]
    &&& forall|k: int|
        0 <= k < renders.len() ==> after[before.len() + k].spec_translate() == #[trigger] renders[k]
}

/// The indent level a block renders its statements at: one deeper than the
/// surrounding level iff the block owns a scope.
pub open spec fn spec_block_indent(is_scope: bool, indent: nat) -> nat {
    if is_scope {
        indent + 1
    } else {
        indent
    }
}

/// The `;\n`-joined, indent-prefixed translations of a statement sequence,
/// in order.
pub open spec fn spec_join_statements(stmts: Seq<Statement>, ind: Seq<char>) -> Seq<char>
    decreases stmts.len(),
{
    if stmts.len() == 0 {
        Seq::empty()
    } else if stmts.len() == 1 {
        ind + stmts[0].spec_translate()
    } else {
        spec_join_statements(stmts.drop_last(), ind) + ";\n"@ + ind
            + stmts.last().spec_translate()
    }
}

/// What a block renders as: the no-op placeholder `:` when it has no
/// statements, otherwise its statements' translations joined by `;\n`, each
/// prefixed by the indent string of the block's level.
pub open spec fn spec_translate_block(
    statements: Seq<Statement>,
    is_scope: bool,
    indent: nat,
) -> Seq<char> {
    if statements.len() == 0 {
        ":"@
    } else {
        spec_join_statements(statements, spec_indent(spec_block_indent(is_scope, indent)))
    }
}

/// A block with no statements renders as exactly the no-op placeholder `:`,
/// whether or not it owns a scope and whatever the surrounding indent level.
pub proof fn lemma_empty_block_translation(
    statements: Seq<Statement>,
    is_scope: bool,
    indent: nat,
)
    requires
        statements.len() == 0,
    ensures
        spec_translate_block(statements, is_scope, indent) == ":"@,
{
}

/// A block's statements render one level deeper than the surrounding level
/// exactly when the block owns a scope.
pub proof fn lemma_block_indent_level(indent: nat)
    ensures
        spec_block_indent(true, indent) == indent + 1,
        spec_block_indent(false, indent) == indent,
{
}

/// A block of a single statement renders as that statement's translation
/// behind the indent string of the block's level.
pub proof fn lemma_block_translation_single(
    statements: Seq<Statement>,
    is_scope: bool,
    indent: nat,
)
    requires
        statements.len() == 1,
    ensures
        spec_translate_block(statements, is_scope, indent) == spec_indent(
            spec_block_indent(is_scope, indent),
        ) + statements[0].spec_translate(),
{
}

/// Appending a statement to a non-empty block appends the statement
/// separator, the indent string of the block's level, and that statement's
/// full translation — so a block renders as the indent-prefixed,
/// `;\n`-joined translations of its statements, in order.
pub proof fn lemma_block_translation_push(
    statements: Seq<Statement>,
    s: Statement,
    is_scope: bool,
    indent: nat,
)
    requires
        statements.len() > 0,
    ensures
        spec_translate_block(statements.push(s), is_scope, indent) == spec_translate_block(
            statements,
            is_scope,
            indent,
        ) + ";\n"@ + spec_indent(spec_block_indent(is_scope, indent)) + s.spec_translate(),
{
    assert(statements.push(s).drop_last() =~= statements);
    assert(statements.push(s).last() == s);
}

/// An ordered sequence of statements inside an optional lexical scope: the
/// structural container of the language.
#[derive(Debug)]
pub struct Block {
    pub statements: Vec<Statement>,
    pub is_scope: bool,
}

impl Block {
    /// Get whether this block is empty.
    pub fn is_empty(&self) -> (r: bool)
        ensures
            r == (self.statements@.len() == 0),
    {
        self.statements.len() == 0
    }

    /// Clears the scope flag, for an embedding construct that manages its
    /// own scope separately.
    pub fn set_scopeless(&mut self)
        ensures
            final(self).is_scope == false,
            final(self).statements == old(self).statements,
    {
        self.is_scope = false;
    }

    /// Push a parsed statement into the block.
    pub fn push_statement(&mut self, statement: Statement)
        ensures
            final(self).statements@ == old(self).statements@.push(statement),
            final(self).is_scope == old(self).is_scope,
    {
        self.statements.push(statement);
    }

    pub fn new() -> (r: Block)
        ensures
            r.statements@ == Seq::<Statement>::empty(),
            r.is_scope == true,
    {
        let r = Block { statements: Vec::new(), is_scope: true };
        proof {
            assert(r.statements@ =~= Seq::<Statement>::empty());
        }
        r
    }

    /// Parses statements up to the end of the stream or a block terminator
    /// `}` (left for the embedding construct to consume), skipping line
    /// separators and comments.  A new scope is pushed on entry and popped
    /// on every exit path, success or failure, so the scope stack leaves
    /// exactly as it entered.  The result, the statements appended, the
    /// cursor and the diagnostic all follow the spec-level outcome of the
    /// statement loop under the freshly pushed scope: a quiet statement
    /// failure is wrapped here into the generic diagnostic at its position,
    /// a loud one passes through unchanged, and the statements parsed
    /// before a failure are retained.
    pub fn parse(&mut self, meta: &mut ParserMetadata) -> (r: Result<(), Failure>)
        requires
            old(meta).wf(),
        ensures
            final(meta).stream() == old(meta).stream(),
            final(meta).wf(),
            final(meta).mem.frames() =~= old(meta).mem.frames(),
            final(meta).mem.depth() == old(meta).mem.depth(),
            final(meta).cursor() >= old(meta).cursor(),
            final(self).is_scope == old(self).is_scope,
            r is Ok ==> !final(meta).has_current() || final(meta).cur_word() == "}"@,
            r matches Err(f) ==> f is Loud,
            r matches Err(Failure::Loud(m)) ==> m.text@ == "Unexpected token"@
                || spec_semantic_text(m.text@),
            ({
                let o = spec_parse_block(
                    old(meta).stream(),
                    old(meta).cursor() as int,
                    old(meta).mem.frames().push(Seq::empty()),
                );
                &&& (r is Ok <==> o is Done)
                &&& (r is Ok ==> (o matches BlockOutcome::Done { end, renders }
                    && final(meta).cursor() == end && spec_statements_appended(
                    old(self).statements@,
                    final(self).statements@,
                    renders,
                )))
                &&& (r matches Err(Failure::Loud(m)) ==> (o matches BlockOutcome::Failed {
                    position,
                    text,
                    renders,
                } && m.position == position && m.text@ == text && spec_statements_appended(
                    old(self).statements@,
                    final(self).statements@,
                    renders,
                )))
            }),
    {
        let ghost s0 = old(meta).stream();
        let ghost i0 = old(meta).cursor() as int;
        let ghost f0 = old(meta).mem.frames();
        let ghost n0 = old(self).statements@.len() as int;
        meta.mem.push_scope();
        loop
            invariant
                s0 == old(meta).stream(),
                i0 == old(meta).cursor() as int,
                f0 == old(meta).mem.frames(),
                n0 == old(self).statements@.len() as int,
                meta.wf(),
                meta.stream() == s0,
                i0 <= meta.cursor(),
                self.is_scope == old(self).is_scope,
                meta.mem.frames().len() == f0.len() + 1,
                forall|k: int| 0 <= k < f0.len() ==> meta.mem.frames()[k] == f0[k],
                n0 <= self.statements@.len(),
                forall|k: int| 0 <= k < n0 ==> self.statements@[k] == old(self).statements@[k],
                ({
                    let rest = spec_parse_block(s0, meta.cursor() as int, meta.mem.frames());
                    let whole = spec_parse_block(s0, i0, f0.push(Seq::empty()));
                    let added = spec_renders_of(self.statements@.skip(n0));
                    &&& (rest matches BlockOutcome::Done { end, renders } ==> whole == (
                    BlockOutcome::Done { end, renders: added + renders }))
                    &&& (rest matches BlockOutcome::Failed { position, text, renders } ==> whole
                        == (BlockOutcome::Failed { position, text, renders: added + renders }))
                }),
            ensures
                s0 == old(meta).stream(),
                i0 == old(meta).cursor() as int,
                f0 == old(meta).mem.frames(),
                n0 == old(self).statements@.len() as int,
                meta.wf(),
                meta.stream() == s0,
                i0 <= meta.cursor(),
                self.is_scope == old(self).is_scope,
                meta.mem.frames().len() == f0.len() + 1,
                forall|k: int| 0 <= k < f0.len() ==> meta.mem.frames()[k] == f0[k],
                n0 <= self.statements@.len(),
                forall|k: int| 0 <= k < n0 ==> self.statements@[k] == old(self).statements@[k],
                !meta.has_current() || meta.cur_word() == "}"@,
                spec_parse_block(s0, meta.cursor() as int, meta.mem.frames()) == (
                BlockOutcome::Done { end: meta.cursor() as int, renders: Seq::empty() }),
                spec_parse_block(s0, i0, f0.push(Seq::empty())) == (BlockOutcome::Done {
                    end: meta.cursor() as int,
                    renders: spec_renders_of(self.statements@.skip(n0)),
                }),
            decreases meta.remaining(),
        {
            let w_opt = match meta.get_current_token() {
                Some(t) => Some(t.word.clone()),
                None => None,
            };
            let w = match w_opt {
                Some(w) => w,
                None => {
                    proof {
                        assert(spec_renders_of(self.statements@.skip(n0)) + Seq::<
                            Seq<char>,
                        >::empty() =~= spec_renders_of(self.statements@.skip(n0)));
                    }
                    break ;
                },
            };
            // Line separators are skipped.
            if w == "\n".to_owned() || w == ";".to_owned() {
                meta.increment_index();
                continue ;
            }
            // Comments are skipped.
            if word_is_comment(w.as_str()) {
                meta.increment_index();
                continue ;
            }
            // The terminator is left for the embedding construct.
            if w == "}".to_owned() {
                proof {
                    assert(spec_renders_of(self.statements@.skip(n0)) + Seq::<
                        Seq<char>,
                    >::empty() =~= spec_renders_of(self.statements@.skip(n0)));
                }
                break ;
            }
            let ghost cur = meta.cursor() as int;
            let ghost fcur = meta.mem.frames();
            let ghost stmts_before = self.statements@;
            let mut statement = Statement::new();
            match statement.parse(meta) {
                Ok(()) => {
                    let ghost parsed = statement;
                    self.statements.push(statement);
                    proof {
                        let render = parsed.spec_translate();
                        let added_old = spec_renders_of(stmts_before.skip(n0));
                        let added_new = spec_renders_of(self.statements@.skip(n0));
                        assert(self.statements@ == stmts_before.push(parsed));
                        assert forall|k: int|
                            0 <= k < self.statements@.skip(n0).len() implies self.statements@.skip(
                            n0,
                        )[k] == stmts_before.skip(n0).push(parsed)[k] by {
                            assert(self.statements@.skip(n0)[k] == self.statements@[n0 + k]);
                            if n0 + k < stmts_before.len() {
                                assert(stmts_before.skip(n0).push(parsed)[k] == stmts_before[n0
                                    + k]);
                            }
                        }
                        assert(self.statements@.skip(n0) =~= stmts_before.skip(n0).push(parsed));
                        assert(added_new =~= added_old.push(render));
                        let rest2 = spec_parse_block(
                            s0,
                            meta.cursor() as int,
                            meta.mem.frames(),
                        );
                        assert(meta.mem.frames() == spec_frames_after_stmt(s0, cur, fcur));
                        match rest2 {
                            BlockOutcome::Done { end, renders } => {
                                assert(added_old + (seq![render] + renders) =~= added_new
                                    + renders);
                            },
                            BlockOutcome::Failed { position, text, renders } => {
                                assert(added_old + (seq![render] + renders) =~= added_new
                                    + renders);
                            },
                        }
                    }
                },
                Err(Failure::Quiet(p)) => {
                    proof {
                        let added = spec_renders_of(self.statements@.skip(n0));
                        assert(added + Seq::<Seq<char>>::empty() =~= added);
                    }
                    meta.mem.pop_scope();
                    proof {
                        assert(meta.mem.frames() =~= f0);
                    }
                    return Err(Failure::Loud(Message::new(p, "Unexpected token".to_owned())));
                },
                Err(Failure::Loud(m)) => {
                    proof {
                        let added = spec_renders_of(self.statements@.skip(n0));
                        assert(added + Seq::<Seq<char>>::empty() =~= added);
                    }
                    meta.mem.pop_scope();
                    proof {
                        assert(meta.mem.frames() =~= f0);
                    }
                    return Err(Failure::Loud(m));
                },
            }
        }
        meta.mem.pop_scope();
        proof {
            assert(meta.mem.frames() =~= f0);
        }
        Ok(())
    }

    /// Renders the block.  When the block owns a scope the indent level is
    /// increased before rendering and decreased after, regardless of
    /// emptiness; each statement is fully rendered before being joined.
    pub fn translate(&self, meta: &mut TranslateMetadata) -> (r: String)
        requires
            old(meta).indent < usize::MAX,
        ensures
            final(meta).indent == old(meta).indent,
            r@ == spec_translate_block(
                self.statements@,
                self.is_scope,
                old(meta).indent as nat,
            ),
            self.statements@.len() == 0 ==> r@ == ":"@,
    {
        if self.is_scope {
            meta.increase_indent();
        }
        let result = if self.statements.len() == 0 {
            ":".to_owned()
        } else {
            let ind = meta.gen_indent();
            let mut out = String::new();
            let mut i: usize = 0;
            proof {
                assert(self.statements@.take(0) =~= Seq::<Statement>::empty());
            }
            while i < self.statements.len()
                invariant
                    i <= self.statements@.len(),
                    meta.indent == spec_block_indent(self.is_scope, old(meta).indent as nat),
                    ind@ == spec_indent(
                        spec_block_indent(self.is_scope, old(meta).indent as nat),
                    ),
                    out@ == spec_join_statements(self.statements@.take(i as int), ind@),
                decreases self.statements@.len() - i,
            {
                if i > 0 {
                    out.append(";\n");
                }
                out.append(ind.as_str());
                let st = self.statements[i].translate(meta);
                out.append(st.as_str());
                proof {
                    assert(self.statements@.take(i as int + 1).drop_last() =~= self.statements@.take(
                        i as int,
                    ));
                    assert(self.statements@.take(i as int + 1).last() == self.statements@[i as int]);
                    assert(out@ =~= spec_join_statements(
                        self.statements@.take(i as int + 1),
                        ind@,
                    ));
                }
                i = i + 1;
            }
            proof {
                assert(self.statements@.take(self.statements@.len() as int) =~= self.statements@);
            }
            out
        };
        if self.is_scope {
            meta.decrease_indent();
        }
        result
    }
}

} // verus!
