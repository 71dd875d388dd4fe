use vstd::prelude::*;

use crate::diagnostics::Failure;
use crate::memory::ScopeMemory;

verus! {

/// One token of the source text: its word and the source position it starts
/// at.  Tokenizing itself is a collaborator concern; the parser consumes a
/// ready-made token list.
#[derive(Debug)]
pub struct Token {
    pub word: String,
    pub position: usize,
}

/// Character classes of the language's variable names.
pub open spec fn is_digit(c: char) -> bool {
    48 <= c as u32 && c as u32 <= 57
}

pub open spec fn is_alpha(c: char) -> bool {
    (65 <= c as u32 && c as u32 <= 90) || (97 <= c as u32 && c as u32 <= 122)
}

pub open spec fn is_name_start(c: char) -> bool {
    is_alpha(c) || c as u32 == 95
}

pub open spec fn is_name_char(c: char) -> bool {
    is_name_start(c) || is_digit(c)
}

/// A word that is a valid variable name: a letter or underscore followed by
/// letters, digits and underscores.
pub open spec fn is_name(w: Seq<char>) -> bool {
    &&& w.len() > 0
    &&& is_name_start(w[0])
    &&& forall|k: int| 0 <= k < w.len() ==> is_name_char(w[k])
}

/// A word that is a numeric literal: one or more digits.
pub open spec fn is_number(w: Seq<char>) -> bool {
    &&& w.len() > 0
    &&& forall|k: int| 0 <= k < w.len() ==> is_digit(w[k])
}

fn digit_char(c: char) -> (r: bool)
    ensures
        r == is_digit(c),
{
    let u = c as u32;
    48 <= u && u <= 57
}

fn name_start_char(c: char) -> (r: bool)
    ensures
        r == is_name_start(c),
{
    let u = c as u32;
    (65 <= u && u <= 90) || (97 <= u && u <= 122) || u == 95
}

fn name_char(c: char) -> (r: bool)
    ensures
        r == is_name_char(c),
{
    name_start_char(c) || digit_char(c)
}

/// Decides whether a word is a valid variable name.
pub fn word_is_name(w: &str) -> (r: bool)
    ensures
        r == is_name(w@),
{
    let len = w.unicode_len();
    if len == 0 {
        return false;
    }
    if !name_start_char(w.get_char(0)) {
        return false;
    }
    let mut k: usize = 0;
    while k < len
        invariant
            len == w@.len(),
            k <= len,
            is_name_start(w@[0]),
            forall|t: int| 0 <= t < k ==> is_name_char(w@[t]),
        decreases len - k,
    {
        if !name_char(w.get_char(k)) {
            return false;
        }
        k = k + 1;
    }
    true
}

/// Decides whether a word is a numeric literal.
pub fn word_is_number(w: &str) -> (r: bool)
    ensures
        r == is_number(w@),
{
    let len = w.unicode_len();
    if len == 0 {
        return false;
    }
    let mut k: usize = 0;
    while k < len
        invariant
            len == w@.len(),
            k <= len,
            forall|t: int| 0 <= t < k ==> is_digit(w@[t]),
        decreases len - k,
    {
        if !digit_char(w.get_char(k)) {
            return false;
        }
        k = k + 1;
    }
    true
}

/// The source position a failure at token index `i` of a stream is anchored
/// to: that token's position, or the last token's when the stream is
/// exhausted.
pub open spec fn spec_pos_at(toks: Seq<Token>, i: int) -> usize {
    if 0 <= i < toks.len() {
        toks[i].position
    } else if toks.len() > 0 {
        toks.last().position
    } else {
        0
    }
}

/// Threads the token cursor and the scope memory through every node's parse
/// step.  It lives for the whole parse phase and owns the scope memory
/// exclusively for that time.
#[derive(Debug)]
pub struct ParserMetadata {
    pub tokens: Vec<Token>,
    pub index: usize,
    pub mem: ScopeMemory,
}

impl ParserMetadata {
    /// The token stream being parsed (never altered by parsing).
    pub open spec fn stream(self) -> Seq<Token> {
        self.tokens@
    }

    /// The words of the token stream.
    pub open spec fn words(self) -> Seq<Seq<char>> {
        self.stream().map(|i: int, t: Token| t.word@)
    }

    /// The cursor: how many tokens have been consumed.
    pub open spec fn cursor(self) -> usize {
        self.index
    }

    /// Whether a token remains at the cursor.
    pub open spec fn has_current(self) -> bool {
        self.cursor() < self.stream().len()
    }

    /// A well-formed context never points its cursor past the end of the
    /// stream; every constructor and cursor move preserves this.
    pub open spec fn wf(self) -> bool {
        self.cursor() <= self.stream().len()
    }

    /// How many tokens remain at the cursor; parse steps strictly consume.
    pub open spec fn remaining(self) -> nat {
        if self.cursor() <= self.stream().len() {
            (self.stream().len() - self.cursor()) as nat
        } else {
            0
        }
    }

    /// The word at the cursor (meaningful only when `has_current`).
    pub open spec fn cur_word(self) -> Seq<char> {
        self.stream()[self.cursor() as int].word@
    }

    /// The source position a failure at the cursor is anchored to.
    pub open spec fn spec_error_position(self) -> usize {
        spec_pos_at(self.stream(), self.cursor() as int)
    }

    pub fn new(tokens: Vec<Token>) -> (r: ParserMetadata)
        ensures
            r.stream() == tokens@,
            r.cursor() == 0,
            r.mem.frames() == Seq::<Seq<(Seq<char>, crate::types::Type)>>::empty(),
    {
        ParserMetadata { tokens, index: 0, mem: ScopeMemory::new() }
    }

    pub fn get_current_token(&self) -> (r: Option<&Token>)
        ensures
            match r {
                Some(t) => self.has_current() && *t == self.stream()[self.cursor() as int],
                None => !self.has_current(),
            },
    {
        if self.index < self.tokens.len() {
            Some(&self.tokens[self.index])
        } else {
            None
        }
    }

    /// Advances the cursor past the current token (no effect at the end of
    /// the stream).
    pub fn increment_index(&mut self)
        ensures
            final(self).stream() == old(self).stream(),
            final(self).mem == old(self).mem,
            final(self).cursor() == if old(self).has_current() {
                old(self).cursor() + 1
            } else {
                old(self).cursor() as int
            },
    {
        if self.index < self.tokens.len() {
            self.index = self.index + 1;
        }
    }

    pub fn get_index(&self) -> (r: usize)
        ensures
            r == self.cursor(),
    {
        self.index
    }

    /// Moves the cursor back (or forward) to `i`, capped at the end of the
    /// stream.  Used to leave the cursor untouched on a quiet failure.
    pub fn set_index(&mut self, i: usize)
        ensures
            final(self).stream() == old(self).stream(),
            final(self).mem == old(self).mem,
            final(self).cursor() == if i <= old(self).stream().len() {
                i as int
            } else {
                old(self).stream().len() as int
            },
    {
        if i <= self.tokens.len() {
            self.index = i;
        } else {
            self.index = self.tokens.len();
        }
    }

    pub fn error_position(&self) -> (r: usize)
        ensures
            r == self.spec_error_position(),
    {
        if self.index < self.tokens.len() {
            self.tokens[self.index].position
        } else if self.tokens.len() > 0 {
            self.tokens[self.tokens.len() - 1].position
        } else {
            0
        }
    }
}

/// Matches one literal token word.  Consumes it on success; a mismatch is a
/// quiet failure that leaves the cursor untouched.
pub fn token(meta: &mut ParserMetadata, word: &String) -> (r: Result<(), Failure>)
    ensures
        final(meta).stream() == old(meta).stream(),
        final(meta).mem == old(meta).mem,
        r is Ok <==> old(meta).has_current() && old(meta).cur_word() == word@,
        r is Ok ==> final(meta).cursor() == old(meta).cursor() + 1,
        r is Err ==> final(meta).cursor() == old(meta).cursor() && r == Err::<(), Failure>(
            Failure::Quiet(old(meta).spec_error_position()),
        ),
{
    let matched = match meta.get_current_token() {
        Some(t) => t.word == *word,
        None => false,
    };
    if matched {
        meta.increment_index();
        Ok(())
    } else {
        Err(Failure::Quiet(meta.error_position()))
    }
}

/// Matches one identifier token under the language's variable-name character
/// set.  Returns the name on success; any other word is a quiet failure that
/// leaves the cursor untouched.
pub fn variable(meta: &mut ParserMetadata) -> (r: Result<String, Failure>)
    ensures
        final(meta).stream() == old(meta).stream(),
        final(meta).mem == old(meta).mem,
        r is Ok <==> old(meta).has_current() && is_name(old(meta).cur_word()),
        r matches Ok(w) ==> w@ == old(meta).cur_word() && final(meta).cursor() == old(
            meta,
        ).cursor() + 1,
        r is Err ==> final(meta).cursor() == old(meta).cursor() && r == Err::<String, Failure>(
            Failure::Quiet(old(meta).spec_error_position()),
        ),
{
    let name = match meta.get_current_token() {
        Some(t) => {
            if word_is_name(t.word.as_str()) {
                Some(t.word.clone())
            } else {
                None
            }
        },
        None => None,
    };
    match name {
        Some(w) => {
            meta.increment_index();
            Ok(w)
        },
        None => Err(Failure::Quiet(meta.error_position())),
    }
}

} // verus!
