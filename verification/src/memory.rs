use vstd::prelude::*;

use crate::types::Type;

verus! {

/// One variable binding inside a lexical scope frame.
#[derive(Debug)]
pub struct VarDecl {
    pub name: String,
    pub kind: Type,
}

/// Looks a name up inside one scope frame, newest binding first.
pub open spec fn lookup_frame(frame: Seq<(Seq<char>, Type)>, name: Seq<char>) -> Option<Type>
    decreases frame.len(),
{
    if frame.len() == 0 {
        None
    } else if frame.last().0 == name {
        Some(frame.last().1)
    } else {
        lookup_frame(frame.drop_last(), name)
    }
}

/// Resolves a name against a stack of scope frames, innermost (last) first.
pub open spec fn resolve_in(frames: Seq<Seq<(Seq<char>, Type)>>, name: Seq<char>) -> Option<
    Type,
>
    decreases frames.len(),
{
    if frames.len() == 0 {
        None
    } else if lookup_frame(frames.last(), name) is Some {
        lookup_frame(frames.last(), name)
    } else {
        resolve_in(frames.drop_last(), name)
    }
}

/// The stack of lexical scopes: one frame of name-to-type bindings per open
/// block.  Frames are pushed on block entry and popped on block exit, in
/// balanced pairs.
#[derive(Debug)]
pub struct ScopeMemory {
    scopes: Vec<Vec<VarDecl>>,
}

impl ScopeMemory {
    /// The abstract value: a stack of frames, each a sequence of
    /// (name, type) bindings in declaration order.
    pub closed spec fn frames(self) -> Seq<Seq<(Seq<char>, Type)>> {
        self.scopes@.map(
            |i: int, f: Vec<VarDecl>| f@.map(|j: int, d: VarDecl| (d.name@, d.kind)),
        )
    }

    /// How many scopes are currently open.
    pub open spec fn depth(self) -> nat {
        self.frames().len()
    }

    /// Resolves `name` against the active scopes, innermost first.
    pub open spec fn resolve(self, name: Seq<char>) -> Option<Type> {
        resolve_in(self.frames(), name)
    }

    pub fn new() -> (r: ScopeMemory)
        ensures
            r.frames() == Seq::<Seq<(Seq<char>, Type)>>::empty(),
    {
        let r = ScopeMemory { scopes: Vec::new() };
        proof {
            assert(r.frames() =~= Seq::<Seq<(Seq<char>, Type)>>::empty());
        }
        r
    }

    /// Opens a new, empty innermost scope.
    pub fn push_scope(&mut self)
        ensures
            final(self).frames() =~= old(self).frames().push(Seq::empty()),
    {
        self.scopes.push(Vec::new());
        proof {
            assert(final(self).frames() =~~= old(self).frames().push(Seq::empty()));
        }
    }

    /// Closes the innermost scope, discarding its bindings.
    pub fn pop_scope(&mut self)
        requires
            old(self).depth() > 0,
        ensures
            final(self).frames() =~= old(self).frames().drop_last(),
    {
        let _ = self.scopes.pop();
        proof {
            assert(final(self).frames() =~~= old(self).frames().drop_last());
        }
    }

    /// Records a declaration in the innermost scope.
    pub fn add_variable(&mut self, name: String, kind: Type)
        requires
            old(self).depth() > 0,
        ensures
            final(self).frames() =~= old(self).frames().drop_last().push(
                old(self).frames().last().push((name@, kind)),
            ),
    {
        let mut frame = self.scopes.pop().unwrap();
        frame.push(VarDecl { name, kind });
        self.scopes.push(frame);
        proof {
            assert(final(self).frames() =~~= old(self).frames().drop_last().push(
                old(self).frames().last().push((name@, kind)),
            ));
        }
    }

    /// Resolves `name` against the active scopes, searching the innermost
    /// scope first and, within a scope, the newest binding first.
    pub fn get_variable(&self, name: &String) -> (r: Option<Type>)
        ensures
            r == self.resolve(name@),
    {
        let ghost fs = self.frames();
        let mut i = self.scopes.len();
        proof {
            assert(fs.take(i as int) =~= fs);
        }
        while i > 0
            invariant
                i <= self.scopes.len(),
                fs == self.frames(),
                resolve_in(fs, name@) == resolve_in(fs.take(i as int), name@),
            decreases i,
        {
            i = i - 1;
            let frame = &self.scopes[i];
            proof {
                assert(frame@.map(|j: int, d: VarDecl| (d.name@, d.kind)) == fs[i as int]);
            }
            let mut j = frame.len();
            proof {
                assert(fs[i as int].take(j as int) =~= fs[i as int]);
            }
            while j > 0
                invariant
                    j <= frame.len(),
                    frame@.map(|j2: int, d: VarDecl| (d.name@, d.kind)) == fs[i as int],
                    i < fs.len(),
                    fs == self.frames(),
                    resolve_in(fs, name@) == resolve_in(fs.take(i as int + 1), name@),
                    lookup_frame(fs[i as int], name@) == lookup_frame(
                        fs[i as int].take(j as int),
                        name@,
                    ),
                decreases j,
            {
                j = j - 1;
                proof {
                    assert(fs[i as int].take(j + 1).last() == fs[i as int][j as int]);
                    assert(fs[i as int].take(j + 1).drop_last() =~= fs[i as int].take(j as int));
                    assert(fs[i as int][j as int] == (frame@[j as int].name@, frame@[j as int].kind));
                }
                if frame[j].name == *name {
                    proof {
                        assert(lookup_frame(fs[i as int], name@) == Some(frame@[j as int].kind));
                        assert(fs.take(i + 1).last() == fs[i as int]);
                        assert(resolve_in(fs.take(i + 1), name@) == Some(frame@[j as int].kind));
                        assert(resolve_in(fs, name@) == resolve_in(fs.take(i + 1), name@));
                    }
                    return Some(frame[j].kind);
                }
            }
            proof {
                assert(fs[i as int].take(0) =~= Seq::<(Seq<char>, Type)>::empty());
                assert(lookup_frame(fs[i as int], name@) is None);
                assert(fs.take(i + 1).last() == fs[i as int]);
                assert(fs.take(i + 1).drop_last() =~= fs.take(i as int));
            }
        }
        proof {
            assert(fs.take(0) =~= Seq::<Seq<(Seq<char>, Type)>>::empty());
        }
        None
    }
}

} // verus!
