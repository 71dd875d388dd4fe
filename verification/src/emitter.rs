use vstd::prelude::*;

verus! {

/// The indent string for `n` nesting levels: four spaces per level.
pub open spec fn spec_indent(n: nat) -> Seq<char>
    decreases n,
{
    if n == 0 {
        Seq::empty()
    } else {
        spec_indent((n - 1) as nat) + "    "@
    }
}

/// Threads the indentation counter through every node's translate step.  It
/// lives for the whole translate phase; one instance per top-level
/// translation.  The counter moves in strict push/pop discipline: one
/// increase on scope entry, one matching decrease on scope exit.
#[derive(Debug)]
pub struct TranslateMetadata {
    pub indent: usize,
}

impl TranslateMetadata {
    pub fn new() -> (r: TranslateMetadata)
        ensures
            r.indent == 0,
    {
        TranslateMetadata { indent: 0 }
    }

    pub fn increase_indent(&mut self)
        requires
            old(self).indent < usize::MAX,
        ensures
            final(self).indent == old(self).indent + 1,
    {
        self.indent = self.indent + 1;
    }

    pub fn decrease_indent(&mut self)
        requires
            old(self).indent > 0,
        ensures
            final(self).indent == old(self).indent - 1,
    {
        self.indent = self.indent - 1;
    }

    /// Renders the indent string for the current level.
    pub fn gen_indent(&self) -> (r: String)
        ensures
            r@ == spec_indent(self.indent as nat),
    {
        let mut r = String::new();
        let mut k: usize = 0;
        while k < self.indent
            invariant
                k <= self.indent,
                r@ == spec_indent(k as nat),
            decreases self.indent - k,
        {
            r.append("    ");
            k = k + 1;
        }
        r
    }
}

} // verus!
