use vstd::prelude::*;

use vstd::string::StringExecFns;

verus! {

/// A value being written, with the depth it is written at.
pub struct FmtGuard<'a, T> {
    inner: &'a T,
    depth: usize,
}

/// The indent of one level: four spaces.
pub open spec fn indent_unit() -> Seq<char> {
    seq![' ', ' ', ' ', ' ']
}

/// The indent at a depth: one unit per level.
pub open spec fn indent_of(depth: nat) -> Seq<char>
    decreases depth,
{
    if depth == 0 {
        Seq::empty()
    } else {
        indent_of((depth - 1) as nat) + indent_unit()
    }
}

impl<'a, T> FmtGuard<'a, T> {
    /// The value written.
    pub closed spec fn value(&self) -> &'a T {
        self.inner
    }

    /// The depth the value is written at.
    pub closed spec fn level(&self) -> nat {
        self.depth as nat
    }

    /// The value, written at the top level.
    pub fn new(inner: &'a T) -> (r: Self)
        ensures
            r.value() == inner,
            r.level() == 0,
    {
        Self { inner, depth: 0 }
    }

    /// The indent of the value's lines.
    pub fn indent(&self) -> (r: String)
        ensures
            r@ == indent_of(self.level()),
    {
        proof {
            reveal_strlit("    ");
            assert("    "@ =~= indent_unit());
        }
        let mut r = String::new();
        let mut i: usize = 0;
        proof {
            assert(r@ =~= indent_of(0));
        }
        while i < self.depth
            invariant
                i <= self.depth,
                r@ == indent_of(i as nat),
            decreases self.depth - i,
        {
            r.append("    ");
            i = i + 1;
            proof {
                reveal_strlit("    ");
                assert(r@ =~= indent_of(i as nat));
            }
        }
        r
    }

    /// A part of the value, written one level deeper.
    pub fn child<C>(&self, child: &'a C) -> (r: FmtGuard<'a, C>)
        requires
            self.level() < usize::MAX,
        ensures
            r.value() == child,
            r.level() == self.level() + 1,
    {
        FmtGuard { inner: child, depth: self.depth + 1 }
    }

    /// The value written.
    pub fn inner(&self) -> (r: &'a T)
        ensures
            r == self.value(),
    {
        self.inner
    }
}

/// A part written one level deeper is indented by one more unit than the
/// value it is part of.
pub proof fn lemma_child_indent<'a, T, C>(parent: FmtGuard<'a, T>, child: FmtGuard<'a, C>)
    requires
        child.level() == parent.level() + 1,
    ensures
        indent_of(child.level()) == indent_of(parent.level()) + indent_unit(),
{
}

/// The indent at depth `k`, reached from the top level by `k` parts, is
/// `4 * k` spaces.
pub proof fn lemma_indent_spaces(k: nat)
    ensures
        indent_of(k) == Seq::new(4 * k, |i: int| ' '),
    decreases k,
{
    if k > 0 {
        lemma_indent_spaces((k - 1) as nat);
        assert(indent_of(k) =~= Seq::new(4 * k, |i: int| ' '));
    } else {
        assert(indent_of(0) =~= Seq::new(0, |i: int| ' '));
    }
}

} // verus!
