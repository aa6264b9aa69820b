use vstd::prelude::*;

use vstd::string::StringExecFns;

verus! {

/// Where a node that a file uses comes from.
#[derive(Debug)]
pub enum UseBy {
    Local,
    Repo { author: String },
    Web { source: String },
}

/// The text of where a used node comes from: nothing for a local node,
/// ` by author` for a repository, ` by "source"` for the web.
pub open spec fn use_by_text(by: UseBy) -> Seq<char> {
    match by {
        UseBy::Local => Seq::empty(),
        UseBy::Repo { author } => seq![' ', 'b', 'y', ' '] + author@,
        UseBy::Web { source } => seq![' ', 'b', 'y', ' ', '"'] + source@ + seq!['"'],
    }
}

impl UseBy {
    /// The text of where a used node comes from.
    pub fn to_text(&self) -> (r: String)
        ensures
            r@ == use_by_text(*self),
    {
        proof {
            reveal_strlit(" by ");
            reveal_strlit(" by \"");
            reveal_strlit("\"");
        }
        match self {
            Self::Local => {
                let r = String::new();
                proof {
                    assert(r@ =~= use_by_text(*self));
                }
                r
            },
            Self::Repo { author } => {
                let mut r = String::from_str(" by ");
                r.append(author.as_str());
                proof {
                    assert(r@ =~= use_by_text(*self));
                }
                r
            },
            Self::Web { source } => {
                let mut r = String::from_str(" by \"");
                r.append(source.as_str());
                r.append("\"");
                proof {
                    assert(r@ =~= use_by_text(*self));
                }
                r
            },
        }
    }
}

/// A node that a file uses.
#[derive(Debug)]
pub struct Use {
    pub name: String,
    pub by: UseBy,
}

/// The line that declares a used node: `use name` and where it comes from.
pub open spec fn use_text(u: Use) -> Seq<char> {
    seq!['u', 's', 'e', ' '] + u.name@ + use_by_text(u.by) + seq!['\n']
}

impl Use {
    /// The line that declares this used node.
    pub fn to_text(&self) -> (r: String)
        ensures
            r@ == use_text(*self),
    {
        proof {
            reveal_strlit("use ");
            reveal_strlit("\n");
        }
        let mut r = String::from_str("use ");
        r.append(self.name.as_str());
        r.append(self.by.to_text().as_str());
        r.append("\n");
        proof {
            assert(r@ =~= use_text(*self));
        }
        r
    }
}

} // verus!
