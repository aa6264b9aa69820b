use vstd::prelude::*;

use vstd::string::{StrSliceExecFns, StringExecFns};

verus! {

broadcast use vstd::std_specs::vec::group_vec_axioms;

/// What `Path::file_name` gives for a path: its last component, where it
/// has one.
pub uninterp spec fn file_name_of(path: Seq<char>) -> Option<Seq<char>>;

/// What `inflector`'s `to_pascal_case` gives for a text.
pub uninterp spec fn pascal_case_of(s: Seq<char>) -> Seq<char>;

/// Whether a text may stand before a file name in a path: it is empty or
/// ends with `/`, holds no `\\` or `:`, and does not begin with two `/`
/// (so that it starts no drive or network prefix).
pub open spec fn is_dir_prefix(d: Seq<char>) -> bool {
    &&& (d.len() == 0 || d.last() == '/')
    &&& !d.contains('\\')
    &&& !d.contains(':')
    &&& !(d.len() >= 2 && d[0] == '/' && d[1] == '/')
}

/// Whether a text is a plain component of a path: not empty, without a
/// separator or `:`, and neither `.` nor `..`.
pub open spec fn is_plain_name(n: Seq<char>) -> bool {
    &&& n.len() > 0
    &&& !n.contains('/')
    &&& !n.contains('\\')
    &&& !n.contains(':')
    &&& n != seq!['.']
    &&& n != seq!['.', '.']
}

/// The plain name that a path ends with after a directory prefix, where it
/// has one.
pub open spec fn plain_file_name(path: Seq<char>) -> Option<Seq<char>> {
    if exists|d: Seq<char>, n: Seq<char>|
        #![trigger is_dir_prefix(d), is_plain_name(n)]
        path == d + n && is_dir_prefix(d) && is_plain_name(n) {
        Some(
            choose|n: Seq<char>|
                #![trigger is_plain_name(n)]
                exists|d: Seq<char>|
                    #![trigger is_dir_prefix(d)]
                    path == d + n && is_dir_prefix(d) && is_plain_name(n),
        )
    } else {
        None
    }
}

/// A path splits in one way at most into a directory prefix and a plain
/// name.
pub proof fn lemma_plain_file_name(path: Seq<char>, d: Seq<char>, n: Seq<char>)
    requires
        path == d + n,
        is_dir_prefix(d),
        is_plain_name(n),
    ensures
        plain_file_name(path) == Some(n),
{
    assert(is_dir_prefix(d) && is_plain_name(n));
    assert(exists|d2: Seq<char>, n2: Seq<char>|
        #![trigger is_dir_prefix(d2), is_plain_name(n2)]
        path == d2 + n2 && is_dir_prefix(d2) && is_plain_name(n2));
    let m = plain_file_name(path)->0;
    assert(exists|e: Seq<char>| #![trigger is_dir_prefix(e)] path == e + m && is_dir_prefix(e) && is_plain_name(m));
    let e = choose|e: Seq<char>| #![trigger is_dir_prefix(e)] path == e + m && is_dir_prefix(e) && is_plain_name(m);
    if m.len() < n.len() {
        // the last character of `e` is a `/` inside `n`
        let k = e.len() - 1;
        assert(e.len() > 0);
        assert(path[k] == '/');
        assert(path[k] == n[k - d.len()]);
        assert(n.contains('/'));
    } else if m.len() > n.len() {
        let k = d.len() - 1;
        assert(e.len() + m.len() == path.len());
        assert(d.len() + n.len() == path.len());
        assert(d.len() > 0);
        assert(e.len() <= k);
        assert(path[k] == '/');
        assert(path[k] == m[k - e.len()]);
        assert(m.contains('/'));
    } else {
        assert(m =~= path.subrange(path.len() - m.len(), path.len() as int));
        assert(n =~= path.subrange(path.len() - n.len(), path.len() as int));
    }
    assert(m == n);
}

/// `std::path::Path::file_name`, read back as text: the final component of
/// the path, `None` where the path ends in `..` or is a root. The contract
/// names the result, and states what the documentation of `Path` gives for
/// a plain name after a directory prefix: that name is the final
/// component. Nothing more is stated of other paths.
#[verifier::external_body]
fn file_name(path: &str) -> (r: Option<String>)
    ensures
        match r {
            Some(s) => file_name_of(path@) == Some(s@) && (plain_file_name(path@) matches Some(n)
                ==> s@ == n),
            None => file_name_of(path@) is None && plain_file_name(path@) is None,
        },
{
    std::path::Path::new(path).file_name().map(|x| x.to_string_lossy().into_owned())
}

/// `inflector::cases::pascalcase::to_pascal_case`: the words of the text,
/// split at separators and at case changes, each capitalized and joined.
/// The contract names the result and states nothing more of it.
#[verifier::external_body]
fn to_pascal_case(s: &str) -> (r: String)
    ensures
        r@ == pascal_case_of(s@),
{
    inflector::cases::pascalcase::to_pascal_case(s)
}

/// The text before the first `.`, or the whole text where there is none.
pub open spec fn before_dot(s: Seq<char>) -> Seq<char>
    decreases s.len(),
{
    if s.len() == 0 {
        s
    } else if s[0] == '.' {
        Seq::empty()
    } else {
        seq![s[0]] + before_dot(s.drop_first())
    }
}

/// The text with each `_` replaced by `-`.
pub open spec fn dashes_for_underscores(s: Seq<char>) -> Seq<char> {
    s.map_values(|c: char| if c == '_' { '-' } else { c })
}

/// The text without its `-`.
pub open spec fn without_dashes(s: Seq<char>) -> Seq<char> {
    s.filter(|c: char| c != '-')
}

/// The stem of a file name, before its first `.`, with `_` read as `-`.
pub fn dashed_stem(file_name: &str) -> (r: String)
    ensures
        r@ == dashes_for_underscores(before_dot(file_name@)),
{
    let n = file_name.unicode_len();
    let mut r = String::new();
    let mut i: usize = 0;
    proof {
        assert(file_name@.skip(0) =~= file_name@);
    }
    while i < n
        invariant
            n == file_name@.len(),
            i <= n,
            r@ + dashes_for_underscores(before_dot(file_name@.skip(i as int)))
                == dashes_for_underscores(before_dot(file_name@)),
        decreases n - i,
    {
        let c = file_name.get_char(i);
        let ghost rest = file_name@.skip(i as int);
        proof {
            assert(rest[0] == c);
            assert(rest.drop_first() =~= file_name@.skip(i + 1));
        }
        if c == '.' {
            proof {
                assert(before_dot(rest) =~= Seq::<char>::empty());
                assert(dashes_for_underscores(Seq::<char>::empty()) =~= Seq::<char>::empty());
                assert(r@ + Seq::<char>::empty() =~= r@);
            }
            return r;
        }
        let d = if c == '_' {
            '-'
        } else {
            c
        };
        let ghost old_r = r@;
        proof {
            reveal_strlit("-");
        }
        if c == '_' {
            r.append("-");
        } else {
            r.append(file_name.substring_char(i, i + 1));
        }
        proof {
            let tail = before_dot(file_name@.skip(i + 1));
            assert(before_dot(rest) == seq![c] + tail);
            assert(dashes_for_underscores(seq![c] + tail) =~= seq![d] + dashes_for_underscores(tail));
            assert(file_name@.subrange(i as int, i + 1) =~= seq![c]);
            assert(r@ =~= old_r + seq![d]);
            assert(old_r + (seq![d] + dashes_for_underscores(tail)) =~= r@ + dashes_for_underscores(tail));
        }
        i = i + 1;
    }
    proof {
        assert(file_name@.skip(n as int) =~= Seq::<char>::empty());
        assert(dashes_for_underscores(Seq::<char>::empty()) =~= Seq::<char>::empty());
        assert(r@ + Seq::<char>::empty() =~= r@);
    }
    r
}

/// The text without its `-`.
pub fn strip_dashes(s: &str) -> (r: String)
    ensures
        r@ == without_dashes(s@),
{
    let n = s.unicode_len();
    let mut r = String::new();
    let mut i: usize = 0;
    while i < n
        invariant
            n == s@.len(),
            i <= n,
            r@ == without_dashes(s@.take(i as int)),
        decreases n - i,
    {
        let c = s.get_char(i);
        let ghost old_r = r@;
        proof {
            let t = s@.take(i + 1);
            assert(t.drop_last() =~= s@.take(i as int));
            assert(t.last() == c);
            assert(t.len() > 0);
            reveal(Seq::filter);
            assert(without_dashes(t) == (if c != '-' {
                without_dashes(s@.take(i as int)).push(c)
            } else {
                without_dashes(s@.take(i as int))
            }));
        }
        if c != '-' {
            r.append(s.substring_char(i, i + 1));
            proof {
                assert(s@.subrange(i as int, i + 1) =~= seq![c]);
                assert(r@ =~= old_r.push(c));
            }
        }
        i = i + 1;
    }
    proof {
        assert(s@.take(n as int) =~= s@);
    }
    r
}

/// The name of the node that a source file defines: the stem of the file
/// name, before its first `.`, in Pascal case, without dashes.
pub open spec fn node_name_of(file_name: Seq<char>) -> Seq<char> {
    without_dashes(pascal_case_of(dashes_for_underscores(before_dot(file_name))))
}

/// The name of a node whose source file has the stem `stem`: in Pascal
/// case, with `_` read as `-`, without dashes.
pub open spec fn stem_name(stem: Seq<char>) -> Seq<char> {
    without_dashes(pascal_case_of(dashes_for_underscores(stem)))
}

/// The name of the node that the source file at `path` defines. The name
/// depends on the stem of the file name alone (what comes before its first
/// `.`), so a node's source and its script share it, and it holds no `-`.
/// Where the path has no file name (a root, or a path that ends in `..`)
/// it defines no node, and `None` is returned.
pub fn trim_path(path: &str) -> (r: Option<String>)
    ensures
        match file_name_of(path@) {
            Some(f) => r matches Some(x) && x@ == node_name_of(f),
            None => r is None,
        },
        plain_file_name(path@) matches Some(n) ==> (r matches Some(x) && x@ == stem_name(
            before_dot(n),
        )),
        r matches Some(x) ==> !x@.contains('-'),
{
    let name = file_name(path)?;
    let stem = dashed_stem(name.as_str());
    let pascal = to_pascal_case(stem.as_str());
    let r = strip_dashes(pascal.as_str());
    proof {
        let p = pascal_case_of(dashes_for_underscores(before_dot(name@)));
        if r@.contains('-') {
            let i = choose|i: int| 0 <= i < r@.len() && r@[i] == '-';
            p.lemma_filter_pred(|c: char| c != '-', i);
        }
    }
    Some(r)
}


/// The text before the first `.` of a stem without `.`, a `.` and more is
/// the stem.
pub proof fn lemma_before_dot_of_stem(f: Seq<char>, rest: Seq<char>)
    requires
        !f.contains('.'),
    ensures
        before_dot(f + seq!['.'] + rest) == f,
    decreases f.len(),
{
    if f.len() == 0 {
        assert((f + seq!['.'] + rest)[0] == '.');
    } else {
        assert(!f.drop_first().contains('.')) by {
            if f.drop_first().contains('.') {
                let i = choose|i: int| 0 <= i < f.drop_first().len() && f.drop_first()[i] == '.';
                assert(f[i + 1] == '.');
            }
        }
        lemma_before_dot_of_stem(f.drop_first(), rest);
        assert((f + seq!['.'] + rest).drop_first() =~= f.drop_first() + seq!['.'] + rest);
        assert(f[0] != '.');
        assert(seq![f[0]] + f.drop_first() =~= f);
    }
}

/// Source files of one stem, in any directories and with any extensions,
/// define nodes of one name: a node's source and its script share it.
pub proof fn lemma_node_name_by_stem(d1: Seq<char>, d2: Seq<char>, f: Seq<char>, e1: Seq<char>, e2: Seq<char>)
    requires
        is_dir_prefix(d1),
        is_dir_prefix(d2),
        f.len() > 0,
        !f.contains('.'),
        is_plain_name(f + seq!['.'] + e1),
        is_plain_name(f + seq!['.'] + e2),
    ensures
        plain_file_name(d1 + (f + seq!['.'] + e1)) == Some(f + seq!['.'] + e1),
        plain_file_name(d2 + (f + seq!['.'] + e2)) == Some(f + seq!['.'] + e2),
        stem_name(before_dot(f + seq!['.'] + e1)) == stem_name(before_dot(f + seq!['.'] + e2)),
{
    lemma_plain_file_name(d1 + (f + seq!['.'] + e1), d1, f + seq!['.'] + e1);
    lemma_plain_file_name(d2 + (f + seq!['.'] + e2), d2, f + seq!['.'] + e2);
    lemma_before_dot_of_stem(f, e1);
    lemma_before_dot_of_stem(f, e2);
}

} // verus!
