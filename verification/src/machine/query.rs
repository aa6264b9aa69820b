use vstd::prelude::*;
use vstd::string::*;

verus! {

/// A query that names one or more machines: `[[provider:]domain:]device[:id]`.
#[derive(Clone, Debug, PartialEq, Eq, PartialOrd, Ord)]
pub struct Query {
    pub provider: Option<String>,
    pub domain: Option<String>,
    pub device: Option<String>,
    pub id: Option<String>,
}

/// The mathematical model of a [`Query`]: each field as an optional
/// sequence of characters.
pub struct QueryModel {
    pub provider: Option<Seq<char>>,
    pub domain: Option<Seq<char>>,
    pub device: Option<Seq<char>>,
    pub id: Option<Seq<char>>,
}

/// The errors that parsing or resolving a query can give.
#[derive(Clone, Debug)]
pub enum QueryError {
    UnexpectedTokens { query: String },
    EmptyMachines,
}

pub open spec fn opt_view(o: Option<String>) -> Option<Seq<char>> {
    match o {
        Some(s) => Some(s@),
        None => None,
    }
}

impl View for Query {
    type V = QueryModel;

    open spec fn view(&self) -> QueryModel {
        QueryModel {
            provider: opt_view(self.provider),
            domain: opt_view(self.domain),
            device: opt_view(self.device),
            id: opt_view(self.id),
        }
    }
}

/// The pieces of `s` between the colons, in order; a string without a colon
/// is a single piece, and the empty string is one empty piece.
pub open spec fn split_colon(s: Seq<char>) -> Seq<Seq<char>>
    decreases s.len(),
{
    if s.len() == 0 {
        seq![Seq::<char>::empty()]
    } else {
        let init = split_colon(s.drop_last());
        if s.last() == ':' {
            init.push(Seq::<char>::empty())
        } else {
            init.update(init.len() - 1, init.last().push(s.last()))
        }
    }
}

/// An empty piece stands for a missing field.
pub open spec fn token(t: Seq<char>) -> Option<Seq<char>> {
    if t.len() == 0 {
        None
    } else {
        Some(t)
    }
}

/// What a query with the given pieces names: one piece is a device, two are
/// a device and an id, three a domain, a device and an id, four a provider,
/// a domain, a device and an id.
pub open spec fn query_of_tokens(ts: Seq<Seq<char>>) -> QueryModel
    recommends
        1 <= ts.len() <= 4,
{
    if ts.len() == 1 {
        QueryModel { provider: None, domain: None, device: token(ts[0]), id: None }
    } else if ts.len() == 2 {
        QueryModel { provider: None, domain: None, device: token(ts[0]), id: token(ts[1]) }
    } else if ts.len() == 3 {
        QueryModel {
            provider: None,
            domain: token(ts[0]),
            device: token(ts[1]),
            id: token(ts[2]),
        }
    } else {
        QueryModel {
            provider: token(ts[0]),
            domain: token(ts[1]),
            device: token(ts[2]),
            id: token(ts[3]),
        }
    }
}

/// A query text is accepted when it has at most four pieces.
pub open spec fn parse_accepts(s: Seq<char>) -> bool {
    split_colon(s).len() <= 4
}

pub open spec fn parse_model(s: Seq<char>) -> QueryModel {
    query_of_tokens(split_colon(s))
}

/// A field pattern matches a field when the pattern is missing or equal.
pub open spec fn field_matches(pattern: Option<Seq<char>>, target: Option<Seq<char>>) -> bool {
    pattern is None || pattern == target
}

/// `pattern` names every machine that `target` names, field by field.
pub open spec fn matches_weakly(pattern: QueryModel, target: QueryModel) -> bool {
    &&& field_matches(pattern.provider, target.provider)
    &&& field_matches(pattern.domain, target.domain)
    &&& field_matches(pattern.device, target.device)
    &&& field_matches(pattern.id, target.id)
}

/// `pattern` names the device and the id of `target`.
pub open spec fn matches_device(pattern: QueryModel, target: QueryModel) -> bool {
    &&& field_matches(pattern.device, target.device)
    &&& field_matches(pattern.id, target.id)
}

/// The given pieces joined by colons.
pub open spec fn join_colon(parts: Seq<Seq<char>>) -> Seq<char>
    decreases parts.len(),
{
    if parts.len() == 0 {
        Seq::empty()
    } else if parts.len() == 1 {
        parts[0]
    } else {
        join_colon(parts.drop_last()) + seq![':'] + parts.last()
    }
}

pub open spec fn present(o: Option<Seq<char>>) -> Seq<Seq<char>> {
    match o {
        Some(s) => seq![s],
        None => Seq::empty(),
    }
}

pub open spec fn or_empty(o: Option<Seq<char>>) -> Seq<char> {
    match o {
        Some(s) => s,
        None => Seq::empty(),
    }
}

/// The text of a query: the provider, the domain and the device that are
/// present, joined by colons; then, if any of them was written, a colon and
/// the id; otherwise the id alone.
pub open spec fn query_text(q: QueryModel) -> Seq<char> {
    let parts = present(q.provider) + present(q.domain) + present(q.device);
    if parts.len() == 0 {
        or_empty(q.id)
    } else {
        join_colon(parts) + seq![':'] + or_empty(q.id)
    }
}

/// The text of a query restricted to the local machine: the device, then a
/// colon and the id if there is one.
pub open spec fn local_text(q: QueryModel) -> Seq<char> {
    or_empty(q.device) + match q.id {
        Some(id) => seq![':'] + id,
        None => Seq::empty(),
    }
}

proof fn lemma_split_colon_nonempty(s: Seq<char>)
    ensures
        split_colon(s).len() >= 1,
    decreases s.len(),
{
    if s.len() > 0 {
        lemma_split_colon_nonempty(s.drop_last());
    }
}

/// Cloning a string keeps its view.
fn clone_string(s: &String) -> (r: String)
    ensures
        r@ == s@,
{
    s.clone()
}

/// A query is canonical when every field it has is a non-empty piece
/// without a colon, and its fields nest: a provider only with a domain, a
/// domain only with a device, an id only with a device.
pub open spec fn canonical(q: QueryModel) -> bool {
    &&& piece_ok(q.provider)
    &&& piece_ok(q.domain)
    &&& piece_ok(q.device)
    &&& piece_ok(q.id)
    &&& q.provider is Some ==> q.domain is Some
    &&& q.domain is Some ==> q.device is Some
    &&& q.id is Some ==> q.device is Some
}

pub open spec fn piece_ok(o: Option<Seq<char>>) -> bool {
    match o {
        Some(s) => s.len() > 0 && !s.contains(':'),
        None => true,
    }
}

proof fn lemma_split_no_colon(s: Seq<char>)
    requires
        !s.contains(':'),
    ensures
        split_colon(s) == seq![s],
    decreases s.len(),
{
    if s.len() > 0 {
        let init = s.drop_last();
        assert(!init.contains(':')) by {
            if init.contains(':') {
                let k = choose|k: int| 0 <= k < init.len() && init[k] == ':';
                assert(s[k] == ':');
            }
        }
        lemma_split_no_colon(init);
        assert(s.last() != ':') by {
            assert(s[s.len() - 1] == s.last());
        }
        assert(init.push(s.last()) =~= s);
        assert(split_colon(s) =~= seq![s]);
    } else {
        assert(s =~= Seq::<char>::empty());
    }
}

proof fn lemma_split_concat(a: Seq<char>, b: Seq<char>)
    ensures
        split_colon(a + seq![':'] + b) == split_colon(a) + split_colon(b),
    decreases b.len(),
{
    lemma_split_colon_nonempty(a);
    lemma_split_colon_nonempty(b);
    let ab = a + seq![':'] + b;
    if b.len() == 0 {
        assert(ab.drop_last() =~= a);
        assert(b =~= Seq::<char>::empty());
        assert(split_colon(ab) =~= split_colon(a) + split_colon(b));
    } else {
        let b0 = b.drop_last();
        lemma_split_concat(a, b0);
        lemma_split_colon_nonempty(b0);
        assert(ab.drop_last() =~= a + seq![':'] + b0);
        assert(ab.last() == b.last());
        assert(split_colon(ab) =~= split_colon(a) + split_colon(b));
    }
}

proof fn lemma_split_join(parts: Seq<Seq<char>>)
    requires
        parts.len() >= 1,
        forall|i: int| 0 <= i < parts.len() ==> !(#[trigger] parts[i]).contains(':'),
    ensures
        split_colon(join_colon(parts)) == parts,
    decreases parts.len(),
{
    if parts.len() == 1 {
        lemma_split_no_colon(parts[0]);
        assert(parts =~= seq![parts[0]]);
    } else {
        let init = parts.drop_last();
        assert forall|i: int| 0 <= i < init.len() implies !(#[trigger] init[i]).contains(':') by {
            assert(init[i] == parts[i]);
        }
        lemma_split_join(init);
        lemma_split_concat(join_colon(init), parts.last());
        lemma_split_no_colon(parts.last());
        assert(parts =~= init.push(parts.last()));
    }
}

/// The text of a canonical query parses back to the same query.
pub proof fn lemma_text_roundtrip(q: QueryModel)
    requires
        canonical(q),
    ensures
        parse_accepts(query_text(q)),
        parse_model(query_text(q)) == q,
{
    let parts = present(q.provider) + present(q.domain) + present(q.device);
    let id = or_empty(q.id);
    assert(!id.contains(':'));
    if parts.len() == 0 {
        assert(q.id is None);
        assert(id =~= Seq::<char>::empty());
        assert(split_colon(id) =~= seq![Seq::<char>::empty()]);
    } else {
        assert forall|i: int| 0 <= i < parts.len() implies !(#[trigger] parts[i]).contains(':') by {
            if q.provider is Some && q.domain is Some && q.device is Some {
                assert(parts =~= seq![q.provider.unwrap(), q.domain.unwrap(), q.device.unwrap()]);
            } else if q.domain is Some && q.device is Some {
                assert(parts =~= seq![q.domain.unwrap(), q.device.unwrap()]);
            } else {
                assert(parts =~= seq![q.device.unwrap()]);
            }
        }
        lemma_split_join(parts);
        lemma_split_concat(join_colon(parts), id);
        lemma_split_no_colon(id);
        let ts = split_colon(query_text(q));
        assert(ts =~= parts + seq![id]);
        if q.provider is Some {
            assert(parts =~= seq![q.provider.unwrap(), q.domain.unwrap(), q.device.unwrap()]);
        } else if q.domain is Some {
            assert(parts =~= seq![q.domain.unwrap(), q.device.unwrap()]);
        } else {
            assert(parts =~= seq![q.device.unwrap()]);
        }
        assert(token(id) == q.id);
    }
}

/// Every query matches itself, field by field.
pub proof fn lemma_matches_weakly_reflexive(q: QueryModel)
    ensures
        matches_weakly(q, q),
        matches_device(q, q),
{
}

/// Weak matching is transitive.
pub proof fn lemma_matches_weakly_transitive(a: QueryModel, b: QueryModel, c: QueryModel)
    requires
        matches_weakly(a, b),
        matches_weakly(b, c),
    ensures
        matches_weakly(a, c),
{
}

/// A query that matches weakly also matches the device.
pub proof fn lemma_matches_weakly_device(a: QueryModel, b: QueryModel)
    requires
        matches_weakly(a, b),
    ensures
        matches_device(a, b),
{
}

/// A pattern matches a target exactly when each field that the pattern
/// names (provider, domain, device, id) is the target's field; the fields
/// that the pattern leaves out match anything.
pub proof fn lemma_matches_weakly_fields(p: QueryModel, t: QueryModel)
    ensures
        matches_weakly(p, t) <==> ((p.provider is Some ==> t.provider == p.provider) && (p.domain is Some
            ==> t.domain == p.domain) && (p.device is Some ==> t.device == p.device) && (p.id is Some
            ==> t.id == p.id)),
        matches_device(p, t) <==> ((p.device is Some ==> t.device == p.device) && (p.id is Some
            ==> t.id == p.id)),
{
}

/// A pattern with no field matches every target.
pub proof fn lemma_empty_pattern_matches(t: QueryModel)
    ensures
        matches_weakly(QueryModel { provider: None, domain: None, device: None, id: None }, t),
{
}

pub fn clone_opt(o: &Option<String>) -> (r: Option<String>)
    ensures
        opt_view(r) == opt_view(*o),
{
    match o {
        Some(s) => Some(clone_string(s)),
        None => None,
    }
}

fn opt_eq(a: &Option<String>, b: &Option<String>) -> (r: bool)
    ensures
        r == (opt_view(*a) == opt_view(*b)),
{
    match (a, b) {
        (Some(x), Some(y)) => x.eq(y),
        (None, None) => true,
        _ => false,
    }
}

/// Tests one field of a pattern against a target, then the rest.
fn eq_field(a: &Option<String>, b: &Option<String>, additional: bool) -> (r: bool)
    ensures
        r == (field_matches(opt_view(*a), opt_view(*b)) && additional),
{
    if a.is_none() || opt_eq(a, b) {
        additional
    } else {
        false
    }
}

/// Writes one field of a query after those already written.
fn append_part(
    out: &mut String,
    write_colon: &mut bool,
    field: &Option<String>,
    Ghost(parts): Ghost<Seq<Seq<char>>>,
)
    requires
        old(out)@ == join_colon(parts),
        *old(write_colon) == (parts.len() > 0),
    ensures
        final(out)@ == join_colon(parts + present(opt_view(*field))),
        *final(write_colon) == ((parts + present(opt_view(*field))).len() > 0),
{
    match field {
        Some(f) => {
            let ghost next = parts.push(f@);
            proof {
                assert(parts + present(opt_view(*field)) =~= next);
                assert(next.drop_last() =~= parts);
            }
            if *write_colon {
                out.append(":");
                proof {
                    reveal_strlit(":");
                }
            }
            out.append(f.as_str());
            *write_colon = true;
            proof {
                if parts.len() == 0 {
                    assert(out@ =~= f@);
                } else {
                    assert(out@ =~= join_colon(parts) + seq![':'] + f@);
                }
            }
        },
        None => {
            proof {
                assert(parts + present(opt_view(*field)) =~= parts);
            }
        },
    }
}

/// A query restricted to the local machine: its device and id.
pub struct LocalQuery<'a>(pub &'a Query);

impl<'a> LocalQuery<'a> {
    /// The device, then a colon and the id if there is one.
    pub fn to_string(&self) -> (r: String)
        ensures
            r@ == local_text(self.0@),
    {
        let mut out = String::new();
        match &self.0.device {
            Some(device) => out.append(device.as_str()),
            None => {},
        }
        match &self.0.id {
            Some(id) => {
                out.append(":");
                proof {
                    reveal_strlit(":");
                }
                out.append(id.as_str());
            },
            None => {},
        }
        proof {
            assert(out@ =~= local_text(self.0@));
        }
        out
    }
}

impl Default for Query {
    fn default() -> (r: Self)
        ensures
            r.provider is None,
            r.domain is None,
            r.device is None,
            r.id is None,
    {
        Query { provider: None, domain: None, device: None, id: None }
    }
}

impl Query {
    /// Splits the text at its colons into the owned pieces.
    fn split(query: &str) -> (tokens: Vec<String>)
        ensures
            tokens@.len() == split_colon(query@).len(),
            forall|i: int| 0 <= i < tokens@.len() ==> #[trigger] tokens@[i]@ == split_colon(query@)[i],
    {
        let n = query.unicode_len();
        let mut tokens: Vec<String> = Vec::new();
        let mut start: usize = 0;
        let mut i: usize = 0;
        proof {
            assert(query@.take(0) =~= Seq::<char>::empty());
            assert(query@.subrange(0, 0) =~= Seq::<char>::empty());
        }
        while i < n
            invariant
                n == query@.len(),
                start <= i <= n,
                split_colon(query@.take(i as int)) =~= Seq::new(
                    tokens@.len() as nat,
                    |k: int| tokens@[k]@,
                ).push(query@.subrange(start as int, i as int)),
            decreases n - i,
        {
            let c = query.get_char(i);
            proof {
                assert(query@.take(i + 1).drop_last() =~= query@.take(i as int));
                assert(query@.take(i + 1).last() == c);
            }
            if c == ':' {
                let piece = String::from_str(query.substring_char(start, i));
                tokens.push(piece);
                start = i + 1;
                proof {
                    assert(query@.subrange(start as int, i + 1) =~= Seq::<char>::empty());
                }
            } else {
                proof {
                    assert(query@.subrange(start as int, i + 1) =~= query@.subrange(
                        start as int,
                        i as int,
                    ).push(c));
                }
            }
            i = i + 1;
        }
        let last = String::from_str(query.substring_char(start, n));
        tokens.push(last);
        proof {
            assert(query@.take(n as int) =~= query@);
        }
        tokens
    }

    /// Parses a machine query.
    ///
    /// A query has at most four pieces separated by colons; an empty piece
    /// stands for a missing field. More than four pieces are refused.
    pub fn parse(query: &str) -> (r: Result<Self, QueryError>)
        ensures
            r is Ok <==> parse_accepts(query@),
            r matches Ok(q) ==> q@ == parse_model(query@),
            r matches Err(e) ==> e matches QueryError::UnexpectedTokens { query: text } && text@
                == query@,
    {
        let mut tokens = Self::split(query);
        proof {
            lemma_split_colon_nonempty(query@);
        }
        if tokens.len() > 4 {
            return Err(QueryError::UnexpectedTokens { query: String::from_str(query) });
        }
        let ghost ts = split_colon(query@);
        // the pieces, in order; a missing piece is `None`, an empty one `Some(None)`
        let mut provider: Option<Option<String>> = None;
        let mut domain: Option<Option<String>> = None;
        let mut device: Option<Option<String>> = None;
        let mut id: Option<Option<String>> = None;
        let n = tokens.len();
        if n == 4 {
            id = Some(Self::non_empty(tokens.pop().unwrap()));
        }
        if n >= 3 {
            device = Some(Self::non_empty(tokens.remove(2)));
        }
        if n >= 2 {
            domain = Some(Self::non_empty(tokens.remove(1)));
        }
        provider = Some(Self::non_empty(tokens.remove(0)));

        if domain.is_none() {
            domain = provider.take();
        }
        if device.is_none() {
            device = domain.take();
            domain = provider.take();
        }
        if id.is_none() && domain.is_some() {
            id = device.take();
            device = domain.take();
            domain = provider.take();
        }

        Ok(Query {
            provider: Self::flatten(provider),
            domain: Self::flatten(domain),
            device: Self::flatten(device),
            id: Self::flatten(id),
        })
    }

    /// Whether this query, as a pattern, names every machine that `target`
    /// names: each field of this query is missing or equal to the target's.
    pub fn eq_weakly(&self, target: &Self) -> (r: bool)
        ensures
            r == matches_weakly(self@, target@),
    {
        let test_provider = eq_field(&self.provider, &target.provider, true);
        let test_domain = eq_field(&self.domain, &target.domain, test_provider);
        let test_device = eq_field(&self.device, &target.device, test_domain);
        eq_field(&self.id, &target.id, test_device)
    }

    /// Whether this query names the device and the id of `target`.
    pub fn eq_device(&self, target: &Self) -> (r: bool)
        ensures
            r == matches_device(self@, target@),
    {
        let test_device = eq_field(&self.device, &target.device, true);
        eq_field(&self.id, &target.id, test_device)
    }

    /// The text of this query, which `parse` reads back (see
    /// `lemma_text_roundtrip`).
    pub fn to_string(&self) -> (r: String)
        ensures
            r@ == query_text(self@),
    {
        let mut out = String::new();
        let mut write_colon = false;
        proof {
            assert(out@ == join_colon(Seq::empty()));
        }
        append_part(&mut out, &mut write_colon, &self.provider, Ghost(Seq::empty()));
        let ghost p1 = Seq::<Seq<char>>::empty() + present(opt_view(self.provider));
        append_part(&mut out, &mut write_colon, &self.domain, Ghost(p1));
        let ghost p2 = p1 + present(opt_view(self.domain));
        append_part(&mut out, &mut write_colon, &self.device, Ghost(p2));
        let ghost p3 = p2 + present(opt_view(self.device));
        proof {
            assert(p3 =~= present(self@.provider) + present(self@.domain) + present(
                self@.device,
            ));
        }
        if write_colon {
            out.append(":");
            proof {
                reveal_strlit(":");
            }
        }
        match &self.id {
            Some(id) => out.append(id.as_str()),
            None => {},
        }
        proof {
            assert(out@ =~= query_text(self@));
        }
        out
    }

    fn non_empty(s: String) -> (r: Option<String>)
        ensures
            opt_view(r) == token(s@),
    {
        if s.unicode_len() == 0 {
            None
        } else {
            Some(s)
        }
    }

    fn flatten(o: Option<Option<String>>) -> (r: Option<String>)
        ensures
            r == match o {
                Some(Some(s)) => Some(s),
                _ => None,
            },
    {
        match o {
            Some(x) => x,
            None => None,
        }
    }
}

} // verus!
