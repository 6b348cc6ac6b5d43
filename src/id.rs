use vstd::prelude::*;

verus! {

/// A namespaced name as a pair of character sequences `(namespace, name)`.
pub type Name = (Seq<char>, Seq<char>);

/// A resolved identifier: a dense handle given out by an `Interner`.
#[derive(Debug, Clone, Copy, PartialEq, Eq, Structural, Hash, PartialOrd, Ord)]
pub struct Id(pub usize);

/// A namespaced identifier as written in data files.
#[derive(Debug, Clone, PartialEq, Eq, Hash)]
pub struct IdRaw {
    pub namespace: String,
    pub name: String,
}

impl View for IdRaw {
    type V = Name;

    open spec fn view(&self) -> Name {
        (self.namespace@, self.name@)
    }
}

/// `id` is the first place of `p` in the table `t`.
pub open spec fn resolves(t: Seq<Name>, id: Id, p: Name) -> bool {
    &&& 0 <= id.0 < t.len()
    &&& t[id.0 as int] == p
    &&& forall|j: int| 0 <= j < id.0 ==> t[j] != p
}

/// The table after interning `p`: unchanged when `p` is present, else `p`
/// appended.
pub open spec fn intern_step(t: Seq<Name>, p: Name) -> Seq<Name> {
    if t.contains(p) {
        t
    } else {
        t.push(p)
    }
}

/// The table after interning each name of `s` in order.
pub open spec fn intern_all(t: Seq<Name>, s: Seq<Name>) -> Seq<Name>
    decreases s.len(),
{
    if s.len() == 0 {
        t
    } else {
        intern_step(intern_all(t, s.drop_last()), s.last())
    }
}

/// The first place of `p` in `t`, or `-1` when it is absent.
pub open spec fn first_index(t: Seq<Name>, p: Name) -> int
    decreases t.len(),
{
    if t.len() == 0 {
        -1
    } else if first_index(t.drop_last(), p) >= 0 {
        first_index(t.drop_last(), p)
    } else if t.last() == p {
        t.len() - 1
    } else {
        -1
    }
}

/// The names of a sequence of raw identifiers.
pub open spec fn names_of(v: Seq<IdRaw>) -> Seq<Name> {
    v.map_values(|r: IdRaw| r@)
}

/// Each of `ids` is the identifier of the raw identifier at its place.
pub open spec fn all_resolve(t: Seq<Name>, ids: Seq<Id>, raws: Seq<IdRaw>) -> bool {
    &&& ids.len() == raws.len()
    &&& forall|k: int| 0 <= k < ids.len() ==> resolves(t, #[trigger] ids[k], raws[k]@)
}

/// Builds a raw identifier from its two parts.
pub fn id_static(namespace: &str, name: &str) -> (r: IdRaw)
    ensures
        r@ == (namespace@, name@),
{
    IdRaw { namespace: namespace.to_owned(), name: name.to_owned() }
}

impl IdRaw {
    /// Builds a raw identifier from its two parts.
    pub fn new(namespace: &str, name: &str) -> (r: IdRaw)
        ensures
            r@ == (namespace@, name@),
    {
        id_static(namespace, name)
    }

    /// Resolves this identifier through `interner`, interning it if it is new.
    pub fn to_id(&self, interner: &mut Interner) -> (id: Id)
        ensures
            resolves(final(interner)@, id, self@),
            final(interner)@ == intern_step(old(interner)@, self@),
    {
        interner.intern(self.namespace.as_str(), self.name.as_str())
    }
}

/// The table of namespaced names, indexed by resolved identifier.
pub struct Interner {
    names: Vec<IdRaw>,
}

impl View for Interner {
    type V = Seq<Name>;

    closed spec fn view(&self) -> Seq<Name> {
        self.names@.map_values(|n: IdRaw| n@)
    }
}

impl Interner {
    /// An empty table.
    pub fn new() -> (r: Interner)
        ensures
            r@ == Seq::<Name>::empty(),
    {
        let r = Interner { names: Vec::new() };
        assert(r@ =~= Seq::<Name>::empty());
        r
    }

    /// Number of names interned so far.
    pub fn len(&self) -> (n: usize)
        ensures
            n == self@.len(),
    {
        self.names.len()
    }

    /// Returns the identifier of `(namespace, name)`, adding the pair to the
    /// table when it is not there yet.
    pub fn intern(&mut self, namespace: &str, name: &str) -> (id: Id)
        ensures
            resolves(final(self)@, id, (namespace@, name@)),
            final(self)@ == intern_step(old(self)@, (namespace@, name@)),
    {
        let key = id_static(namespace, name);
        let ghost p = key@;
        let n = self.names.len();
        let mut i: usize = 0;
        let mut found = false;
        while i < n && !found
            invariant
                0 <= i <= n,
                n == self.names.len(),
                key@ == p,
                self@ == old(self)@,
                found ==> i < n && self@[i as int] == p,
                forall|j: int| 0 <= j < i ==> self@[j] != p,
            decreases n - i + (if found { 0int } else { 1int }),
        {
            let e = &self.names[i];
            assert(self@[i as int] == self.names@[i as int]@);
            if e.namespace == key.namespace && e.name == key.name {
                found = true;
            } else {
                i += 1;
            }
        }
        if found {
            assert(old(self)@.contains(p));
            Id(i)
        } else {
            assert(!old(self)@.contains(p));
            self.names.push(key);
            assert(self@ =~= old(self)@.push(p));
            Id(n)
        }
    }

    /// The namespaced name of `id`.
    pub fn resolve(&self, id: Id) -> (r: &IdRaw)
        requires
            id.0 < self@.len(),
        ensures
            r@ == self@[id.0 as int],
    {
        &self.names[id.0]
    }
}

/// Resolves each raw identifier of `raws` in order.
pub fn to_ids(raws: &Vec<IdRaw>, interner: &mut Interner) -> (ids: Vec<Id>)
    ensures
        final(interner)@ == intern_all(old(interner)@, names_of(raws@)),
        all_resolve(final(interner)@, ids@, raws@),
{
    let mut ids: Vec<Id> = Vec::new();
    let mut i: usize = 0;
    proof {
        assert(names_of(raws@).take(0) =~= Seq::<Name>::empty());
    }
    while i < raws.len()
        invariant
            0 <= i <= raws.len(),
            interner@ == intern_all(old(interner)@, names_of(raws@).take(i as int)),
            all_resolve(interner@, ids@, raws@.take(i as int)),
        decreases raws.len() - i,
    {
        let ghost before = interner@;
        let id = raws[i].to_id(interner);
        proof {
            let s = names_of(raws@).take(i as int);
            lemma_intern_all_push(old(interner)@, s, raws@[i as int]@);
            assert(s.push(raws@[i as int]@) =~= names_of(raws@).take(i + 1));
            assert(before.is_prefix_of(interner@));
            assert forall|k: int| 0 <= k < ids@.len() implies resolves(
                interner@,
                #[trigger] ids@[k],
                raws@.take(i + 1)[k]@,
            ) by {
                assert(raws@.take(i as int)[k] == raws@.take(i + 1)[k]);
                lemma_resolve_round_trip(before, interner@, ids@[k], raws@[k]@);
            }
        }
        ids.push(id);
        i += 1;
    }
    proof {
        assert(raws@.take(i as int) =~= raws@);
        assert(names_of(raws@).take(i as int) =~= names_of(raws@));
    }
    ids
}

/// A name absent from a table has no first place in it.
pub proof fn lemma_first_index_absent(t: Seq<Name>, p: Name)
    requires
        forall|j: int| 0 <= j < t.len() ==> t[j] != p,
    ensures
        first_index(t, p) == -1,
    decreases t.len(),
{
    if t.len() > 0 {
        lemma_first_index_absent(t.drop_last(), p);
    }
}

/// The identifier of a name is its first place in the table.
pub proof fn lemma_first_index(t: Seq<Name>, id: Id, p: Name)
    requires
        resolves(t, id, p),
    ensures
        first_index(t, p) == id.0,
    decreases t.len(),
{
    if id.0 == t.len() - 1 {
        lemma_first_index_absent(t.drop_last(), p);
    } else {
        lemma_first_index(t.drop_last(), id, p);
    }
}

/// A name placed in a table keeps its first place as the table grows.
pub proof fn lemma_first_index_extends(t: Seq<Name>, u: Seq<Name>, p: Name)
    requires
        t.is_prefix_of(u),
        first_index(t, p) >= 0,
    ensures
        first_index(u, p) == first_index(t, p),
    decreases u.len(),
{
    if u.len() > t.len() {
        assert(t.is_prefix_of(u.drop_last()));
        lemma_first_index_extends(t, u.drop_last(), p);
    } else {
        assert(t =~= u);
    }
}

/// Interning only appends to a table.
pub proof fn lemma_intern_all_extends(t: Seq<Name>, s: Seq<Name>)
    ensures
        t.is_prefix_of(intern_all(t, s)),
    decreases s.len(),
{
    if s.len() > 0 {
        lemma_intern_all_extends(t, s.drop_last());
    }
}

/// Interning `a` and then `b` is interning `a + b`.
pub proof fn lemma_intern_all_concat(t: Seq<Name>, a: Seq<Name>, b: Seq<Name>)
    ensures
        intern_all(t, a + b) == intern_all(intern_all(t, a), b),
    decreases b.len(),
{
    if b.len() == 0 {
        assert(a + b =~= a);
    } else {
        lemma_intern_all_concat(t, a, b.drop_last());
        assert((a + b).drop_last() =~= a + b.drop_last());
        assert((a + b).last() == b.last());
    }
}

/// Identifiers resolved on a table stay resolved on every later state of it.
pub proof fn lemma_all_resolve_extends(t: Seq<Name>, u: Seq<Name>, ids: Seq<Id>, raws: Seq<IdRaw>)
    requires
        all_resolve(t, ids, raws),
        t.is_prefix_of(u),
    ensures
        all_resolve(u, ids, raws),
{
    assert forall|k: int| 0 <= k < ids.len() implies resolves(u, #[trigger] ids[k], raws[k]@) by {
        lemma_resolve_round_trip(t, u, ids[k], raws[k]@);
    }
}

/// Interning one more name extends the fold by one step.
pub proof fn lemma_intern_all_push(t: Seq<Name>, s: Seq<Name>, p: Name)
    ensures
        intern_all(t, s.push(p)) == intern_step(intern_all(t, s), p),
{
    assert(s.push(p).drop_last() =~= s);
}

/// Interning a name twice leaves the table as interning it once does, and
/// one interning adds at most one entry.
pub proof fn lemma_intern_twice(t: Seq<Name>, p: Name)
    ensures
        intern_step(intern_step(t, p), p) == intern_step(t, p),
        intern_step(t, p).len() <= t.len() + 1,
{
    if !t.contains(p) {
        assert(t.push(p)[t.len() as int] == p);
    }
}

/// One name keeps one identifier on a table as the table grows, and
/// distinct names have distinct identifiers.
pub proof fn lemma_intern_identity(t: Seq<Name>, u: Seq<Name>, a: Id, b: Id, p1: Name, p2: Name)
    requires
        resolves(t, a, p1),
        t.is_prefix_of(u),
        resolves(u, b, p2),
    ensures
        (a == b) <==> (p1 == p2),
{
    if p1 == p2 {
        if a.0 < b.0 {
            assert(u[a.0 as int] == t[a.0 as int]);
        } else if b.0 < a.0 {
            assert(u[b.0 as int] == t[b.0 as int]);
        }
    }
}

/// Resolving an identifier gives back the name it was interned from, on the
/// table that gave it out and on every later state of that table.
pub proof fn lemma_resolve_round_trip(t: Seq<Name>, u: Seq<Name>, id: Id, p: Name)
    requires
        resolves(t, id, p),
        t.is_prefix_of(u),
    ensures
        id.0 < u.len(),
        u[id.0 as int] == p,
        resolves(u, id, p),
{
    assert(u[id.0 as int] == t[id.0 as int]);
    assert forall|j: int| 0 <= j < id.0 implies u[j] != p by {
        assert(u[j] == t[j]);
    }
}

} // verus!
