use vstd::prelude::*;

use std::collections::HashMap;

use crate::id::{
    first_index, intern_all, lemma_first_index, lemma_first_index_extends, lemma_intern_all_extends,
    lemma_intern_all_push, IdRaw, Interner, Name,
};

verus! {

/// Display strings by namespaced name, as written in a locale file.
#[derive(Debug, Clone, PartialEq)]
pub struct TranslateRaw {
    pub items: Vec<(IdRaw, String)>,
    pub tiles: Vec<(IdRaw, String)>,
    pub gui: Vec<(IdRaw, String)>,
}

/// Display strings by resolved identifier.
#[derive(Debug)]
pub struct Translate {
    pub items: HashMap<usize, String>,
    pub tiles: HashMap<usize, String>,
    pub gui: HashMap<usize, String>,
}

/// The names of the entries of a list of display strings.
pub open spec fn entry_names(s: Seq<(IdRaw, String)>) -> Seq<Name> {
    s.map_values(|e: (IdRaw, String)| e.0@)
}

/// The display strings of `s` keyed by identifier on table `t`; a later
/// entry replaces an earlier one with the same identifier.
pub open spec fn entries_map(t: Seq<Name>, s: Seq<(IdRaw, String)>) -> Map<usize, String>
    decreases s.len(),
{
    if s.len() == 0 {
        Map::empty()
    } else {
        entries_map(t, s.drop_last()).insert(first_index(t, s.last().0@) as usize, s.last().1)
    }
}

/// Every entry name of `s` is placed in `t`.
pub open spec fn entries_placed(t: Seq<Name>, s: Seq<(IdRaw, String)>) -> bool {
    forall|j: int| 0 <= j < s.len() ==> first_index(t, #[trigger] s[j].0@) >= 0
}

/// Keying by a table gives the same map on every later state of it.
pub proof fn lemma_entries_map_extends(t: Seq<Name>, u: Seq<Name>, s: Seq<(IdRaw, String)>)
    requires
        t.is_prefix_of(u),
        entries_placed(t, s),
    ensures
        entries_map(u, s) == entries_map(t, s),
        entries_placed(u, s),
    decreases s.len(),
{
    assert forall|j: int| 0 <= j < s.len() implies first_index(u, #[trigger] s[j].0@) >= 0 by {
        lemma_first_index_extends(t, u, s[j].0@);
    }
    if s.len() > 0 {
        let d = s.drop_last();
        assert forall|j: int| 0 <= j < d.len() implies first_index(t, #[trigger] d[j].0@) >= 0 by {
            assert(d[j] == s[j]);
        }
        lemma_entries_map_extends(t, u, d);
        lemma_first_index_extends(t, u, s.last().0@);
    }
}

/// Resolves the names of `entries` in order and keys their strings by the
/// identifiers.
pub fn resolve_entries(entries: &Vec<(IdRaw, String)>, interner: &mut Interner) -> (m: HashMap<
    usize,
    String,
>)
    ensures
        final(interner)@ == intern_all(old(interner)@, entry_names(entries@)),
        entries_placed(final(interner)@, entries@),
        m@ == entries_map(final(interner)@, entries@),
{
    let mut m: HashMap<usize, String> = HashMap::new();
    let mut i: usize = 0;
    proof {
        assert(entry_names(entries@).take(0) =~= Seq::<Name>::empty());
        assert(entries@.take(0) =~= Seq::<(IdRaw, String)>::empty());
        assert(m@ =~= Map::<usize, String>::empty());
    }
    while i < entries.len()
        invariant
            0 <= i <= entries.len(),
            interner@ == intern_all(old(interner)@, entry_names(entries@).take(i as int)),
            entries_placed(interner@, entries@.take(i as int)),
            m@ == entries_map(interner@, entries@.take(i as int)),
        decreases entries.len() - i,
    {
        let ghost before = interner@;
        let id = entries[i].0.to_id(interner);
        let text = entries[i].1.clone();
        proof {
            let s = entries@.take(i as int);
            let s1 = entries@.take(i + 1);
            let p = entries@[i as int].0@;
            lemma_intern_all_push(old(interner)@, entry_names(entries@).take(i as int), p);
            assert(entry_names(entries@).take(i as int).push(p) =~= entry_names(entries@).take(
                i + 1,
            ));
            lemma_intern_all_extends(before, seq![p]);
            assert(before.is_prefix_of(interner@));
            lemma_entries_map_extends(before, interner@, s);
            lemma_first_index(interner@, id, p);
            assert(s1.drop_last() =~= s);
            assert forall|j: int| 0 <= j < s1.len() implies first_index(
                interner@,
                #[trigger] s1[j].0@,
            ) >= 0 by {
                if j < i {
                    assert(s1[j] == s[j]);
                }
            }
        }
        m.insert(id.0, text);
        i += 1;
    }
    proof {
        assert(entries@.take(i as int) =~= entries@);
        assert(entry_names(entries@).take(i as int) =~= entry_names(entries@));
    }
    m
}

impl Translate {
    /// No display strings.
    pub fn new() -> (r: Translate)
        ensures
            r.items@ == Map::<usize, String>::empty(),
            r.tiles@ == Map::<usize, String>::empty(),
            r.gui@ == Map::<usize, String>::empty(),
    {
        Translate { items: HashMap::new(), tiles: HashMap::new(), gui: HashMap::new() }
    }
}

} // verus!
