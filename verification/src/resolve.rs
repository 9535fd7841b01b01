//! Symbol resolution: the index from uppercase ticker symbol to the ordered
//! identifiers listed for it.
//!
//! The index is a derived view, rebuilt from the bulk listing on every
//! resolution request; caching of the listing itself is the orchestrator's
//! business. One symbol may map to several identifiers (wrapped and
//! derivative variants), in the order the listing returns them.

use vstd::prelude::*;

use crate::errors::ResolveError;
use crate::text::{to_upper, upper_of};

verus! {

/// One asset of the bulk listing, as far as resolution reads it: its symbol
/// and identifier fields, either possibly absent.
pub struct ListingEntry {
    pub symbol: Option<String>,
    pub id: Option<String>,
}

/// The groups a symbol index denotes: key and identifier list of each, in
/// insertion order.
pub type IndexModel = Seq<(Seq<char>, Seq<Seq<char>>)>;

/// No two groups share a key.
pub open spec fn distinct_syms(gs: IndexModel) -> bool {
    forall|i: int, j: int| 0 <= i < j < gs.len() ==> (#[trigger] gs[i]).0 != (#[trigger] gs[j]).0
}

/// Appends `id` to the group keyed `sym`, or opens a new group at the end.
pub open spec fn spec_add(gs: IndexModel, sym: Seq<char>, id: Seq<char>) -> IndexModel
    decreases gs.len(),
{
    if gs.len() == 0 {
        seq![(sym, seq![id])]
    } else if gs[0].0 == sym {
        seq![(gs[0].0, gs[0].1.push(id))] + gs.drop_first()
    } else {
        seq![gs[0]] + spec_add(gs.drop_first(), sym, id)
    }
}

/// A listed asset enters the index only with both fields present and
/// non-empty; its symbol is uppercased, its identifier kept as listed.
pub open spec fn spec_step(gs: IndexModel, e: ListingEntry) -> IndexModel {
    match (e.symbol, e.id) {
        (Some(s), Some(id)) => if s@.len() > 0 && id@.len() > 0 {
            spec_add(gs, upper_of(s@), id@)
        } else {
            gs
        },
        _ => gs,
    }
}

/// The index the listing denotes, built front to back.
pub open spec fn spec_build(entries: Seq<ListingEntry>) -> IndexModel
    decreases entries.len(),
{
    if entries.len() == 0 {
        Seq::empty()
    } else {
        spec_step(spec_build(entries.drop_last()), entries.last())
    }
}

/// The identifier list keyed `sym`, if the index holds one.
pub open spec fn spec_lookup(gs: IndexModel, sym: Seq<char>) -> Option<Seq<Seq<char>>>
    decreases gs.len(),
{
    if gs.len() == 0 {
        None
    } else if gs[0].0 == sym {
        Some(gs[0].1)
    } else {
        spec_lookup(gs.drop_first(), sym)
    }
}

proof fn lemma_spec_add_found(gs: IndexModel, sym: Seq<char>, id: Seq<char>, i: int)
    requires
        0 <= i < gs.len(),
        gs[i].0 == sym,
        forall|k: int| 0 <= k < i ==> (#[trigger] gs[k]).0 != sym,
    ensures
        spec_add(gs, sym, id) == gs.update(i, (sym, gs[i].1.push(id))),
    decreases gs.len(),
{
    if i == 0 {
        assert(spec_add(gs, sym, id) =~= gs.update(0, (sym, gs[0].1.push(id))));
    } else {
        assert(gs[0].0 != sym);
        lemma_spec_add_found(gs.drop_first(), sym, id, i - 1);
        assert(spec_add(gs, sym, id) =~= gs.update(i, (sym, gs[i].1.push(id))));
    }
}

proof fn lemma_spec_add_absent(gs: IndexModel, sym: Seq<char>, id: Seq<char>)
    requires
        forall|k: int| 0 <= k < gs.len() ==> (#[trigger] gs[k]).0 != sym,
    ensures
        spec_add(gs, sym, id) == gs.push((sym, seq![id])),
    decreases gs.len(),
{
    if gs.len() > 0 {
        lemma_spec_add_absent(gs.drop_first(), sym, id);
        assert(spec_add(gs, sym, id) =~= gs.push((sym, seq![id])));
    } else {
        assert(spec_add(gs, sym, id) =~= gs.push((sym, seq![id])));
    }
}

proof fn lemma_spec_lookup_found(gs: IndexModel, sym: Seq<char>, i: int)
    requires
        0 <= i < gs.len(),
        gs[i].0 == sym,
        forall|k: int| 0 <= k < i ==> (#[trigger] gs[k]).0 != sym,
    ensures
        spec_lookup(gs, sym) == Some(gs[i].1),
    decreases gs.len(),
{
    if i > 0 {
        lemma_spec_lookup_found(gs.drop_first(), sym, i - 1);
    }
}

proof fn lemma_spec_lookup_absent(gs: IndexModel, sym: Seq<char>)
    requires
        forall|k: int| 0 <= k < gs.len() ==> (#[trigger] gs[k]).0 != sym,
    ensures
        spec_lookup(gs, sym) is None,
    decreases gs.len(),
{
    if gs.len() > 0 {
        lemma_spec_lookup_absent(gs.drop_first(), sym);
    }
}

/// The symbol index: uppercase symbol to ordered identifier list.
pub struct SymbolIndex {
    groups: Vec<(String, Vec<String>)>,
}

impl View for SymbolIndex {
    type V = IndexModel;

    closed spec fn view(&self) -> IndexModel {
        Seq::new(self.groups@.len(), |i: int| (self.groups@[i].0@, self.groups@[i].1.deep_view()))
    }
}

impl SymbolIndex {
    /// Keys are unique: at most one group per symbol.
    pub open spec fn wf(self) -> bool {
        distinct_syms(self@)
    }

    /// An empty index.
    pub fn new() -> (r: SymbolIndex)
        ensures
            r.wf(),
            r@ == Seq::<(Seq<char>, Seq<Seq<char>>)>::empty(),
    {
        let r = SymbolIndex { groups: Vec::new() };
        proof {
            assert(r@ =~= Seq::<(Seq<char>, Seq<Seq<char>>)>::empty());
        }
        r
    }

    /// How many symbols the index holds.
    pub fn len(&self) -> (r: usize)
        ensures
            r == self@.len(),
    {
        self.groups.len()
    }

    /// The group at position `i`: its symbol and a reference to its
    /// identifier list.
    pub fn group_at(&self, i: usize) -> (r: (&String, &Vec<String>))
        requires
            i < self@.len(),
        ensures
            r.0@ == self@[i as int].0,
            r.1.deep_view() == self@[i as int].1,
    {
        (&self.groups[i].0, &self.groups[i].1)
    }

    /// Appends `id` under the already-uppercased key `sym`.
    fn add(&mut self, sym: String, id: String)
        requires
            old(self).wf(),
        ensures
            final(self).wf(),
            final(self)@ == spec_add(old(self)@, sym@, id@),
    {
        let ghost gs0 = self@;
        let ghost idv = id@;
        let n = self.groups.len();
        let mut i: usize = 0;
        while i < n
            invariant
                self.wf(),
                self@ == gs0,
                gs0 == old(self)@,
                n == self.groups@.len(),
                i <= n,
                idv == id@,
                forall|k: int| 0 <= k < i ==> (#[trigger] gs0[k]).0 != sym@,
            decreases n - i,
        {
            if self.groups[i].0.eq(&sym) {
                proof {
                    assert(gs0[i as int].0 == sym@);
                    lemma_spec_add_found(gs0, sym@, idv, i as int);
                }
                let ghost inner0 = gs0[i as int].1;
                let mut pair = self.groups.remove(i);
                pair.1.push(id);
                proof {
                    assert(pair.1.deep_view() =~= inner0.push(idv));
                }
                self.groups.insert(i, pair);
                proof {
                    assert(self@ =~= gs0.update(i as int, (sym@, inner0.push(idv))));
                    assert(spec_add(gs0, sym@, idv) == gs0.update(
                        i as int,
                        (sym@, inner0.push(idv)),
                    ));
                    assert(self@ == spec_add(gs0, sym@, idv));
                    assert forall|a: int, b: int| 0 <= a < b < self@.len() implies (
                    #[trigger] self@[a]).0 != (#[trigger] self@[b]).0 by {
                        assert(gs0[a].0 != gs0[b].0);
                    }
                }
                return ;
            }
            i += 1;
        }
        proof {
            lemma_spec_add_absent(gs0, sym@, idv);
        }
        let ids = id_singleton(id);
        let ghost symv = sym@;
        self.groups.push((sym, ids));
        proof {
            assert(self@ =~= gs0.push((symv, seq![idv])));
            assert forall|a: int, b: int| 0 <= a < b < self@.len() implies (#[trigger] self@[a]).0
                != (#[trigger] self@[b]).0 by {
                if b < gs0.len() as int {
                    assert(gs0[a].0 != gs0[b].0);
                } else {
                    assert(gs0[a].0 != symv);
                }
            }
        }
    }

    /// The identifier list for `symbol`; the lookup uppercases its input
    /// before matching.
    pub fn lookup(&self, symbol: &str) -> (r: Option<&Vec<String>>)
        requires
            self.wf(),
        ensures
            match r {
                Some(ids) => spec_lookup(self@, upper_of(symbol@)) == Some(ids.deep_view()),
                None => spec_lookup(self@, upper_of(symbol@)) is None,
            },
    {
        let key = to_upper(symbol);
        let n = self.groups.len();
        let mut i: usize = 0;
        while i < n
            invariant
                self.wf(),
                n == self.groups@.len(),
                i <= n,
                key@ == upper_of(symbol@),
                forall|k: int| 0 <= k < i ==> (#[trigger] self@[k]).0 != upper_of(symbol@),
            decreases n - i,
        {
            if self.groups[i].0.eq(&key) {
                proof {
                    lemma_spec_lookup_found(self@, upper_of(symbol@), i as int);
                }
                return Some(&self.groups[i].1);
            }
            i += 1;
        }
        proof {
            lemma_spec_lookup_absent(self@, upper_of(symbol@));
        }
        None
    }
}

/// A one-identifier list.
fn id_singleton(id: String) -> (r: Vec<String>)
    ensures
        r.deep_view() =~= seq![id@],
{
    let mut v: Vec<String> = Vec::new();
    v.push(id);
    proof {
        assert(v.deep_view() =~= seq![v@[0]@]);
    }
    v
}

/// Builds the symbol index the listing entries denote: each asset with a
/// non-empty symbol and identifier is appended, in listing order, under its
/// uppercased symbol.
pub fn build_symbol_index(entries: &Vec<ListingEntry>) -> (r: SymbolIndex)
    ensures
        r.wf(),
        r@ == spec_build(entries@),
{
    let mut idx = SymbolIndex::new();
    let n = entries.len();
    let mut i: usize = 0;
    while i < n
        invariant
            idx.wf(),
            n == entries@.len(),
            i <= n,
            idx@ == spec_build(entries@.take(i as int)),
        decreases n - i,
    {
        let e = &entries[i];
        if let Some(s) = &e.symbol {
            if let Some(idstr) = &e.id {
                if !s.as_str().is_empty() && !idstr.as_str().is_empty() {
                    let key = to_upper(s.as_str());
                    idx.add(key, idstr.clone());
                }
            }
        }
        proof {
            assert(entries@.take(i as int + 1).drop_last() =~= entries@.take(i as int));
            assert(entries@.take(i as int + 1).last() == entries@[i as int]);
        }
        i += 1;
    }
    proof {
        assert(entries@.take(n as int) =~= entries@);
    }
    idx
}

/// An entry's two string fields at the view level.
pub open spec fn entry_fields(e: ListingEntry) -> (Option<Seq<char>>, Option<Seq<char>>) {
    (
        match e.symbol {
            Some(s) => Some(s@),
            None => None,
        },
        match e.id {
            Some(s) => Some(s@),
            None => None,
        },
    )
}

/// The entries' field pairs, element by element.
pub open spec fn entries_fields(es: Seq<ListingEntry>) -> Seq<
    (Option<Seq<char>>, Option<Seq<char>>),
> {
    Seq::new(es.len(), |i: int| entry_fields(es[i]))
}

/// What the listing payload holds, as far as resolution reads it: `None`
/// when the payload is not a JSON array, else each element's `symbol` and
/// `id` string fields, in array order. A function of the payload alone.
pub uninterp spec fn listing_fields_of(v: serde_json::Value) -> Option<
    Seq<(Option<Seq<char>>, Option<Seq<char>>)>,
>;

/// Relies on `serde_json::Value::as_array`, `Value::get` and
/// `Value::as_str`: `None` exactly when the payload is not a JSON array,
/// else each element's `symbol` and `id` string fields in array order, which
/// depend on the payload alone.
#[verifier::external_body]
fn listing_entries(v: &serde_json::Value) -> (r: Option<Vec<ListingEntry>>)
    ensures
        match r {
            None => listing_fields_of(*v) is None,
            Some(es) => listing_fields_of(*v) == Some(entries_fields(es@)),
        },
{
    v.as_array().map(|arr| {
        arr.iter()
            .map(|e| ListingEntry {
                symbol: e.get("symbol").and_then(|s| s.as_str()).map(|s| s.to_string()),
                id: e.get("id").and_then(|i| i.as_str()).map(|s| s.to_string()),
            })
            .collect()
    })
}

/// [`spec_step`] over a field pair instead of an entry.
pub open spec fn spec_step_fields(
    gs: IndexModel,
    f: (Option<Seq<char>>, Option<Seq<char>>),
) -> IndexModel {
    match f {
        (Some(s), Some(id)) => if s.len() > 0 && id.len() > 0 {
            spec_add(gs, upper_of(s), id)
        } else {
            gs
        },
        _ => gs,
    }
}

/// The index a sequence of field pairs denotes, built front to back.
pub open spec fn spec_build_fields(
    fs: Seq<(Option<Seq<char>>, Option<Seq<char>>)>,
) -> IndexModel
    decreases fs.len(),
{
    if fs.len() == 0 {
        Seq::empty()
    } else {
        spec_step_fields(spec_build_fields(fs.drop_last()), fs.last())
    }
}

proof fn lemma_build_fields(es: Seq<ListingEntry>)
    ensures
        spec_build_fields(entries_fields(es)) == spec_build(es),
    decreases es.len(),
{
    if es.len() == 0 {
        assert(entries_fields(es) =~= Seq::<(Option<Seq<char>>, Option<Seq<char>>)>::empty());
    } else {
        lemma_build_fields(es.drop_last());
        assert(entries_fields(es).drop_last() =~= entries_fields(es.drop_last()));
        assert(entries_fields(es).last() == entry_fields(es.last()));
        assert(spec_step_fields(spec_build(es.drop_last()), entry_fields(es.last()))
            == spec_step(spec_build(es.drop_last()), es.last()));
    }
}

/// Resolves the listing payload to the symbol index: fails exactly when the
/// payload is not a JSON array, and otherwise builds the index its field
/// pairs denote.
pub fn resolve_symbols(listing: &serde_json::Value) -> (r: Result<SymbolIndex, ResolveError>)
    ensures
        match r {
            Ok(idx) => {
                &&& listing_fields_of(*listing) is Some
                &&& idx.wf()
                &&& idx@ == spec_build_fields(listing_fields_of(*listing).unwrap())
            },
            Err(e) => {
                &&& e == ResolveError::NotAnArray
                &&& listing_fields_of(*listing) is None
            },
        },
{
    match listing_entries(listing) {
        None => Err(ResolveError::NotAnArray),
        Some(entries) => {
            let idx = build_symbol_index(&entries);
            proof {
                lemma_build_fields(entries@);
            }
            Ok(idx)
        },
    }
}

/// Two listed assets that share a symbol, each with a non-empty symbol and
/// identifier, resolve to one index group mapping that symbol to both
/// identifiers, in source order.
pub proof fn lemma_shared_symbol_one_group(s1: String, i1: String, s2: String, i2: String)
    requires
        s1@.len() > 0,
        s2@.len() > 0,
        i1@.len() > 0,
        i2@.len() > 0,
        upper_of(s1@) == upper_of(s2@),
    ensures
        spec_build(
            seq![
                ListingEntry { symbol: Some(s1), id: Some(i1) },
                ListingEntry { symbol: Some(s2), id: Some(i2) },
            ],
        ) == seq![(upper_of(s1@), seq![i1@, i2@])],
{
    reveal_with_fuel(spec_build, 3);
    reveal_with_fuel(spec_add, 3);
    let e1 = ListingEntry { symbol: Some(s1), id: Some(i1) };
    let e2 = ListingEntry { symbol: Some(s2), id: Some(i2) };
    let both = seq![e1, e2];
    let up = upper_of(s1@);
    assert(both.drop_last() =~= seq![e1]);
    assert(seq![e1].drop_last() =~= Seq::<ListingEntry>::empty());
    assert(spec_build(seq![e1]) == spec_add(Seq::empty(), up, i1@));
    assert(spec_build(seq![e1]) =~~= seq![(up, seq![i1@])]);
    let one = seq![(up, seq![i1@])];
    assert(one[0].0 == upper_of(s2@));
    assert(spec_add(one, upper_of(s2@), i2@) == seq![(one[0].0, one[0].1.push(i2@))]
        + one.drop_first());
    assert(spec_add(one, upper_of(s2@), i2@) =~~= seq![(up, seq![i1@, i2@])]);
    assert(both.last() == e2);
    assert(spec_build(both) == spec_add(spec_build(seq![e1]), upper_of(s2@), i2@));
}

} // verus!
