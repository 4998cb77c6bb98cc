//! The catalogue of targets: the display names in order, and for each name
//! the identifiers that were discovered for it.

use crate::text::{lemma_lex_asymmetric, lemma_lex_irreflexive, lemma_lex_total,
    lemma_lex_transitive, lex_lt, precedes, texts, Text};
use vstd::prelude::*;

verus! {

/// The structured raw data that may accompany a connection's metadata.
#[derive(Debug, PartialEq, Eq)]
pub struct RawData {
    pub container_name: Option<String>,
}

/// The metadata that the service reports for one connection identifier.
#[derive(Debug, PartialEq, Eq)]
pub struct ConnectionInfo {
    pub name: Vec<String>,
    pub raw_data: Option<RawData>,
}

impl ConnectionInfo {
    /// The display name: the first element of the name list, if there is one.
    pub open spec fn display_name(&self) -> Option<Text> {
        if self.name@.len() > 0 {
            Some(self.name@[0]@)
        } else {
            None
        }
    }

    /// The name of the nested resource that the raw data carries, if any.
    pub open spec fn nested(&self) -> Option<Text> {
        match self.raw_data {
            Some(RawData { container_name: Some(c) }) => Some(c@),
            _ => None,
        }
    }
}

/// Each element sorts strictly before every later one: the sequence is sorted
/// and holds nothing twice.
pub open spec fn strictly_sorted(s: Seq<Text>) -> bool {
    forall|i: int, j: int| 0 <= i < j < s.len() ==> lex_lt(#[trigger] s[i], #[trigger] s[j])
}

/// The identifiers that one pair of metadata and identifier adds under the
/// pair's display name: the identifier itself, then the nested resource name
/// where the metadata carries one.
pub open spec fn contribution(info: ConnectionInfo, id: Text) -> Seq<Text> {
    match info.nested() {
        Some(c) => seq![id, c],
        None => seq![id],
    }
}

/// The mapping `m` after `added` has been appended to the entry of `name`,
/// which is created where it did not exist.
pub open spec fn recorded(m: Map<Text, Seq<Text>>, name: Text, added: Seq<Text>) -> Map<
    Text,
    Seq<Text>,
> {
    m.insert(
        name,
        if m.contains_key(name) {
            m[name] + added
        } else {
            added
        },
    )
}

/// The mapping `m` after the first `n` pairs of `infos` and `ids` have been
/// folded into it, in order. A pair whose metadata has no display name adds
/// nothing.
pub open spec fn folded(
    m: Map<Text, Seq<Text>>,
    infos: Seq<ConnectionInfo>,
    ids: Seq<Text>,
    n: nat,
) -> Map<Text, Seq<Text>>
    decreases n,
{
    if n == 0 {
        m
    } else {
        let before = folded(m, infos, ids, (n - 1) as nat);
        match infos[n - 1].display_name() {
            Some(name) => recorded(before, name, contribution(infos[n - 1], ids[n - 1])),
            None => before,
        }
    }
}

/// The display names that the first `n` elements of `infos` carry.
pub open spec fn discovered(infos: Seq<ConnectionInfo>, n: nat) -> Set<Text> {
    Set::new(|t: Text| exists|i: int| 0 <= i < n && #[trigger] infos[i].display_name() == Some(t))
}

/// How many pairs two sequences of these lengths form.
pub open spec fn pair_count(infos: nat, ids: nat) -> nat {
    if infos <= ids {
        infos
    } else {
        ids
    }
}

/// Folding pairs never removes a name from the mapping, and adds exactly the
/// display names of the pairs.
pub proof fn lemma_folded_dom(
    m: Map<Text, Seq<Text>>,
    infos: Seq<ConnectionInfo>,
    ids: Seq<Text>,
    n: nat,
)
    requires
        n <= infos.len(),
    ensures
        folded(m, infos, ids, n).dom() == m.dom().union(discovered(infos, n)),
    decreases n,
{
    if n == 0 {
        assert(discovered(infos, 0) =~= Set::empty());
        assert(m.dom().union(Set::empty()) =~= m.dom());
    } else {
        let k = (n - 1) as nat;
        lemma_folded_dom(m, infos, ids, k);
        let before = folded(m, infos, ids, k);
        match infos[n - 1].display_name() {
            Some(name) => {
                assert(discovered(infos, n) =~= discovered(infos, k).insert(name)) by {
                    assert forall|t: Text| discovered(infos, k).insert(name).contains(
                        t,
                    ) implies discovered(infos, n).contains(t) by {
                        if t == name {
                            assert(infos[n - 1].display_name() == Some(t));
                        } else {
                            let i = choose|i: int|
                                0 <= i < k && #[trigger] infos[i].display_name() == Some(t);
                            assert(infos[i].display_name() == Some(t));
                        }
                    }
                }
                assert(folded(m, infos, ids, n).dom() =~= before.dom().insert(name));
                assert(m.dom().union(discovered(infos, k).insert(name)) =~= m.dom().union(
                    discovered(infos, k),
                ).insert(name));
            },
            None => {
                assert(discovered(infos, n) =~= discovered(infos, k)) by {
                    assert forall|t: Text| discovered(infos, n).contains(t) implies discovered(
                        infos,
                        k,
                    ).contains(t) by {
                        let i = choose|i: int|
                            0 <= i < n && #[trigger] infos[i].display_name() == Some(t);
                        assert(i != n - 1);
                        assert(infos[i].display_name() == Some(t));
                    }
                }
            },
        }
    }
}

/// A strictly sorted sequence holds nothing twice.
pub proof fn lemma_strictly_sorted_no_duplicates(s: Seq<Text>)
    requires
        strictly_sorted(s),
    ensures
        s.no_duplicates(),
{
    assert forall|i: int, j: int| 0 <= i < s.len() && 0 <= j < s.len() && i != j implies s[i]
        != s[j] by {
        if i < j {
            assert(lex_lt(s[i], s[j]));
            lemma_lex_irreflexive(s[i]);
        } else {
            assert(lex_lt(s[j], s[i]));
            lemma_lex_irreflexive(s[j]);
        }
    }
}

/// Two strictly sorted sequences with the same elements are the same
/// sequence: the elements decide the order.
pub proof fn lemma_strictly_sorted_unique(a: Seq<Text>, b: Seq<Text>)
    requires
        strictly_sorted(a),
        strictly_sorted(b),
        a.to_set() == b.to_set(),
    ensures
        a == b,
    decreases a.len(),
{
    if a.len() == 0 {
        if b.len() > 0 {
            assert(b.to_set().contains(b[0]));
            assert(a.to_set().contains(b[0]));
        }
        assert(a =~= b);
    } else if b.len() == 0 {
        assert(a.to_set().contains(a[0]));
        assert(b.to_set().contains(a[0]));
    } else {
        // The first elements are both the least element of the common set.
        assert(a.to_set().contains(a[0]));
        assert(b.to_set().contains(a[0]));
        let i = choose|i: int| 0 <= i < b.len() && b[i] == a[0];
        assert(b.to_set().contains(b[0]));
        assert(a.to_set().contains(b[0]));
        let j = choose|j: int| 0 <= j < a.len() && a[j] == b[0];
        if i > 0 && j > 0 {
            assert(lex_lt(b[0], b[i]));
            assert(lex_lt(a[0], a[j]));
            lemma_lex_asymmetric(a[0], b[0]);
        }
        if i > 0 && j == 0 {
            lemma_strictly_sorted_no_duplicates(b);
        }
        assert(a[0] == b[0]);
        let ta = a.drop_first();
        let tb = b.drop_first();
        lemma_strictly_sorted_no_duplicates(a);
        lemma_strictly_sorted_no_duplicates(b);
        assert(strictly_sorted(ta)) by {
            assert forall|x: int, y: int| 0 <= x < y < ta.len() implies lex_lt(
                #[trigger] ta[x],
                #[trigger] ta[y],
            ) by {
                assert(ta[x] == a[x + 1] && ta[y] == a[y + 1]);
            }
        }
        assert(strictly_sorted(tb)) by {
            assert forall|x: int, y: int| 0 <= x < y < tb.len() implies lex_lt(
                #[trigger] tb[x],
                #[trigger] tb[y],
            ) by {
                assert(tb[x] == b[x + 1] && tb[y] == b[y + 1]);
            }
        }
        assert(ta.to_set() =~= tb.to_set()) by {
            assert forall|t: Text| ta.to_set().contains(t) implies tb.to_set().contains(t) by {
                let x = choose|x: int| 0 <= x < ta.len() && ta[x] == t;
                assert(a[x + 1] == t);
                assert(a.to_set().contains(t));
                assert(b.to_set().contains(t));
                let y = choose|y: int| 0 <= y < b.len() && b[y] == t;
                assert(y != 0);
                assert(tb[y - 1] == t);
            }
            assert forall|t: Text| tb.to_set().contains(t) implies ta.to_set().contains(t) by {
                let x = choose|x: int| 0 <= x < tb.len() && tb[x] == t;
                assert(b[x + 1] == t);
                assert(b.to_set().contains(t));
                assert(a.to_set().contains(t));
                let y = choose|y: int| 0 <= y < a.len() && a[y] == t;
                assert(y != 0);
                assert(ta[y - 1] == t);
            }
        }
        lemma_strictly_sorted_unique(ta, tb);
        assert(a =~= seq![a[0]] + ta);
        assert(b =~= seq![b[0]] + tb);
    }
}

/// The elements of `s` in order, each once: the one strictly sorted sequence
/// that holds exactly them.
pub open spec fn sorted_names(s: Set<Text>) -> Seq<Text> {
    choose|v: Seq<Text>| strictly_sorted(v) && v.to_set() == s
}

/// A strictly sorted sequence still has one with the same elements after one
/// more text has joined them.
pub proof fn lemma_sorted_insert_exists(s: Seq<Text>, t: Text)
    requires
        strictly_sorted(s),
    ensures
        exists|r: Seq<Text>| strictly_sorted(r) && r.to_set() == s.to_set().insert(t),
    decreases s.len(),
{
    if s.len() == 0 {
        let r = seq![t];
        assert(r.to_set() =~= s.to_set().insert(t)) by {
            assert(r[0] == t);
            assert forall|x: Text| s.to_set().insert(t).contains(x) implies r.to_set().contains(
                x,
            ) by {
                assert(r[0] == x);
            }
        }
        assert(strictly_sorted(r) && r.to_set() == s.to_set().insert(t));
    } else {
        let last = s.last();
        let front = s.drop_last();
        assert(s.to_set().contains(last)) by {
            assert(s[s.len() - 1] == last);
        }
        if last == t {
            assert(s.to_set().insert(t) =~= s.to_set());
            assert(strictly_sorted(s) && s.to_set() == s.to_set().insert(t));
        } else {
            lemma_lex_total(last, t);
            if lex_lt(last, t) {
                let r = s.push(t);
                assert(strictly_sorted(r)) by {
                    assert forall|i: int, j: int| 0 <= i < j < r.len() implies lex_lt(
                        #[trigger] r[i],
                        #[trigger] r[j],
                    ) by {
                        if j < s.len() {
                            assert(r[i] == s[i] && r[j] == s[j]);
                        } else {
                            assert(r[i] == s[i]);
                            if i < s.len() - 1 {
                                assert(lex_lt(s[i], s[s.len() - 1]));
                                lemma_lex_transitive(s[i], last, t);
                            }
                        }
                    }
                }
                assert(r.to_set() =~= s.to_set().insert(t)) by {
                    assert forall|x: Text| r.to_set().contains(x) implies s.to_set().insert(
                        t,
                    ).contains(x) by {
                        let i = choose|i: int| 0 <= i < r.len() && r[i] == x;
                        if i < s.len() {
                            assert(s[i] == x);
                        }
                    }
                    assert forall|x: Text| s.to_set().insert(t).contains(
                        x,
                    ) implies r.to_set().contains(x) by {
                        if x == t {
                            assert(r[s.len() as int] == x);
                        } else {
                            let i = choose|i: int| 0 <= i < s.len() && s[i] == x;
                            assert(r[i] == x);
                        }
                    }
                }
                assert(strictly_sorted(r) && r.to_set() == s.to_set().insert(t));
            } else {
                assert(strictly_sorted(front)) by {
                    assert forall|i: int, j: int| 0 <= i < j < front.len() implies lex_lt(
                        #[trigger] front[i],
                        #[trigger] front[j],
                    ) by {
                        assert(front[i] == s[i] && front[j] == s[j]);
                    }
                }
                lemma_sorted_insert_exists(front, t);
                let q = choose|q: Seq<Text>|
                    strictly_sorted(q) && q.to_set() == front.to_set().insert(t);
                let r = q.push(last);
                assert(strictly_sorted(r)) by {
                    assert forall|i: int, j: int| 0 <= i < j < r.len() implies lex_lt(
                        #[trigger] r[i],
                        #[trigger] r[j],
                    ) by {
                        if j < q.len() {
                            assert(r[i] == q[i] && r[j] == q[j]);
                        } else {
                            assert(r[i] == q[i]);
                            assert(q.to_set().contains(q[i]));
                            if q[i] != t {
                                assert(front.to_set().contains(q[i]));
                                let k = choose|k: int| 0 <= k < front.len() && front[k] == q[i];
                                assert(s[k] == q[i]);
                                assert(lex_lt(s[k], s[s.len() - 1]));
                            }
                        }
                    }
                }
                assert(r.to_set() =~= s.to_set().insert(t)) by {
                    assert forall|x: Text| r.to_set().contains(x) implies s.to_set().insert(
                        t,
                    ).contains(x) by {
                        let i = choose|i: int| 0 <= i < r.len() && r[i] == x;
                        if i < q.len() {
                            assert(q[i] == x);
                            assert(q.to_set().contains(x));
                            if x != t {
                                assert(front.to_set().contains(x));
                                let k = choose|k: int| 0 <= k < front.len() && front[k] == x;
                                assert(s[k] == x);
                            }
                        }
                    }
                    assert forall|x: Text| s.to_set().insert(t).contains(
                        x,
                    ) implies r.to_set().contains(x) by {
                        if x == last {
                            assert(r[q.len() as int] == x);
                        } else {
                            if x != t {
                                let k = choose|k: int| 0 <= k < s.len() && s[k] == x;
                                assert(front[k] == x);
                                assert(front.to_set().contains(x));
                            }
                            assert(q.to_set().contains(x));
                            let i = choose|i: int| 0 <= i < q.len() && q[i] == x;
                            assert(r[i] == x);
                        }
                    }
                }
                assert(strictly_sorted(r) && r.to_set() == s.to_set().insert(t));
            }
        }
    }
}

/// What a catalogue holds.
pub struct CatalogueView {
    pub names: Seq<Text>,
    pub resources: Map<Text, Seq<Text>>,
}

impl CatalogueView {
    /// The catalogue's invariant: the names are sorted and each stands once,
    /// the mapping has an entry for exactly the names, and no entry is empty.
    pub open spec fn wf(self) -> bool {
        &&& strictly_sorted(self.names)
        &&& self.names.to_set() == self.resources.dom()
        &&& forall|k: Text| #[trigger]
            self.resources.contains_key(k) ==> self.resources[k].len() > 0
    }

    /// The catalogue that holds nothing.
    pub open spec fn empty() -> CatalogueView {
        CatalogueView { names: Seq::empty(), resources: Map::empty() }
    }

    /// The catalogue after the pairs of `infos` and `ids` have been folded
    /// into it: the mapping holds what was collected, and the names are those
    /// of the mapping, sorted, each once.
    pub open spec fn fold(self, infos: Seq<ConnectionInfo>, ids: Seq<Text>) -> CatalogueView {
        let resources = folded(self.resources, infos, ids, pair_count(infos.len(), ids.len()));
        CatalogueView { names: sorted_names(resources.dom()), resources }
    }
}

/// Folding never empties an entry.
pub proof fn lemma_folded_filled(
    m: Map<Text, Seq<Text>>,
    infos: Seq<ConnectionInfo>,
    ids: Seq<Text>,
    n: nat,
)
    requires
        forall|k: Text| #[trigger] m.contains_key(k) ==> m[k].len() > 0,
    ensures
        forall|k: Text| #[trigger]
            folded(m, infos, ids, n).contains_key(k) ==> folded(m, infos, ids, n)[k].len() > 0,
    decreases n,
{
    if n > 0 {
        lemma_folded_filled(m, infos, ids, (n - 1) as nat);
        let before = folded(m, infos, ids, (n - 1) as nat);
        let after = folded(m, infos, ids, n);
        assert forall|k: Text| #[trigger] after.contains_key(k) implies after[k].len() > 0 by {
            match infos[n - 1].display_name() {
                Some(name) => {
                    let added = contribution(infos[n - 1], ids[n - 1]);
                    assert(added.len() > 0);
                    if k != name {
                        assert(before.contains_key(k));
                        assert(after[k] == before[k]);
                    }
                },
                None => {
                    assert(before.contains_key(k));
                },
            }
        }
    }
}

/// The names of a folded mapping can be put in order.
pub proof fn lemma_folded_names_exist(
    c: CatalogueView,
    infos: Seq<ConnectionInfo>,
    ids: Seq<Text>,
    n: nat,
)
    requires
        c.wf(),
    ensures
        exists|r: Seq<Text>|
            strictly_sorted(r) && r.to_set() == folded(c.resources, infos, ids, n).dom(),
    decreases n,
{
    if n == 0 {
        assert(strictly_sorted(c.names) && c.names.to_set() == folded(
            c.resources,
            infos,
            ids,
            0,
        ).dom());
    } else {
        lemma_folded_names_exist(c, infos, ids, (n - 1) as nat);
        let before = folded(c.resources, infos, ids, (n - 1) as nat);
        let q = choose|q: Seq<Text>| strictly_sorted(q) && q.to_set() == before.dom();
        match infos[n - 1].display_name() {
            Some(name) => {
                lemma_sorted_insert_exists(q, name);
                let r = choose|r: Seq<Text>|
                    strictly_sorted(r) && r.to_set() == q.to_set().insert(name);
                assert(folded(c.resources, infos, ids, n).dom() =~= before.dom().insert(name));
                assert(strictly_sorted(r) && r.to_set() == folded(
                    c.resources,
                    infos,
                    ids,
                    n,
                ).dom());
            },
            None => {
                assert(strictly_sorted(q) && q.to_set() == folded(
                    c.resources,
                    infos,
                    ids,
                    n,
                ).dom());
            },
        }
    }
}

/// Folding keeps the catalogue's invariant.
pub proof fn lemma_fold_wf(c: CatalogueView, infos: Seq<ConnectionInfo>, ids: Seq<Text>)
    requires
        c.wf(),
    ensures
        c.fold(infos, ids).wf(),
{
    let n = pair_count(infos.len(), ids.len());
    lemma_folded_names_exist(c, infos, ids, n);
    lemma_folded_filled(c.resources, infos, ids, n);
}

/// The identifiers that the first `n` pairs add under `name`, in the order of
/// discovery.
pub open spec fn collected(infos: Seq<ConnectionInfo>, ids: Seq<Text>, n: nat, name: Text) -> Seq<
    Text,
>
    decreases n,
{
    if n == 0 {
        Seq::empty()
    } else {
        let before = collected(infos, ids, (n - 1) as nat, name);
        if infos[n - 1].display_name() == Some(name) {
            before + contribution(infos[n - 1], ids[n - 1])
        } else {
            before
        }
    }
}

/// What the mapping `m` holds under `name`: nothing where it has no entry.
pub open spec fn held(m: Map<Text, Seq<Text>>, name: Text) -> Seq<Text> {
    if m.contains_key(name) {
        m[name]
    } else {
        Seq::empty()
    }
}

/// However often a display name occurs among the pairs, the folded mapping
/// has one entry for it, and the entry holds what the name had before, then
/// all that the pairs add under the name, in the order of discovery.
pub proof fn lemma_folded_collects(
    m: Map<Text, Seq<Text>>,
    infos: Seq<ConnectionInfo>,
    ids: Seq<Text>,
    n: nat,
    name: Text,
)
    requires
        n <= infos.len(),
    ensures
        folded(m, infos, ids, n).contains_key(name) <==> m.contains_key(name) || discovered(
            infos,
            n,
        ).contains(name),
        folded(m, infos, ids, n).contains_key(name) ==> folded(m, infos, ids, n)[name] == held(
            m,
            name,
        ) + collected(infos, ids, n, name),
    decreases n,
{
    lemma_folded_dom(m, infos, ids, n);
    if n == 0 {
        if m.contains_key(name) {
            assert(m[name] + Seq::<Text>::empty() =~= m[name]);
        }
    } else {
        let k = (n - 1) as nat;
        lemma_folded_collects(m, infos, ids, k, name);
        lemma_folded_dom(m, infos, ids, k);
        let before = folded(m, infos, ids, k);
        let had = held(m, name);
        let added = contribution(infos[n - 1], ids[n - 1]);
        if infos[n - 1].display_name() == Some(name) {
            if before.contains_key(name) {
                assert((had + collected(infos, ids, k, name)) + added =~= had + (collected(
                    infos,
                    ids,
                    k,
                    name,
                ) + added));
            } else {
                assert(!discovered(infos, k).contains(name));
                assert(collected(infos, ids, k, name) =~= Seq::<Text>::empty()) by {
                    lemma_collected_nothing(infos, ids, k, name);
                }
                assert(added =~= had + (Seq::<Text>::empty() + added));
            }
        }
    }
}

/// A name that none of the first `n` pairs carries has nothing collected.
pub proof fn lemma_collected_nothing(
    infos: Seq<ConnectionInfo>,
    ids: Seq<Text>,
    n: nat,
    name: Text,
)
    requires
        !discovered(infos, n).contains(name),
    ensures
        collected(infos, ids, n, name) == Seq::<Text>::empty(),
    decreases n,
{
    if n > 0 {
        assert(infos[n - 1].display_name() != Some(name));
        assert(!discovered(infos, (n - 1) as nat).contains(name)) by {
            if discovered(infos, (n - 1) as nat).contains(name) {
                let i = choose|i: int|
                    0 <= i < n - 1 && #[trigger] infos[i].display_name() == Some(name);
                assert(infos[i].display_name() == Some(name));
            }
        }
        lemma_collected_nothing(infos, ids, (n - 1) as nat, name);
    }
}

/// The names of a well-formed catalogue are as many as its mapping has
/// entries: each name stands once.
pub proof fn lemma_names_count(c: CatalogueView)
    requires
        c.wf(),
    ensures
        c.names.no_duplicates(),
        c.resources.dom().finite(),
        c.names.len() == c.resources.dom().len(),
{
    lemma_strictly_sorted_no_duplicates(c.names);
    c.names.unique_seq_to_set();
    vstd::seq_lib::seq_to_set_is_finite(c.names);
}

/// A catalogue that was empty shows, after a fold, as many names as there
/// are distinct display names among the pairs.
pub proof fn lemma_fold_counts_names(infos: Seq<ConnectionInfo>, ids: Seq<Text>)
    ensures
        ({
            let n = pair_count(infos.len(), ids.len());
            let c = CatalogueView::empty().fold(infos, ids);
            &&& c.names.to_set() == discovered(infos, n)
            &&& discovered(infos, n).finite()
            &&& c.names.len() == discovered(infos, n).len()
        }),
{
    let n = pair_count(infos.len(), ids.len());
    let start = CatalogueView::empty();
    assert(start.wf()) by {
        assert(start.names.to_set() =~= start.resources.dom());
    }
    lemma_fold_wf(start, infos, ids);
    lemma_folded_dom(start.resources, infos, ids, n);
    let c = start.fold(infos, ids);
    assert(start.resources.dom().union(discovered(infos, n)) =~= discovered(infos, n));
    lemma_names_count(c);
}

/// One display name with the identifiers discovered for it, in the order of
/// discovery.
#[derive(Debug)]
pub struct Entry {
    name: String,
    identifiers: Vec<String>,
}

/// The catalogue: the display names, sorted and each once, and the mapping
/// from display name to identifiers.
#[derive(Debug)]
pub struct Catalogue {
    names: Vec<String>,
    entries: Vec<Entry>,
}

spec fn has_entry(es: Seq<Entry>, k: Text) -> bool {
    exists|i: int| 0 <= i < es.len() && (#[trigger] es[i]).name@ == k
}

spec fn entry_index(es: Seq<Entry>, k: Text) -> int {
    choose|i: int| 0 <= i < es.len() && (#[trigger] es[i]).name@ == k
}

spec fn entries_map(es: Seq<Entry>) -> Map<Text, Seq<Text>> {
    Map::new(|k: Text| has_entry(es, k), |k: Text| texts(es[entry_index(es, k)].identifiers@))
}

spec fn entries_distinct(es: Seq<Entry>) -> bool {
    forall|i: int, j: int|
        0 <= i < j < es.len() ==> (#[trigger] es[i]).name@ != (#[trigger] es[j]).name@
}

spec fn entries_filled(es: Seq<Entry>) -> bool {
    forall|i: int| 0 <= i < es.len() ==> (#[trigger] es[i]).identifiers@.len() > 0
}

proof fn lemma_entry_index(es: Seq<Entry>, i: int)
    requires
        entries_distinct(es),
        0 <= i < es.len(),
    ensures
        has_entry(es, es[i].name@),
        entry_index(es, es[i].name@) == i,
{
    let k = es[i].name@;
    assert(has_entry(es, k));
    let j = entry_index(es, k);
    assert(0 <= j < es.len() && es[j].name@ == k);
    if j < i {
        assert(es[j].name@ != es[i].name@);
    } else if i < j {
        assert(es[i].name@ != es[j].name@);
    }
}

proof fn lemma_texts_push(v: Seq<String>, s: String)
    ensures
        texts(v.push(s)) == texts(v).push(s@),
{
    assert(texts(v.push(s)) =~= texts(v).push(s@));
}

proof fn lemma_texts_insert(v: Seq<String>, p: int, s: String)
    requires
        0 <= p <= v.len(),
    ensures
        texts(v.insert(p, s)) == texts(v).insert(p, s@),
{
    assert(texts(v.insert(p, s)) =~= texts(v).insert(p, s@));
}

/// Puts `s` in its place in the strictly sorted `v`, unless `v` holds it
/// already.
fn insert_sorted(v: &mut Vec<String>, s: String)
    requires
        strictly_sorted(texts(old(v)@)),
    ensures
        strictly_sorted(texts(final(v)@)),
        texts(final(v)@).to_set() == texts(old(v)@).to_set().insert(s@),
{
    let mut p: usize = 0;
    while p < v.len() && precedes(v[p].as_str(), s.as_str())
        invariant
            0 <= p <= v.len(),
            *v == *old(v),
            forall|j: int| 0 <= j < p ==> lex_lt(#[trigger] texts(v@)[j], s@),
        decreases v.len() - p,
    {
        p = p + 1;
    }
    let ghost before = texts(v@);
    if p < v.len() && v[p] == s {
        proof {
            assert(before[p as int] == s@);
            assert(before.to_set().insert(s@) =~= before.to_set());
        }
        return ;
    }
    proof {
        lemma_texts_insert(v@, p as int, s);
        let after = before.insert(p as int, s@);
        if p < v.len() {
            assert(before[p as int] != s@);
            lemma_lex_total(before[p as int], s@);
        }
        assert forall|i: int, j: int| 0 <= i < j < after.len() implies lex_lt(
            #[trigger] after[i],
            #[trigger] after[j],
        ) by {
            if j < p {
                assert(after[i] == before[i] && after[j] == before[j]);
            } else if j == p {
                assert(after[i] == before[i]);
            } else if i < p {
                assert(after[i] == before[i] && after[j] == before[j - 1]);
                if j - 1 > p {
                    assert(lex_lt(before[p as int], before[j - 1]));
                }
                lemma_lex_transitive(before[i], s@, before[p as int]);
                if j - 1 > p {
                    lemma_lex_transitive(before[i], before[p as int], before[j - 1]);
                }
            } else if i == p {
                assert(after[j] == before[j - 1]);
                if j - 1 > p {
                    assert(lex_lt(before[p as int], before[j - 1]));
                    lemma_lex_transitive(s@, before[p as int], before[j - 1]);
                }
            } else {
                assert(after[i] == before[i - 1] && after[j] == before[j - 1]);
            }
        }
        assert(after.to_set() =~= before.to_set().insert(s@)) by {
            assert forall|t: Text| after.to_set().contains(t) implies before.to_set().insert(
                s@,
            ).contains(t) by {
                let i = choose|i: int| 0 <= i < after.len() && after[i] == t;
                if i < p {
                    assert(before[i] == t);
                } else if i > p {
                    assert(before[i - 1] == t);
                }
            }
            assert forall|t: Text| before.to_set().insert(s@).contains(
                t,
            ) implies after.to_set().contains(t) by {
                if t == s@ {
                    assert(after[p as int] == t);
                } else {
                    let i = choose|i: int| 0 <= i < before.len() && before[i] == t;
                    if i < p {
                        assert(after[i] == t);
                    } else {
                        assert(after[i + 1] == t);
                    }
                }
            }
        }
    }
    v.insert(p, s);
}

/// The elements of `raw`, sorted and each once.
fn sorted_unique(raw: &Vec<String>) -> (out: Vec<String>)
    ensures
        strictly_sorted(texts(out@)),
        texts(out@).to_set() == texts(raw@).to_set(),
{
    let mut out: Vec<String> = Vec::new();
    let mut i: usize = 0;
    proof {
        assert(texts(raw@).take(0).to_set() =~= Set::empty());
        assert(texts(out@).to_set() =~= Set::empty());
    }
    while i < raw.len()
        invariant
            0 <= i <= raw.len(),
            strictly_sorted(texts(out@)),
            texts(out@).to_set() == texts(raw@).take(i as int).to_set(),
        decreases raw.len() - i,
    {
        proof {
            let a = texts(raw@).take(i as int);
            let b = texts(raw@).take(i + 1);
            assert(b =~= a.push(raw@[i as int]@));
            assert(b.to_set() =~= a.to_set().insert(raw@[i as int]@)) by {
                assert forall|t: Text| b.to_set().contains(t) implies a.to_set().insert(
                    raw@[i as int]@,
                ).contains(t) by {
                    let k = choose|k: int| 0 <= k < b.len() && b[k] == t;
                    if k < i {
                        assert(a[k] == t);
                    }
                }
                assert forall|t: Text| a.to_set().insert(raw@[i as int]@).contains(
                    t,
                ) implies b.to_set().contains(t) by {
                    if t == raw@[i as int]@ {
                        assert(b[i as int] == t);
                    } else {
                        let k = choose|k: int| 0 <= k < a.len() && a[k] == t;
                        assert(b[k] == t);
                    }
                }
            }
        }
        insert_sorted(&mut out, raw[i].clone());
        i = i + 1;
    }
    proof {
        assert(texts(raw@).take(raw.len() as int) =~= texts(raw@));
    }
    out
}

proof fn lemma_texts_concat(a: Seq<String>, b: Seq<String>)
    ensures
        texts(a + b) == texts(a) + texts(b),
{
    assert(texts(a + b) =~= texts(a) + texts(b));
}

/// Appends `added` to the entry of `name`, which is created where there was
/// none.
fn record(entries: &mut Vec<Entry>, name: &String, added: Vec<String>)
    requires
        entries_distinct(old(entries)@),
        entries_filled(old(entries)@),
        added@.len() > 0,
    ensures
        entries_distinct(final(entries)@),
        entries_filled(final(entries)@),
        entries_map(final(entries)@) == recorded(
            entries_map(old(entries)@),
            name@,
            texts(added@),
        ),
{
    let ghost before = entries@;
    let mut j: usize = 0;
    while j < entries.len() && entries[j].name != *name
        invariant
            0 <= j <= entries.len(),
            *entries == *old(entries),
            forall|i: int| 0 <= i < j ==> (#[trigger] entries@[i]).name@ != name@,
        decreases entries.len() - j,
    {
        j = j + 1;
    }
    if j < entries.len() {
        let mut entry = entries.remove(j);
        let ghost held = entry.identifiers@;
        let ghost extra = added@;
        let mut added = added;
        entry.identifiers.append(&mut added);
        proof {
            lemma_texts_concat(held, extra);
        }
        entries.insert(j, entry);
        proof {
            let after = entries@;
            assert(after.len() == before.len());
            assert(after[j as int].name@ == name@);
            assert forall|i: int| 0 <= i < after.len() implies (#[trigger] after[i]).name@
                == before[i].name@ by {}
            assert forall|i: int| 0 <= i < after.len() && i != j implies #[trigger] after[i]
                == before[i] by {}
            assert(entries_distinct(after)) by {
                assert forall|a: int, b: int| 0 <= a < b < after.len() implies (
                #[trigger] after[a]).name@ != (#[trigger] after[b]).name@ by {
                    assert(before[a].name@ != before[b].name@);
                }
            }
            assert(entries_filled(after)) by {
                assert forall|i: int| 0 <= i < after.len() implies (
                #[trigger] after[i]).identifiers@.len() > 0 by {
                    if i != j {
                        assert(before[i].identifiers@.len() > 0);
                    }
                }
            }
            let m = entries_map(before);
            let goal = recorded(m, name@, texts(extra));
            lemma_entry_index(before, j as int);
            lemma_entry_index(after, j as int);
            assert forall|k: Text| has_entry(after, k) <==> has_entry(before, k) by {
                if has_entry(after, k) {
                    let i = entry_index(after, k);
                    assert(before[i].name@ == k);
                }
                if has_entry(before, k) {
                    let i = entry_index(before, k);
                    assert(after[i].name@ == k);
                }
            }
            assert forall|k: Text| has_entry(before, k) implies #[trigger] entries_map(after)[k]
                == goal[k] by {
                let i = entry_index(before, k);
                lemma_entry_index(before, i);
                lemma_entry_index(after, i);
            }
            assert(entries_map(after) =~= goal);
        }
    } else {
        let entry = Entry { name: name.clone(), identifiers: added };
        entries.push(entry);
        proof {
            let after = entries@;
            assert forall|i: int| 0 <= i < before.len() implies #[trigger] after[i]
                == before[i] by {}
            assert(entries_distinct(after)) by {
                assert forall|a: int, b: int| 0 <= a < b < after.len() implies (
                #[trigger] after[a]).name@ != (#[trigger] after[b]).name@ by {
                    if b < before.len() {
                        assert(before[a].name@ != before[b].name@);
                    } else {
                        assert(before[a].name@ != name@);
                    }
                }
            }
            assert(entries_filled(after)) by {
                assert forall|i: int| 0 <= i < after.len() implies (
                #[trigger] after[i]).identifiers@.len() > 0 by {
                    if i < before.len() {
                        assert(before[i].identifiers@.len() > 0);
                    }
                }
            }
            let m = entries_map(before);
            let goal = recorded(m, name@, texts(added@));
            assert(!has_entry(before, name@)) by {
                if has_entry(before, name@) {
                    let i = entry_index(before, name@);
                    assert(before[i].name@ != name@);
                }
            }
            lemma_entry_index(after, before.len() as int);
            assert forall|k: Text| has_entry(after, k) <==> (has_entry(before, k) || k
                == name@) by {
                if has_entry(after, k) {
                    let i = entry_index(after, k);
                    if i < before.len() {
                        assert(before[i].name@ == k);
                    }
                }
                if has_entry(before, k) {
                    let i = entry_index(before, k);
                    assert(after[i].name@ == k);
                }
            }
            assert forall|k: Text| has_entry(before, k) implies #[trigger] entries_map(after)[k]
                == goal[k] by {
                let i = entry_index(before, k);
                lemma_entry_index(before, i);
                lemma_entry_index(after, i);
            }
            assert(entries_map(after) =~= goal);
        }
    }
}

impl View for Catalogue {
    type V = CatalogueView;

    closed spec fn view(&self) -> CatalogueView {
        CatalogueView { names: texts(self.names@), resources: entries_map(self.entries@) }
    }
}

impl Catalogue {
    /// What every catalogue keeps: no two entries share a name, no entry is
    /// empty, and the names are those of the entries, in order, each once.
    #[verifier::type_invariant]
    spec fn kept(self) -> bool {
        &&& entries_distinct(self.entries@)
        &&& entries_filled(self.entries@)
        &&& self@.wf()
    }

    /// The empty catalogue.
    pub fn new() -> (c: Catalogue)
        ensures
            c@ == CatalogueView::empty(),
            c@.wf(),
    {
        let names: Vec<String> = Vec::new();
        let entries: Vec<Entry> = Vec::new();
        proof {
            assert(texts(names@) =~= Seq::<Text>::empty());
            assert(entries_map(entries@) =~= Map::<Text, Seq<Text>>::empty());
            assert(texts(names@).to_set() =~= entries_map(entries@).dom());
        }
        Catalogue { names, entries }
    }

    /// The display names, sorted, each once.
    pub fn names(&self) -> (names: &Vec<String>)
        ensures
            texts(names@) == self@.names,
            self@.wf(),
    {
        proof {
            use_type_invariant(self);
        }
        &self.names
    }

    /// The number of display names.
    pub fn len(&self) -> (n: usize)
        ensures
            n == self@.names.len(),
    {
        self.names.len()
    }

    /// The identifiers recorded under `name`, in the order of discovery.
    pub fn identifiers(&self, name: &String) -> (r: Option<&Vec<String>>)
        ensures
            r is Some <==> self@.resources.contains_key(name@),
            r matches Some(ids) ==> texts(ids@) == self@.resources[name@] && ids@.len() > 0,
    {
        proof {
            use_type_invariant(self);
        }
        let mut j: usize = 0;
        while j < self.entries.len()
            invariant
                0 <= j <= self.entries.len(),
                entries_distinct(self.entries@),
                entries_filled(self.entries@),
                forall|i: int| 0 <= i < j ==> (#[trigger] self.entries@[i]).name@ != name@,
            decreases self.entries.len() - j,
        {
            if self.entries[j].name == *name {
                proof {
                    lemma_entry_index(self.entries@, j as int);
                }
                return Some(&self.entries[j].identifiers);
            }
            j = j + 1;
        }
        proof {
            if has_entry(self.entries@, name@) {
                let i = entry_index(self.entries@, name@);
                assert(self.entries@[i].name@ != name@);
            }
        }
        None
    }

    /// Folds the pairs of `infos` and `ids` into the catalogue, in the order
    /// received: each pair adds its identifier, and the nested resource name
    /// where the metadata carries one, under the pair's display name. The
    /// shorter of the two sequences decides how many pairs there are, and a
    /// pair without a display name adds nothing. The names are then sorted
    /// and each kept once; the mapping keeps all that was collected.
    pub fn fold(&mut self, infos: &Vec<ConnectionInfo>, ids: &Vec<String>)
        ensures
            final(self)@ == old(self)@.fold(infos@, texts(ids@)),
            final(self)@.wf(),
            final(self)@.names.to_set() == old(self)@.names.to_set().union(
                discovered(infos@, pair_count(infos@.len(), ids@.len())),
            ),
    {
        proof {
            use_type_invariant(&*self);
        }
        let mut held = Catalogue::new();
        core::mem::swap(self, &mut held);
        let Catalogue { names: _, mut entries } = held;
        let n = if infos.len() <= ids.len() {
            infos.len()
        } else {
            ids.len()
        };
        let ghost start = old(self)@.resources;
        let mut i: usize = 0;
        while i < n
            invariant
                0 <= i <= n,
                n == pair_count(infos@.len(), ids@.len()),
                entries_distinct(entries@),
                entries_filled(entries@),
                entries_map(entries@) == folded(start, infos@, texts(ids@), i as nat),
            decreases n - i,
        {
            let info = &infos[i];
            if info.name.len() > 0 {
                let mut added: Vec<String> = Vec::new();
                added.push(ids[i].clone());
                match &info.raw_data {
                    Some(raw) => {
                        match &raw.container_name {
                            Some(c) => {
                                added.push(c.clone());
                            },
                            None => {},
                        }
                    },
                    None => {},
                }
                proof {
                    assert(texts(added@) =~= contribution(*info, texts(ids@)[i as int]));
                }
                record(&mut entries, &info.name[0], added);
            }
            i = i + 1;
        }
        let mut raw: Vec<String> = Vec::new();
        let mut j: usize = 0;
        while j < entries.len()
            invariant
                0 <= j <= entries.len(),
                raw@.len() == j,
                forall|k: int| 0 <= k < j ==> (#[trigger] raw@[k])@ == entries@[k].name@,
            decreases entries.len() - j,
        {
            raw.push(entries[j].name.clone());
            j = j + 1;
        }
        let names = sorted_unique(&raw);
        proof {
            lemma_folded_dom(start, infos@, texts(ids@), n as nat);
            lemma_folded_filled(start, infos@, texts(ids@), n as nat);
            assert(texts(raw@).to_set() =~= entries_map(entries@).dom()) by {
                assert forall|t: Text| texts(raw@).to_set().contains(t) implies entries_map(
                    entries@,
                ).dom().contains(t) by {
                    let k = choose|k: int| 0 <= k < texts(raw@).len() && texts(raw@)[k] == t;
                    assert(entries@[k].name@ == t);
                }
                assert forall|t: Text| entries_map(entries@).dom().contains(t) implies texts(
                    raw@,
                ).to_set().contains(t) by {
                    let k = entry_index(entries@, t);
                    assert(texts(raw@)[k] == t);
                }
            }
            lemma_folded_names_exist(old(self)@, infos@, texts(ids@), n as nat);
            lemma_strictly_sorted_unique(
                texts(names@),
                old(self)@.fold(infos@, texts(ids@)).names,
            );
        }
        *self = Catalogue { names, entries };
    }
}

} // verus!
