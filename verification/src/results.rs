//! The result sink's accumulation mode: matches gathered into a mapping from
//! file path to its ordered list of matches, equivalent to draining the
//! result queue with a handler that appends.

use vstd::multiset::Multiset;
use vstd::prelude::*;

use crate::matching::match_view;
use crate::matching::Match;

verus! {

/// The mathematical content of a list of matches.
pub open spec fn match_views(ms: Seq<Match>) -> Seq<(int, Seq<char>)> {
    ms.map_values(|m: Match| match_view(m))
}

/// The mathematical content of one accumulated entry: file path and rows.
pub open spec fn entry_view(e: (String, Vec<Match>)) -> (Seq<char>, Seq<(int, Seq<char>)>) {
    (e.0@, match_views(e.1@))
}

/// The rows of one entry, each tagged with the entry's file path.
pub open spec fn tag_rows(k: Seq<char>, rows: Seq<(int, Seq<char>)>) -> Seq<
    (Seq<char>, int, Seq<char>),
> {
    rows.map_values(|x: (int, Seq<char>)| (k, x.0, x.1))
}

/// The multiset of (file, row, line) triples of one entry.
pub open spec fn entry_triples(e: (Seq<char>, Seq<(int, Seq<char>)>)) -> Multiset<
    (Seq<char>, int, Seq<char>),
> {
    tag_rows(e.0, e.1).to_multiset()
}

/// The multiset of (file, row, line) triples of the whole accumulation.
pub open spec fn triples(v: Seq<(Seq<char>, Seq<(int, Seq<char>)>)>) -> Multiset<
    (Seq<char>, int, Seq<char>),
>
    decreases v.len(),
{
    if v.len() == 0 {
        Multiset::empty()
    } else {
        triples(v.drop_last()).add(entry_triples(v.last()))
    }
}

/// No file path owns two entries.
pub open spec fn keys_unique(v: Seq<(Seq<char>, Seq<(int, Seq<char>)>)>) -> bool {
    forall|a: int, b: int| 0 <= a < b < v.len() ==> v[a].0 != v[b].0
}

/// Some entry is filed under `k`.
pub open spec fn has_file(v: Seq<(Seq<char>, Seq<(int, Seq<char>)>)>, k: Seq<char>) -> bool {
    exists|a: int| 0 <= a < v.len() && v[a].0 == k
}

/// The rows filed under `k`, or the empty sequence when there are none.
pub open spec fn file_rows(v: Seq<(Seq<char>, Seq<(int, Seq<char>)>)>, k: Seq<char>) -> Seq<
    (int, Seq<char>),
> {
    if has_file(v, k) {
        v[choose|a: int| 0 <= a < v.len() && v[a].0 == k].1
    } else {
        Seq::empty()
    }
}

/// The (file, row, line) triple that one delivered item carries.
pub open spec fn triple_of(it: (String, Match)) -> (Seq<char>, int, Seq<char>) {
    (it.0@, it.1.row as int, it.1.line@)
}

/// The triples of a whole delivery, in delivery order.
pub open spec fn triples_of_items(items: Seq<(String, Match)>) -> Seq<(Seq<char>, int, Seq<char>)> {
    items.map_values(|it: (String, Match)| triple_of(it))
}

/// The rows among `items` that belong to file `k`, in delivery order.
pub open spec fn rows_for(items: Seq<(Seq<char>, int, Seq<char>)>, k: Seq<char>) -> Seq<
    (int, Seq<char>),
>
    decreases items.len(),
{
    if items.len() == 0 {
        Seq::empty()
    } else {
        let init = rows_for(items.drop_last(), k);
        if items.last().0 == k {
            init.push((items.last().1, items.last().2))
        } else {
            init
        }
    }
}

/// With unique keys, the entry at `idx` is the one that `file_rows` reads.
proof fn lemma_file_rows_at(v: Seq<(Seq<char>, Seq<(int, Seq<char>)>)>, idx: int)
    requires
        keys_unique(v),
        0 <= idx < v.len(),
    ensures
        has_file(v, v[idx].0),
        file_rows(v, v[idx].0) == v[idx].1,
{
    assert(has_file(v, v[idx].0));
    let a = choose|a: int| 0 <= a < v.len() && v[a].0 == v[idx].0;
    if a != idx {
        assert(false);
    }
}

/// Appending a row to the entry at `idx` inserts exactly its triple.
proof fn lemma_triples_update_push(
    v: Seq<(Seq<char>, Seq<(int, Seq<char>)>)>,
    idx: int,
    rm: (int, Seq<char>),
)
    requires
        0 <= idx < v.len(),
    ensures
        triples(v.update(idx, (v[idx].0, v[idx].1.push(rm)))) == triples(v).insert(
            (v[idx].0, rm.0, rm.1),
        ),
    decreases v.len(),
{
    broadcast use vstd::seq_lib::group_to_multiset_ensures;
    broadcast use vstd::multiset::group_multiset_axioms;

    let e2 = (v[idx].0, v[idx].1.push(rm));
    let v2 = v.update(idx, e2);
    let t = (v[idx].0, rm.0, rm.1);
    if idx == v.len() - 1 {
        assert(v2.drop_last() =~= v.drop_last());
        assert(v2.last() == e2);
        assert(tag_rows(e2.0, e2.1) =~= tag_rows(v[idx].0, v[idx].1).push(t));
        assert(entry_triples(v2.last()) =~= entry_triples(v.last()).insert(t));
        assert(triples(v2) =~= triples(v).insert(t));
    } else {
        assert(v.drop_last()[idx] == v[idx]);
        assert(v2.drop_last() =~= v.drop_last().update(
            idx,
            (v.drop_last()[idx].0, v.drop_last()[idx].1.push(rm)),
        ));
        lemma_triples_update_push(v.drop_last(), idx, rm);
        assert(v2.last() == v.last());
        assert(triples(v2) =~= triples(v).insert(t));
    }
}

/// Replacing the entry at `idx` by one with the same key leaves every other
/// file's rows as they were, and keeps the keys unique.
proof fn lemma_update_other_files(
    v: Seq<(Seq<char>, Seq<(int, Seq<char>)>)>,
    idx: int,
    e2: (Seq<char>, Seq<(int, Seq<char>)>),
)
    requires
        keys_unique(v),
        0 <= idx < v.len(),
        e2.0 == v[idx].0,
    ensures
        keys_unique(v.update(idx, e2)),
        forall|k: Seq<char>| k != v[idx].0 ==> #[trigger] file_rows(v.update(idx, e2), k)
            == file_rows(v, k),
{
    let v2 = v.update(idx, e2);
    assert forall|k: Seq<char>| k != v[idx].0 implies #[trigger] file_rows(v2, k) == file_rows(
        v,
        k,
    ) by {
        if has_file(v, k) {
            let a = choose|a: int| 0 <= a < v.len() && v[a].0 == k;
            assert(v2[a].0 == k);
            assert(has_file(v2, k));
            let b = choose|b: int| 0 <= b < v2.len() && v2[b].0 == k;
            assert(v[b].0 == k);
            if a != b {
                assert(false);
            }
        } else {
            if has_file(v2, k) {
                let b = choose|b: int| 0 <= b < v2.len() && v2[b].0 == k;
                assert(v[b].0 == k);
                assert(false);
            }
        }
    }
}

/// Opening a new entry for an unseen file adds exactly its triples and keeps
/// every other file's rows as they were.
proof fn lemma_push_new_entry(
    v: Seq<(Seq<char>, Seq<(int, Seq<char>)>)>,
    e: (Seq<char>, Seq<(int, Seq<char>)>),
)
    requires
        keys_unique(v),
        !has_file(v, e.0),
    ensures
        keys_unique(v.push(e)),
        triples(v.push(e)) == triples(v).add(entry_triples(e)),
        file_rows(v.push(e), e.0) == e.1,
        forall|k: Seq<char>| k != e.0 ==> #[trigger] file_rows(v.push(e), k) == file_rows(v, k),
{
    let v2 = v.push(e);
    assert(v2.drop_last() =~= v);
    assert(v2.last() == e);
    assert forall|a: int, b: int| 0 <= a < b < v2.len() implies v2[a].0 != v2[b].0 by {
        if b == v.len() {
            assert(v2[a].0 == v[a].0);
        }
    }
    assert(v2[v.len() as int].0 == e.0);
    assert(has_file(v2, e.0));
    let b0 = choose|b: int| 0 <= b < v2.len() && v2[b].0 == e.0;
    if b0 != v.len() {
        assert(v[b0].0 == e.0);
        assert(false);
    }
    assert forall|k: Seq<char>| k != e.0 implies #[trigger] file_rows(v2, k) == file_rows(v, k) by {
        if has_file(v, k) {
            let a = choose|a: int| 0 <= a < v.len() && v[a].0 == k;
            assert(v2[a].0 == k);
            assert(has_file(v2, k));
            let b = choose|b: int| 0 <= b < v2.len() && v2[b].0 == k;
            if b == v.len() {
                assert(false);
            }
            assert(v[b].0 == k);
            if a != b {
                assert(false);
            }
        } else {
            if has_file(v2, k) {
                let b = choose|b: int| 0 <= b < v2.len() && v2[b].0 == k;
                if b == v.len() {
                    assert(false);
                }
                assert(v[b].0 == k);
                assert(false);
            }
        }
    }
}

/// The accumulated mapping from file paths to their ordered matches.
pub struct ResultSet {
    entries: Vec<(String, Vec<Match>)>,
}

impl View for ResultSet {
    type V = Seq<(Seq<char>, Seq<(int, Seq<char>)>)>;

    closed spec fn view(&self) -> Seq<(Seq<char>, Seq<(int, Seq<char>)>)> {
        self.entries@.map_values(|e: (String, Vec<Match>)| entry_view(e))
    }
}

impl ResultSet {
    /// An empty accumulation.
    pub fn new() -> (r: ResultSet)
        ensures
            r@ == Seq::<(Seq<char>, Seq<(int, Seq<char>)>)>::empty(),
            keys_unique(r@),
            triples(r@) == Multiset::<(Seq<char>, int, Seq<char>)>::empty(),
    {
        let r = ResultSet { entries: Vec::new() };
        proof {
            assert(r@ =~= Seq::<(Seq<char>, Seq<(int, Seq<char>)>)>::empty());
        }
        r
    }

    /// The index of the entry filed under `file`, if there is one.
    fn find_file_index(&self, file: &String) -> (r: Option<usize>)
        ensures
            r matches Some(i) ==> 0 <= i < self@.len() && self@[i as int].0 == file@,
            r is None ==> !has_file(self@, file@),
    {
        let mut i: usize = 0;
        while i < self.entries.len()
            invariant
                i <= self@.len(),
                self@.len() == self.entries@.len(),
                forall|a: int| 0 <= a < i ==> self@[a].0 != file@,
            decreases self@.len() - i,
        {
            if self.entries[i].0 == *file {
                proof {
                    assert(self@[i as int].0 == file@);
                }
                return Some(i);
            }
            proof {
                assert(self@[i as int].0 == self.entries@[i as int].0@);
            }
            i = i + 1;
        }
        None
    }

    /// Files one delivered match under its file path, appending to that
    /// file's ordered list: exactly one triple joins the accumulation, and
    /// every other file's rows are untouched.
    pub fn add(&mut self, file: String, m: Match)
        requires
            keys_unique(old(self)@),
        ensures
            keys_unique(final(self)@),
            triples(final(self)@) == triples(old(self)@).insert((file@, m.row as int, m.line@)),
            file_rows(final(self)@, file@) == file_rows(old(self)@, file@).push(
                (m.row as int, m.line@),
            ),
            forall|k: Seq<char>| k != file@ ==> #[trigger] file_rows(final(self)@, k) == file_rows(
                old(self)@,
                k,
            ),
    {
        let ghost rm = (m.row as int, m.line@);
        match self.find_file_index(&file) {
            Some(idx) => {
                let ghost v = old(self)@;
                let mut pair = self.entries.remove(idx);
                pair.1.push(m);
                self.entries.insert(idx, pair);
                proof {
                    let e2 = (v[idx as int].0, v[idx as int].1.push(rm));
                    assert(self.entries@ =~= old(self).entries@.update(idx as int, pair));
                    assert(entry_view(pair).1 =~= v[idx as int].1.push(rm));
                    assert(self@ =~= v.update(idx as int, e2));
                    lemma_file_rows_at(v, idx as int);
                    lemma_triples_update_push(v, idx as int, rm);
                    lemma_update_other_files(v, idx as int, e2);
                    assert(v[idx as int].0 == file@);
                    lemma_file_rows_at(self@, idx as int);
                }
            },
            None => {
                let ghost v = old(self)@;
                let mut ms: Vec<Match> = Vec::new();
                ms.push(m);
                self.entries.push((file, ms));
                proof {
                    broadcast use vstd::seq_lib::group_to_multiset_ensures;
                    broadcast use vstd::multiset::group_multiset_axioms;

                    let enew = self.entries@.last();
                    assert(entry_view(enew).1 =~= seq![rm]);
                    assert(self@ =~= v.push((enew.0@, seq![rm])));
                    lemma_push_new_entry(v, (enew.0@, seq![rm]));
                    assert(tag_rows(enew.0@, seq![rm]) =~= Seq::<
                        (Seq<char>, int, Seq<char>),
                    >::empty().push((enew.0@, rm.0, rm.1)));
                    assert(Seq::<(Seq<char>, int, Seq<char>)>::empty().to_multiset() =~= Multiset::<
                        (Seq<char>, int, Seq<char>),
                    >::empty());
                    assert(entry_triples((enew.0@, seq![rm])) =~= Multiset::<
                        (Seq<char>, int, Seq<char>),
                    >::empty().insert((enew.0@, rm.0, rm.1)));
                    assert(triples(self@) =~= triples(v).insert((file@, rm.0, rm.1)));
                    assert(file_rows(v, file@) =~= Seq::<(int, Seq<char>)>::empty());
                    assert(seq![rm] =~= file_rows(v, file@).push(rm));
                }
            },
        }
    }

    /// Hands the accumulated entries out, file by file.
    pub fn into_entries(self) -> (r: Vec<(String, Vec<Match>)>)
        ensures
            r@.map_values(|e: (String, Vec<Match>)| entry_view(e)) == self@,
    {
        self.entries
    }

    /// The number of files that own at least one match.
    pub fn file_count(&self) -> (n: usize)
        ensures
            n == self@.len(),
    {
        self.entries.len()
    }
}

/// Accumulates a whole delivery, in delivery order: the result holds exactly
/// the delivered triples, and each file's list is its own rows in delivery
/// order.
pub fn collect_results(items: Vec<(String, Match)>) -> (r: ResultSet)
    ensures
        keys_unique(r@),
        triples(r@) == triples_of_items(items@).to_multiset(),
        forall|k: Seq<char>| #[trigger] file_rows(r@, k) == rows_for(triples_of_items(items@), k),
{
    let ghost orig = items@;
    let mut remaining = items;
    let mut rs = ResultSet::new();
    let ghost mut done: Seq<(String, Match)> = Seq::empty();
    proof {
        broadcast use vstd::seq_lib::group_to_multiset_ensures;

        assert(triples_of_items(done) =~= Seq::<(Seq<char>, int, Seq<char>)>::empty());
        assert(triples_of_items(done).to_multiset() =~= Multiset::<
            (Seq<char>, int, Seq<char>),
        >::empty());
        assert(forall|k: Seq<char>| #[trigger] rows_for(triples_of_items(done), k) == Seq::<
            (int, Seq<char>),
        >::empty());
    }
    while remaining.len() > 0
        invariant
            orig == done + remaining@,
            keys_unique(rs@),
            triples(rs@) == triples_of_items(done).to_multiset(),
            forall|k: Seq<char>| #[trigger] file_rows(rs@, k) == rows_for(
                triples_of_items(done),
                k,
            ),
        decreases remaining@.len(),
    {
        let it = remaining.remove(0);
        let ghost t = triple_of(it);
        let ghost done2 = done.push(it);
        proof {
            broadcast use vstd::seq_lib::group_to_multiset_ensures;

            assert(done2 + remaining@ =~= orig);
            assert(triples_of_items(done2) =~= triples_of_items(done).push(t));
            assert(triples_of_items(done2).to_multiset() == triples_of_items(
                done,
            ).to_multiset().insert(t));
            assert(triples_of_items(done2).drop_last() =~= triples_of_items(done));
        }
        let (f, m) = it;
        proof {
            assert(f@ == t.0 && m.row as int == t.1 && m.line@ == t.2);
        }
        rs.add(f, m);
        proof {
            assert forall|k: Seq<char>| #[trigger] file_rows(rs@, k) == rows_for(
                triples_of_items(done2),
                k,
            ) by {
                if k == t.0 {
                } else {
                }
            }
            done = done2;
        }
    }
    proof {
        assert(done =~= orig);
    }
    rs
}

/// Law: the accumulated multiset of (file, row, line) triples is a function
/// of the delivered items alone — two deliveries of the same items, in any
/// order, accumulate the same multiset.
pub proof fn lemma_delivery_order_immaterial(
    items1: Seq<(String, Match)>,
    items2: Seq<(String, Match)>,
    v1: Seq<(Seq<char>, Seq<(int, Seq<char>)>)>,
    v2: Seq<(Seq<char>, Seq<(int, Seq<char>)>)>,
)
    requires
        triples_of_items(items1).to_multiset() == triples_of_items(items2).to_multiset(),
        triples(v1) == triples_of_items(items1).to_multiset(),
        triples(v2) == triples_of_items(items2).to_multiset(),
    ensures
        triples(v1) == triples(v2),
{
}

} // verus!
