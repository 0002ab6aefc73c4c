//! Per-binding `export` tables: point id -> protocol address.
//!
//! A table keeps its rows in ascending id order (the byte order of the
//! ids), so no id occurs twice.

use vstd::prelude::*;

use crate::text::{bytes_of, lex_less, lemma_lex_irreflexive, lemma_lex_total, lemma_lex_transitive, str_less};
use crate::types::{BacnetObjectType, DataType, ModbusExportSpace};

verus! {

/// One row in a Modbus `export:` map.
#[derive(Debug, Clone, Copy, PartialEq, Eq, Structural)]
pub struct ModbusExportEntry {
    /// Target table.
    pub space: ModbusExportSpace,
    /// Zero-based address.
    pub address: u16,
    /// Analog only. `raw ~ eng * scale`.
    pub scale: u32,
    /// Analog only.
    pub data_type: DataType,
}

/// Placeholder row of an OPC UA `export:` map (`temperature: {}`).
#[derive(Debug, Clone, Copy, PartialEq, Eq, Structural)]
pub struct OpcuaExportEntry {}

/// One row in a BACnet `export:` map.
#[derive(Debug, Clone, Copy, PartialEq, Eq, Structural)]
pub struct BacnetExportEntry {
    /// ASHRAE object type.
    pub object: BacnetObjectType,
    /// Object instance.
    pub instance: u32,
}

/// Whether the ids of a row sequence are pairwise distinct.
pub open spec fn distinct_ids<E>(rows: Seq<(String, E)>) -> bool {
    forall|i: int, j: int|
        0 <= i < rows.len() && 0 <= j < rows.len() && i != j ==> #[trigger] rows[i].0@ != #[trigger] rows[j].0@
}

/// Whether some row has id `id`.
pub open spec fn has_id<E>(rows: Seq<(String, E)>, id: Seq<char>) -> bool {
    exists|i: int| 0 <= i < rows.len() && #[trigger] rows[i].0@ == id
}

/// Whether id `a` sorts before id `b` (byte order of the ids).
pub open spec fn id_before(a: Seq<char>, b: Seq<char>) -> bool {
    lex_less(bytes_of(a), bytes_of(b))
}

/// Whether the ids of a row sequence strictly ascend.
pub open spec fn ascending_ids<E>(rows: Seq<(String, E)>) -> bool {
    forall|i: int, j: int| 0 <= i < j < rows.len() ==> id_before(#[trigger] rows[i].0@, #[trigger] rows[j].0@)
}

/// Whether `p` is the place of `id` among `rows`: every row before it
/// sorts before `id`, every row from it on sorts after.
pub open spec fn fits_at<E>(rows: Seq<(String, E)>, id: Seq<char>, p: int) -> bool {
    &&& 0 <= p <= rows.len()
    &&& forall|i: int| 0 <= i < p ==> id_before(#[trigger] rows[i].0@, id)
    &&& forall|i: int| p <= i < rows.len() ==> id_before(id, #[trigger] rows[i].0@)
}

/// The place of `id` among `rows`.
pub open spec fn slot<E>(rows: Seq<(String, E)>, id: Seq<char>) -> int {
    choose|p: int| fits_at(rows, id, p)
}

/// `rows` with `id` set to `v`: the row of `id` takes `v`, or `(id, v)`
/// is inserted at its place in id order.
pub open spec fn put<E>(rows: Seq<(String, E)>, id: String, v: E) -> Seq<(String, E)> {
    if has_id(rows, id@) {
        rows.map_values(|r: (String, E)| if r.0@ == id@ { (r.0, v) } else { r })
    } else {
        rows.insert(slot(rows, id@), (id, v))
    }
}

/// Different ids have different bytes.
proof fn lemma_bytes_differ(a: Seq<char>, b: Seq<char>)
    requires
        a != b,
    ensures
        bytes_of(a) != bytes_of(b),
{
    vstd::utf8::encode_utf8_decode_utf8(a);
    vstd::utf8::encode_utf8_decode_utf8(b);
}

/// Ascending ids are distinct.
pub proof fn lemma_ascending_distinct<E>(rows: Seq<(String, E)>)
    requires
        ascending_ids(rows),
    ensures
        distinct_ids(rows),
{
    assert forall|i: int, j: int|
        0 <= i < rows.len() && 0 <= j < rows.len() && i != j implies #[trigger] rows[i].0@ != #[trigger] rows[j].0@ by {
        lemma_lex_irreflexive(bytes_of(rows[i].0@));
        if i < j {
            assert(id_before(rows[i].0@, rows[j].0@));
        } else {
            assert(id_before(rows[j].0@, rows[i].0@));
        }
    }
}

/// An id has at most one place.
proof fn lemma_slot_unique<E>(rows: Seq<(String, E)>, id: Seq<char>, p: int)
    requires
        fits_at(rows, id, p),
    ensures
        slot(rows, id) == p,
{
    let q = slot(rows, id);
    assert(fits_at(rows, id, q));
    if q != p {
        let m = if p < q { p } else { q };
        assert(id_before(rows[m].0@, id));
        assert(id_before(id, rows[m].0@));
        lemma_lex_transitive(bytes_of(rows[m].0@), bytes_of(id), bytes_of(rows[m].0@));
        lemma_lex_irreflexive(bytes_of(rows[m].0@));
    }
}

/// Inserting a row at its place keeps the ids ascending.
proof fn lemma_insert_ascending<E>(rows: Seq<(String, E)>, id: String, v: E, p: int)
    requires
        ascending_ids(rows),
        fits_at(rows, id@, p),
    ensures
        ascending_ids(rows.insert(p, (id, v))),
        !has_id(rows, id@),
{
    let t = rows.insert(p, (id, v));
    rows.insert_ensures(p, (id, v));
    assert forall|i: int, j: int| 0 <= i < j < t.len() implies id_before(#[trigger] t[i].0@, #[trigger] t[j].0@) by {
        if j < p {
            assert(t[i] == rows[i] && t[j] == rows[j]);
        } else if j == p {
            assert(t[i] == rows[i]);
        } else if i < p {
            assert(t[i] == rows[i] && t[j] == rows[j - 1]);
            lemma_lex_transitive(bytes_of(rows[i].0@), bytes_of(id@), bytes_of(rows[j - 1].0@));
        } else if i == p {
            assert(t[j] == rows[j - 1]);
        } else {
            assert(t[i] == rows[i - 1] && t[j] == rows[j - 1]);
        }
    }
    if has_id(rows, id@) {
        let k = choose|k: int| 0 <= k < rows.len() && #[trigger] rows[k].0@ == id@;
        lemma_lex_irreflexive(bytes_of(id@));
        if k < p {
            assert(id_before(rows[k].0@, id@));
        } else {
            assert(id_before(id@, rows[k].0@));
        }
    }
}

/// Point id -> entry, with unique ids.
#[derive(Debug)]
pub struct Export<E: Copy> {
    rows: Vec<(String, E)>,
}

impl<E: Copy> Export<E> {
    /// The rows, in table order.
    pub closed spec fn entries(self) -> Seq<(String, E)> {
        self.rows@
    }

    #[verifier::type_invariant]
    spec fn sorted_ids(self) -> bool {
        ascending_ids(self.rows@)
    }

    /// Whether the table has a row for `id`.
    pub open spec fn has(self, id: Seq<char>) -> bool {
        exists|i: int| 0 <= i < self.entries().len() && #[trigger] self.entries()[i].0@ == id
    }

    /// An empty table.
    pub fn new() -> (t: Self)
        ensures
            t.entries().len() == 0,
    {
        Export { rows: Vec::new() }
    }

    /// Number of rows (the ids of which ascend, so no two are equal).
    pub fn len(&self) -> (n: usize)
        ensures
            n == self.entries().len(),
            ascending_ids(self.entries()),
            distinct_ids(self.entries()),
    {
        proof {
            use_type_invariant(self);
            lemma_ascending_distinct(self.rows@);
        }
        self.rows.len()
    }

    /// Whether the table has no rows.
    pub fn is_empty(&self) -> (b: bool)
        ensures
            b == (self.entries().len() == 0),
    {
        self.rows.len() == 0
    }

    /// Id of row `i`.
    pub fn id(&self, i: usize) -> (s: &String)
        requires
            i < self.entries().len(),
        ensures
            *s == self.entries()[i as int].0,
    {
        &self.rows[i].0
    }

    /// Entry of row `i`.
    pub fn entry(&self, i: usize) -> (e: E)
        requires
            i < self.entries().len(),
        ensures
            e == self.entries()[i as int].1,
    {
        self.rows[i].1
    }

    /// Set `id` to `value`: the row of `id` keeps its place and takes the
    /// new value, or a new row is inserted at its place in id order.
    pub fn insert(&mut self, id: String, value: E)
        ensures
            final(self).entries() == put(old(self).entries(), id, value),
            ascending_ids(final(self).entries()),
    {
        proof {
            use_type_invariant(&*self);
        }
        let mut i: usize = 0;
        while i < self.rows.len()
            invariant
                0 <= i <= self.rows@.len(),
                self.rows@ == old(self).entries(),
                ascending_ids(self.rows@),
                forall|j: int| 0 <= j < i ==> id_before(#[trigger] self.rows@[j].0@, id@),
            decreases self.rows@.len() - i,
        {
            if self.rows[i].0 == id {
                let ghost before = self.rows@;
                let key = self.rows[i].0.clone();
                let mut rows: Vec<(String, E)> = Vec::new();
                std::mem::swap(&mut rows, &mut self.rows);
                rows.set(i, (key, value));
                proof {
                    assert(has_id(before, id@)) by {
                        assert(before[i as int].0@ == id@);
                    }
                    assert forall|a: int, b: int| 0 <= a < b < rows@.len() implies id_before(
                        #[trigger] rows@[a].0@,
                        #[trigger] rows@[b].0@,
                    ) by {
                        assert(id_before(before[a].0@, before[b].0@));
                    }
                }
                self.rows = rows;
                assert(self.rows@ =~= put(old(self).entries(), id, value));
                return;
            }
            if str_less(id.as_str(), self.rows[i].0.as_str()) {
                let ghost before = self.rows@;
                proof {
                    assert forall|j: int| i <= j < before.len() implies id_before(id@, #[trigger] before[j].0@) by {
                        if j > i {
                            assert(id_before(before[i as int].0@, before[j].0@));
                            lemma_lex_transitive(bytes_of(id@), bytes_of(before[i as int].0@), bytes_of(before[j].0@));
                        }
                    }
                    assert(fits_at(before, id@, i as int));
                    lemma_insert_ascending(before, id, value, i as int);
                    lemma_slot_unique(before, id@, i as int);
                }
                let mut rows: Vec<(String, E)> = Vec::new();
                std::mem::swap(&mut rows, &mut self.rows);
                rows.insert(i, (id, value));
                self.rows = rows;
                return;
            }
            proof {
                lemma_bytes_differ(self.rows@[i as int].0@, id@);
                lemma_lex_total(bytes_of(self.rows@[i as int].0@), bytes_of(id@));
            }
            i = i + 1;
        }
        let ghost before = self.rows@;
        proof {
            assert(fits_at(before, id@, before.len() as int));
            lemma_insert_ascending(before, id, value, before.len() as int);
            lemma_slot_unique(before, id@, before.len() as int);
        }
        let mut rows: Vec<(String, E)> = Vec::new();
        std::mem::swap(&mut rows, &mut self.rows);
        let n = rows.len();
        rows.insert(n, (id, value));
        self.rows = rows;
    }

    /// Entry of `id`, if the table has one.
    pub fn get(&self, id: &str) -> (r: Option<E>)
        ensures
            match r {
                Some(e) => exists|i: int|
                    0 <= i < self.entries().len() && #[trigger] self.entries()[i].0@ == id@
                        && self.entries()[i].1 == e,
                None => !self.has(id@),
            },
    {
        let mut i: usize = 0;
        while i < self.rows.len()
            invariant
                0 <= i <= self.rows@.len(),
                self.rows@ == self.entries(),
                forall|j: int| 0 <= j < i ==> #[trigger] self.rows@[j].0@ != id@,
            decreases self.rows@.len() - i,
        {
            if crate::text::str_eq(self.rows[i].0.as_str(), id) {
                return Some(self.rows[i].1);
            }
            i = i + 1;
        }
        None
    }

    /// A copy with the same rows.
    pub fn copy(&self) -> (t: Self)
        ensures
            t.entries() == self.entries(),
    {
        proof {
            use_type_invariant(self);
        }
        let mut rows: Vec<(String, E)> = Vec::new();
        for i in 0..self.rows.len()
            invariant
                rows@ == self.rows@.subrange(0, i as int),
                ascending_ids(self.rows@),
        {
            let key = self.rows[i].0.clone();
            rows.push((key, self.rows[i].1));
        }
        assert(rows@ =~= self.rows@);
        Export { rows }
    }
}

/// An id that no row has fits somewhere among ascending rows.
proof fn lemma_slot_exists<E>(rows: Seq<(String, E)>, id: Seq<char>)
    requires
        ascending_ids(rows),
        !has_id(rows, id),
    ensures
        fits_at(rows, id, slot(rows, id)),
    decreases rows.len(),
{
    if rows.len() == 0 {
        assert(fits_at(rows, id, 0));
    } else {
        let r = rows.drop_last();
        let n = r.len() as int;
        let last = rows[n].0@;
        assert(!has_id(r, id)) by {
            if has_id(r, id) {
                let k = choose|k: int| 0 <= k < r.len() && #[trigger] r[k].0@ == id;
                assert(rows[k].0@ == id);
            }
        }
        assert(ascending_ids(r)) by {
            assert forall|i: int, j: int| 0 <= i < j < r.len() implies id_before(#[trigger] r[i].0@, #[trigger] r[j].0@) by {
                assert(r[i] == rows[i] && r[j] == rows[j]);
            }
        }
        lemma_slot_exists(r, id);
        let q = slot(r, id);
        assert(last != id) by {
            assert(rows[n].0@ == last);
        }
        lemma_bytes_differ(last, id);
        lemma_lex_total(bytes_of(last), bytes_of(id));
        if q < n {
            assert(id_before(id, r[q].0@));
            assert(id_before(rows[q].0@, last));
            lemma_lex_transitive(bytes_of(id), bytes_of(rows[q].0@), bytes_of(last));
            assert(fits_at(rows, id, q)) by {
                assert forall|i: int| 0 <= i < q implies id_before(#[trigger] rows[i].0@, id) by {
                    assert(r[i] == rows[i]);
                }
                assert forall|i: int| q <= i < rows.len() implies id_before(id, #[trigger] rows[i].0@) by {
                    if i < n {
                        assert(r[i] == rows[i]);
                    }
                }
            }
            lemma_slot_unique(rows, id, q);
        } else if id_before(id, last) {
            assert(fits_at(rows, id, n)) by {
                assert forall|i: int| 0 <= i < n implies id_before(#[trigger] rows[i].0@, id) by {
                    assert(r[i] == rows[i]);
                }
            }
            lemma_slot_unique(rows, id, n);
        } else {
            assert(fits_at(rows, id, n + 1)) by {
                assert forall|i: int| 0 <= i < n + 1 implies id_before(#[trigger] rows[i].0@, id) by {
                    if i < n {
                        assert(r[i] == rows[i]);
                    }
                }
            }
            lemma_slot_unique(rows, id, n + 1);
        }
    }
}

/// After setting `id` to `v`, the table has exactly one row for `id` and
/// it holds `v`; ids stay ascending, and every other row is kept.
pub proof fn lemma_put_then_find<E>(rows: Seq<(String, E)>, id: String, v: E)
    requires
        ascending_ids(rows),
    ensures
        ascending_ids(put(rows, id, v)),
        distinct_ids(put(rows, id, v)),
        exists|i: int| 0 <= i < put(rows, id, v).len() && #[trigger] put(rows, id, v)[i].0@ == id@ && put(rows, id, v)[i].1 == v,
        forall|i: int| 0 <= i < rows.len() && rows[i].0@ != id@ ==> put(rows, id, v).contains(#[trigger] rows[i]),
        put(rows, id, v).len() == rows.len() + if has_id(rows, id@) { 0int } else { 1int },
{
    let p = put(rows, id, v);
    if has_id(rows, id@) {
        let k = choose|k: int| 0 <= k < rows.len() && #[trigger] rows[k].0@ == id@;
        assert(p[k].0@ == id@ && p[k].1 == v);
        assert(exists|i: int| 0 <= i < p.len() && #[trigger] p[i].0@ == id@ && p[i].1 == v);
        assert forall|a: int, b: int| 0 <= a < b < p.len() implies id_before(#[trigger] p[a].0@, #[trigger] p[b].0@) by {
            assert(p[a].0@ == rows[a].0@ && p[b].0@ == rows[b].0@);
        }
        assert forall|i: int| 0 <= i < rows.len() && rows[i].0@ != id@ implies p.contains(#[trigger] rows[i]) by {
            assert(p[i] == rows[i]);
        }
    } else {
        lemma_slot_exists(rows, id@);
        let q = slot(rows, id@);
        lemma_insert_ascending(rows, id, v, q);
        rows.insert_ensures(q, (id, v));
        assert(p[q].0@ == id@ && p[q].1 == v);
        assert(exists|i: int| 0 <= i < p.len() && #[trigger] p[i].0@ == id@ && p[i].1 == v);
        assert forall|i: int| 0 <= i < rows.len() && rows[i].0@ != id@ implies p.contains(#[trigger] rows[i]) by {
            if i < q {
                assert(p[i] == rows[i]);
            } else {
                assert(p[i + 1] == rows[i]);
            }
        }
    }
    lemma_ascending_distinct(p);
}

} // verus!
