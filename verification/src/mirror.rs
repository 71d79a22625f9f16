//! The local mirror: three row collections with insert-or-replace writes.
//!
//! Rows are kept keyed by their natural key; a write with a key already
//! present fully overwrites that row, a write with a new key appends. The
//! store's contents are modelled as a map from key to row (`row_map`), and
//! the write operations are characterised against that model. Writing is
//! row by row: a caller that stops mid-collection leaves the earlier rows
//! written.

use vstd::prelude::*;
use crate::model::{Catalog, CatalogResponse, Keyed, Schema, SchemaResponse, Table, TableResponse};
use crate::policy::spec_excluded;
use crate::policy::include_catalog;
use crate::text::{contains_seq, str_contains};

verus! {

/// No two rows share a natural key.
pub open spec fn unique_keys<T: Keyed>(rows: Seq<T>) -> bool {
    forall|i: int, j: int| 0 <= i < j < rows.len() ==> rows[i].key() != rows[j].key()
}

/// The rows as a map from natural key to row; a later row wins over an
/// earlier one with the same key.
pub open spec fn row_map<T: Keyed>(rows: Seq<T>) -> Map<T::K, T>
    decreases rows.len(),
{
    if rows.len() == 0 {
        Map::empty()
    } else {
        row_map(rows.drop_last()).insert(rows.last().key(), rows.last())
    }
}

/// The map after insert-or-replace of every record of `records`, in order.
pub open spec fn written<T: Keyed>(m: Map<T::K, T>, records: Seq<T>) -> Map<T::K, T>
    decreases records.len(),
{
    if records.len() == 0 {
        m
    } else {
        written(m, records.drop_last()).insert(records.last().key(), records.last())
    }
}

/// Whether some record of `records` has key `k`.
pub open spec fn has_key<T: Keyed>(records: Seq<T>, k: T::K) -> bool {
    exists|i: int| 0 <= i < records.len() && records[i].key() == k
}

/// The last record of `records` whose key is `k`.
pub open spec fn last_with_key<T: Keyed>(records: Seq<T>, k: T::K) -> T
    decreases records.len(),
{
    if records.len() == 0 {
        arbitrary()
    } else if records.last().key() == k {
        records.last()
    } else {
        last_with_key(records.drop_last(), k)
    }
}

/// What a write leaves at each key: the last written record with that key,
/// or whatever the map held before if no record has the key.
pub proof fn lemma_written_lookup<T: Keyed>(m: Map<T::K, T>, records: Seq<T>, k: T::K)
    ensures
        has_key(records, k) ==> written(m, records).dom().contains(k) && written(m, records)[k]
            == last_with_key(records, k),
        !has_key(records, k) ==> (written(m, records).dom().contains(k) <==> m.dom().contains(k)),
        !has_key(records, k) && m.dom().contains(k) ==> written(m, records)[k] == m[k],
    decreases records.len(),
{
    if records.len() == 0 {
    } else {
        let prefix = records.drop_last();
        lemma_written_lookup(m, prefix, k);
        if records.last().key() == k {
        } else {
            assert(has_key(records, k) ==> has_key(prefix, k)) by {
                if has_key(records, k) {
                    let i = choose|i: int|
                        0 <= i < records.len() && records[i].key() == k;
                    assert(prefix[i] == records[i]);
                }
            }
            assert(has_key(prefix, k) ==> has_key(records, k)) by {
                if has_key(prefix, k) {
                    let i = choose|i: int| 0 <= i < prefix.len() && prefix[i].key() == k;
                    assert(records[i] == prefix[i]);
                }
            }
        }
    }
}

/// Law: writing the same collection twice leaves the map exactly as one
/// write does — the mirror write is idempotent.
pub proof fn lemma_write_idempotent<T: Keyed>(m: Map<T::K, T>, records: Seq<T>)
    ensures
        written(written(m, records), records) == written(m, records),
{
    let w = written(m, records);
    assert forall|k: T::K| #[trigger]
        written(w, records).dom().contains(k) <==> w.dom().contains(k) by {
        lemma_written_lookup(m, records, k);
        lemma_written_lookup(w, records, k);
    }
    assert forall|k: T::K| written(w, records).dom().contains(k) implies #[trigger] written(
        w,
        records,
    )[k] == w[k] by {
        lemma_written_lookup(m, records, k);
        lemma_written_lookup(w, records, k);
    }
    assert(written(w, records) =~= w);
}

/// The catalogs of `rows` that the exclusion policy retains, in order.
pub open spec fn retained(rows: Seq<Catalog>) -> Seq<Catalog>
    decreases rows.len(),
{
    if rows.len() == 0 {
        Seq::empty()
    } else if spec_excluded(rows.last()) {
        retained(rows.drop_last())
    } else {
        retained(rows.drop_last()).push(rows.last())
    }
}

/// Law: the policy retains no excluded catalog, so an excluded catalog
/// contributes no row to a catalog write.
pub proof fn lemma_retained_not_excluded(rows: Seq<Catalog>)
    ensures
        forall|i: int| 0 <= i < retained(rows).len() ==> !spec_excluded(
            #[trigger] retained(rows)[i],
        ),
    decreases rows.len(),
{
    if rows.len() == 0 {
    } else {
        let prefix = rows.drop_last();
        lemma_retained_not_excluded(prefix);
        assert forall|i: int| 0 <= i < retained(rows).len() implies !spec_excluded(
            #[trigger] retained(rows)[i],
        ) by {
            if !spec_excluded(rows.last()) {
                assert(retained(rows) == retained(prefix).push(rows.last()));
                if i < retained(prefix).len() {
                    assert(retained(rows)[i] == retained(prefix)[i]);
                } else {
                    assert(retained(rows)[i] == rows.last());
                }
            }
        }
    }
}

/// Law: a write never touches a key that none of its records carries.
/// In particular, when every catalog of `rows` that shares an excluded
/// catalog's name is itself excluded, a catalog write of `rows` leaves the
/// store at that name exactly as it was.
pub proof fn lemma_excluded_catalog_not_written(
    m: Map<Seq<char>, Catalog>,
    rows: Seq<Catalog>,
    c: Catalog,
)
    requires
        spec_excluded(c),
        forall|i: int| 0 <= i < rows.len() && (#[trigger] rows[i]).name@ == c.name@
            ==> spec_excluded(rows[i]),
    ensures
        written(m, retained(rows)).dom().contains(c.name@) <==> m.dom().contains(c.name@),
        m.dom().contains(c.name@) ==> written(m, retained(rows))[c.name@] == m[c.name@],
{
    lemma_retained_in_rows(rows);
    lemma_retained_not_excluded(rows);
    assert(!has_key(retained(rows), c.name@)) by {
        if has_key(retained(rows), c.name@) {
            let i = choose|i: int|
                0 <= i < retained(rows).len() && retained(rows)[i].key() == c.name@;
            let j = choose|j: int|
                0 <= j < rows.len() && rows[j] == retained(rows)[i];
            assert(spec_excluded(rows[j]));
        }
    }
    lemma_written_lookup(m, retained(rows), c.name@);
}

/// The policy never adds rows: the retained catalogs are at most as many.
pub proof fn lemma_retained_len(rows: Seq<Catalog>)
    ensures
        retained(rows).len() <= rows.len(),
    decreases rows.len(),
{
    if rows.len() == 0 {
    } else {
        lemma_retained_len(rows.drop_last());
    }
}

/// Every retained catalog is one of the rows it was drawn from.
pub proof fn lemma_retained_in_rows(rows: Seq<Catalog>)
    ensures
        forall|i: int| 0 <= i < retained(rows).len() ==> exists|j: int|
            0 <= j < rows.len() && rows[j] == #[trigger] retained(rows)[i],
    decreases rows.len(),
{
    if rows.len() == 0 {
    } else {
        let prefix = rows.drop_last();
        lemma_retained_in_rows(prefix);
        assert forall|i: int| 0 <= i < retained(rows).len() implies exists|j: int|
            0 <= j < rows.len() && rows[j] == #[trigger] retained(rows)[i] by {
            if i < retained(prefix).len() {
                let j = choose|j: int|
                    0 <= j < prefix.len() && prefix[j] == retained(prefix)[i];
                assert(rows[j] == retained(rows)[i]);
            } else {
                assert(rows[rows.len() - 1] == retained(rows)[i]);
            }
        }
    }
}

/// The rows after insert-or-replace of one record: the first row sharing
/// its key is overwritten in place, or the record is appended.
pub open spec fn seq_upsert<T: Keyed>(rows: Seq<T>, r: T) -> Seq<T>
    decreases rows.len(),
{
    if rows.len() == 0 {
        seq![r]
    } else if rows[0].key() == r.key() {
        seq![r] + rows.skip(1)
    } else {
        seq![rows[0]] + seq_upsert(rows.skip(1), r)
    }
}

/// The rows after insert-or-replace of every record of `records`, in order.
pub open spec fn upserted_all<T: Keyed>(rows: Seq<T>, records: Seq<T>) -> Seq<T>
    decreases records.len(),
{
    if records.len() == 0 {
        rows
    } else {
        seq_upsert(upserted_all(rows, records.drop_last()), records.last())
    }
}

/// When the first row sharing the key stands at `i`, the upsert is an
/// in-place update there.
proof fn lemma_seq_upsert_found<T: Keyed>(rows: Seq<T>, i: int, r: T)
    requires
        0 <= i < rows.len(),
        rows[i].key() == r.key(),
        forall|j: int| 0 <= j < i ==> (#[trigger] rows[j]).key() != r.key(),
    ensures
        seq_upsert(rows, r) == rows.update(i, r),
    decreases rows.len(),
{
    if i == 0 {
        assert(seq_upsert(rows, r) =~= rows.update(0, r));
    } else {
        let tail = rows.skip(1);
        assert(tail[i - 1] == rows[i]);
        assert(forall|j: int| 0 <= j < i - 1 ==> (#[trigger] tail[j]).key() != r.key());
        lemma_seq_upsert_found(tail, i - 1, r);
        assert(seq_upsert(rows, r) =~= rows.update(i, r));
    }
}

/// When no row shares the key, the upsert is an append.
proof fn lemma_seq_upsert_absent<T: Keyed>(rows: Seq<T>, r: T)
    requires
        forall|j: int| 0 <= j < rows.len() ==> (#[trigger] rows[j]).key() != r.key(),
    ensures
        seq_upsert(rows, r) == rows.push(r),
    decreases rows.len(),
{
    if rows.len() == 0 {
        assert(seq_upsert(rows, r) =~= rows.push(r));
    } else {
        let tail = rows.skip(1);
        lemma_seq_upsert_absent(tail, r);
        assert(seq_upsert(rows, r) =~= rows.push(r));
    }
}

/// The index of the row sharing `record`'s key, if one exists.
fn find_same_key<T: Keyed>(rows: &Vec<T>, record: &T) -> (r: Option<usize>)
    ensures
        match r {
            Some(i) => i < rows@.len() && rows@[i as int].key() == record.key() && forall|j: int|
                0 <= j < i ==> (#[trigger] rows@[j]).key() != record.key(),
            None => forall|j: int| 0 <= j < rows@.len() ==> (#[trigger] rows@[j]).key()
                != record.key(),
        },
{
    let mut i: usize = 0;
    while i < rows.len()
        invariant
            i <= rows@.len(),
            forall|j: int| 0 <= j < i ==> (#[trigger] rows@[j]).key() != record.key(),
        decreases rows@.len() - i,
    {
        if rows[i].same_key(record) {
            return Some(i);
        }
        i += 1;
    }
    None
}

/// Replacing the row at `i` with one of equal key updates the map at that
/// key and keeps the keys unique.
proof fn lemma_row_map_update<T: Keyed>(rows: Seq<T>, i: int, r: T)
    requires
        unique_keys(rows),
        0 <= i < rows.len(),
        rows[i].key() == r.key(),
    ensures
        unique_keys(rows.update(i, r)),
        row_map(rows.update(i, r)) == row_map(rows).insert(r.key(), r),
    decreases rows.len(),
{
    let upd = rows.update(i, r);
    assert(forall|p: int, q: int| 0 <= p < q < upd.len() ==> upd[p].key() != upd[q].key());
    if i == rows.len() - 1 {
        assert(upd.drop_last() =~= rows.drop_last());
        assert(row_map(rows).insert(r.key(), r) =~= row_map(rows.drop_last()).insert(
            r.key(),
            r,
        ));
        assert(row_map(upd) == row_map(rows).insert(r.key(), r));
    } else {
        assert(upd.drop_last() =~= rows.drop_last().update(i, r));
        assert(upd.last() == rows.last());
        assert(unique_keys(rows.drop_last()));
        lemma_row_map_update(rows.drop_last(), i, r);
        assert(rows.last().key() != r.key());
        assert(row_map(rows.drop_last()).insert(r.key(), r).insert(
            rows.last().key(),
            rows.last(),
        ) =~= row_map(rows.drop_last()).insert(rows.last().key(), rows.last()).insert(
            r.key(),
            r,
        ));
        assert(row_map(upd) == row_map(rows).insert(r.key(), r));
    }
}

/// Insert-or-replace one record: the row sharing its key is overwritten in
/// place, or the record is appended if its key is new.
fn upsert<T: Keyed>(rows: &mut Vec<T>, record: T)
    requires
        unique_keys(old(rows)@),
    ensures
        unique_keys(final(rows)@),
        final(rows)@ == seq_upsert(old(rows)@, record),
        row_map(final(rows)@) == row_map(old(rows)@).insert(record.key(), record),
{
    let ghost k = record.key();
    match find_same_key(rows, &record) {
        Some(i) => {
            let ghost before = rows@;
            let ghost rec = record;
            rows.remove(i);
            rows.insert(i, record);
            proof {
                assert(rows@ =~= before.update(i as int, rec));
                lemma_row_map_update(before, i as int, rec);
                lemma_seq_upsert_found(before, i as int, rec);
            }
        },
        None => {
            let ghost before = rows@;
            let ghost rec = record;
            rows.push(record);
            proof {
                assert(rows@.drop_last() =~= before);
                assert(unique_keys(rows@));
                assert(row_map(rows@) == row_map(before).insert(k, rec));
                lemma_seq_upsert_absent(before, rec);
            }
        },
    }
}

/// The schema rows a response carries; an absent array carries none.
pub open spec fn schema_rows(r: SchemaResponse) -> Seq<Schema> {
    match r.schemas {
        Some(rows) => rows@,
        None => Seq::empty(),
    }
}

/// The table rows a response carries; an absent array carries none.
pub open spec fn table_rows(r: TableResponse) -> Seq<Table> {
    match r.tables {
        Some(rows) => rows@,
        None => Seq::empty(),
    }
}

/// Whether a catalog name matches an optional search term.
pub open spec fn name_matches(c: Catalog, term: Option<Seq<char>>) -> bool {
    match term {
        None => true,
        Some(t) => contains_seq(c.name@, t),
    }
}

/// The names of the catalogs matching `term`, in row order.
pub open spec fn searched_names(rows: Seq<Catalog>, term: Option<Seq<char>>) -> Seq<Seq<char>>
    decreases rows.len(),
{
    if rows.len() == 0 {
        Seq::empty()
    } else if name_matches(rows.last(), term) {
        searched_names(rows.drop_last(), term).push(rows.last().name@)
    } else {
        searched_names(rows.drop_last(), term)
    }
}

/// The local mirror of the metadata tree: one flat row collection per
/// level, each keyed by its natural key.
pub struct MirrorStore {
    pub catalogs: Vec<Catalog>,
    pub schemas: Vec<Schema>,
    pub tables: Vec<Table>,
}

impl MirrorStore {
    /// Keys are unique within each collection.
    pub open spec fn wf(self) -> bool {
        unique_keys(self.catalogs@) && unique_keys(self.schemas@) && unique_keys(self.tables@)
    }

    /// The catalog rows as a map keyed by name.
    pub open spec fn catalog_map(self) -> Map<Seq<char>, Catalog> {
        row_map(self.catalogs@)
    }

    /// The schema rows as a map keyed by (catalog name, name).
    pub open spec fn schema_map(self) -> Map<(Seq<char>, Seq<char>), Schema> {
        row_map(self.schemas@)
    }

    /// The table rows as a map keyed by (catalog name, schema name, name).
    pub open spec fn table_map(self) -> Map<(Seq<char>, Seq<char>, Seq<char>), Table> {
        row_map(self.tables@)
    }

    /// An empty mirror.
    pub fn new() -> (s: Self)
        ensures
            s.wf(),
            s.catalogs@ == Seq::<Catalog>::empty(),
            s.schemas@ == Seq::<Schema>::empty(),
            s.tables@ == Seq::<Table>::empty(),
            s.catalog_map() == Map::<Seq<char>, Catalog>::empty(),
            s.schema_map() == Map::<(Seq<char>, Seq<char>), Schema>::empty(),
            s.table_map() == Map::<(Seq<char>, Seq<char>, Seq<char>), Table>::empty(),
    {
        let s = MirrorStore { catalogs: Vec::new(), schemas: Vec::new(), tables: Vec::new() };
        s
    }

    /// Insert-or-replace every catalog of the response that the exclusion
    /// policy retains, re-applying the policy as a second line of defense.
    /// Schema and table rows are untouched.
    pub fn write_catalogs(&mut self, response: CatalogResponse)
        requires
            old(self).wf(),
        ensures
            final(self).wf(),
            final(self).catalogs@ == upserted_all(
                old(self).catalogs@,
                retained(response.catalogs@),
            ),
            final(self).catalog_map() == written(
                old(self).catalog_map(),
                retained(response.catalogs@),
            ),
            final(self).schemas@ == old(self).schemas@,
            final(self).tables@ == old(self).tables@,
    {
        let ghost all = response.catalogs@;
        let ghost m0 = old(self).catalog_map();
        let ghost r0 = old(self).catalogs@;
        let mut records = response.catalogs;
        let ghost done: int = 0;
        while records.len() > 0
            invariant
                self.wf(),
                0 <= done <= all.len(),
                records@ =~= all.skip(done),
                self.catalogs@ == upserted_all(r0, retained(all.take(done))),
                row_map(self.catalogs@) == written(m0, retained(all.take(done))),
                self.schemas@ == old(self).schemas@,
                self.tables@ == old(self).tables@,
            decreases records@.len(),
        {
            let c = records.remove(0);
            proof {
                assert(c == all[done]);
                assert(records@ =~= all.skip(done + 1));
                assert(all.take(done + 1).drop_last() =~= all.take(done));
                assert(all.take(done + 1).last() == all[done]);
            }
            let included = include_catalog(&c);
            if included {
                proof {
                    assert(retained(all.take(done + 1)) == retained(all.take(done)).push(c));
                    assert(retained(all.take(done)).push(c).drop_last() =~= retained(
                        all.take(done),
                    ));
                }
                upsert(&mut self.catalogs, c);
            } else {
                proof {
                    assert(retained(all.take(done + 1)) == retained(all.take(done)));
                }
            }
            proof {
                done = done + 1;
            }
        }
        proof {
            assert(all.take(done) =~= all);
        }
    }

    /// Insert-or-replace every schema row the response carries; an absent
    /// array writes nothing. Catalog and table rows are untouched.
    pub fn write_schemas(&mut self, response: SchemaResponse)
        requires
            old(self).wf(),
        ensures
            final(self).wf(),
            final(self).schemas@ == upserted_all(old(self).schemas@, schema_rows(response)),
            final(self).schema_map() == written(old(self).schema_map(), schema_rows(response)),
            final(self).catalogs@ == old(self).catalogs@,
            final(self).tables@ == old(self).tables@,
    {
        let mut records = match response.schemas {
            Some(rows) => rows,
            None => Vec::new(),
        };
        let ghost all = records@;
        let ghost m0 = old(self).schema_map();
        let ghost r0 = old(self).schemas@;
        let ghost done: int = 0;
        while records.len() > 0
            invariant
                self.wf(),
                0 <= done <= all.len(),
                records@ =~= all.skip(done),
                self.schemas@ == upserted_all(r0, all.take(done)),
                row_map(self.schemas@) == written(m0, all.take(done)),
                self.catalogs@ == old(self).catalogs@,
                self.tables@ == old(self).tables@,
            decreases records@.len(),
        {
            let s = records.remove(0);
            proof {
                assert(s == all[done]);
                assert(records@ =~= all.skip(done + 1));
                assert(all.take(done + 1).drop_last() =~= all.take(done));
                assert(all.take(done + 1).last() == all[done]);
            }
            upsert(&mut self.schemas, s);
            proof {
                done = done + 1;
            }
        }
        proof {
            assert(all.take(done) =~= all);
            assert(schema_rows(response) == all);
        }
    }

    /// Insert-or-replace every table row the response carries; an absent
    /// array writes nothing. Catalog and schema rows are untouched.
    pub fn write_tables(&mut self, response: TableResponse)
        requires
            old(self).wf(),
        ensures
            final(self).wf(),
            final(self).tables@ == upserted_all(old(self).tables@, table_rows(response)),
            final(self).table_map() == written(old(self).table_map(), table_rows(response)),
            final(self).catalogs@ == old(self).catalogs@,
            final(self).schemas@ == old(self).schemas@,
    {
        let mut records = match response.tables {
            Some(rows) => rows,
            None => Vec::new(),
        };
        let ghost all = records@;
        let ghost m0 = old(self).table_map();
        let ghost r0 = old(self).tables@;
        let ghost done: int = 0;
        while records.len() > 0
            invariant
                self.wf(),
                0 <= done <= all.len(),
                records@ =~= all.skip(done),
                self.tables@ == upserted_all(r0, all.take(done)),
                row_map(self.tables@) == written(m0, all.take(done)),
                self.catalogs@ == old(self).catalogs@,
                self.schemas@ == old(self).schemas@,
            decreases records@.len(),
        {
            let t = records.remove(0);
            proof {
                assert(t == all[done]);
                assert(records@ =~= all.skip(done + 1));
                assert(all.take(done + 1).drop_last() =~= all.take(done));
                assert(all.take(done + 1).last() == all[done]);
            }
            upsert(&mut self.tables, t);
            proof {
                done = done + 1;
            }
        }
        proof {
            assert(all.take(done) =~= all);
            assert(table_rows(response) == all);
        }
    }

    /// The names of the stored catalogs, optionally filtered by a substring
    /// match on the name. A read path only: the store is unchanged.
    pub fn search_catalogs(&self, search_term: Option<&str>) -> (names: Vec<String>)
        ensures
            names@.map_values(|s: String| s@) == searched_names(
                self.catalogs@,
                match search_term {
                    None => None,
                    Some(t) => Some(t@),
                },
            ),
    {
        let ghost term: Option<Seq<char>> = match search_term {
            None => None,
            Some(t) => Some(t@),
        };
        let mut names: Vec<String> = Vec::new();
        let mut i: usize = 0;
        while i < self.catalogs.len()
            invariant
                i <= self.catalogs@.len(),
                names@.map_values(|s: String| s@) == searched_names(
                    self.catalogs@.take(i as int),
                    term,
                ),
                term == match search_term {
                    None => None::<Seq<char>>,
                    Some(t) => Some(t@),
                },
            decreases self.catalogs@.len() - i,
        {
            let row = &self.catalogs[i];
            let keep = match search_term {
                None => true,
                Some(t) => str_contains(row.name.as_str(), t),
            };
            proof {
                assert(keep == name_matches(self.catalogs@[i as int], term));
                assert(self.catalogs@.take(i + 1).drop_last() =~= self.catalogs@.take(i as int));
                assert(self.catalogs@.take(i + 1).last() == self.catalogs@[i as int]);
            }
            if keep {
                let ghost before = names@;
                names.push(row.name.clone());
                proof {
                    assert(names@.map_values(|s: String| s@) =~= before.map_values(
                        |s: String| s@,
                    ).push(self.catalogs@[i as int].name@));
                }
            }
            i += 1;
        }
        proof {
            assert(self.catalogs@.take(i as int) =~= self.catalogs@);
        }
        names
    }
}

} // verus!
