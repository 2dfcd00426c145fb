//! The raw store: named namespaces, each an ordered run of rows, with a
//! write-ahead log that is either synced or not.

use vstd::prelude::*;
use crate::base::text::str_eq;
use crate::storage::order::{bytes_lt, lemma_lex_transitive};
use crate::storage::order::lex_lt;
use crate::storage::rows::{
    ascending, contains, get, has_key, parts_at, put, remove, remove_range, row_views, rows_below,
    rows_from, rows_outside, rows_with, rows_with_prefix, rows_without, scan_prefix, seek,
    value_of, Row, RowView,
};

verus! {

/// A namespace as contracts see it.
pub struct FamilyView {
    pub name: Seq<char>,
    pub rows: Seq<RowView>,
}

/// The store as contracts see it.
pub struct DbView {
    /// The namespaces, in the order in which they were made.
    pub families: Seq<FamilyView>,
    /// Whether everything written has been synced to the write-ahead log.
    pub synced: bool,
}

impl DbView {
    /// The position of the namespace called `name`, if there is one.
    pub open spec fn has_family(self, name: Seq<char>) -> bool {
        exists|i: int| 0 <= i < self.families.len() && #[trigger] self.families[i].name == name
    }

    /// The rows of namespace `i`.
    pub open spec fn rows(self, i: int) -> Seq<RowView> {
        self.families[i].rows
    }

    /// A position at which the namespace called `name` stands, where the
    /// store has one.
    pub open spec fn position(self, name: Seq<char>) -> int {
        choose|i: int| 0 <= i < self.families.len() && #[trigger] self.families[i].name == name
    }

    /// The rows of the namespace called `name`; none where the store has no
    /// such namespace.
    pub open spec fn rows_named(self, name: Seq<char>) -> Seq<RowView> {
        if self.has_family(name) {
            self.families[self.position(name)].rows
        } else {
            Seq::empty()
        }
    }

    /// The store after namespace `i` got the rows `rows` by a write that is
    /// not synced yet.
    pub open spec fn with_rows(self, i: int, rows: Seq<RowView>) -> DbView {
        DbView {
            families: self.families.update(i, FamilyView { name: self.families[i].name, rows }),
            synced: false,
        }
    }

    /// The store with one more namespace, empty.
    pub open spec fn with_family(self, name: Seq<char>) -> DbView {
        DbView {
            families: self.families.push(FamilyView { name, rows: Seq::empty() }),
            synced: self.synced,
        }
    }

    /// The store after a sync of the write-ahead log.
    pub open spec fn flushed(self) -> DbView {
        DbView { families: self.families, synced: true }
    }

    /// No two namespaces share a name, and each keeps its rows in key order.
    pub open spec fn well_formed(self) -> bool {
        families_ok(self.families)
    }
}

/// No two namespaces share a name, and each keeps its rows in key order.
pub open spec fn families_ok(families: Seq<FamilyView>) -> bool {
    &&& forall|i: int, j: int|
        0 <= i < j < families.len() ==> #[trigger] families[i].name != #[trigger] families[j].name
    &&& forall|i: int| 0 <= i < families.len() ==> ascending(#[trigger] families[i].rows)
}

/// A namespace that stands at `i` is found by its name, and in a well-formed
/// store it is found at `i`.
pub proof fn lemma_family_position(v: DbView, name: Seq<char>, i: int)
    requires
        0 <= i < v.families.len(),
        v.families[i].name == name,
    ensures
        v.has_family(name),
        0 <= v.position(name) < v.families.len(),
        v.families[v.position(name)].name == name,
        v.well_formed() ==> v.position(name) == i && v.rows_named(name) == v.rows(i),
{
}

/// New rows for one namespace leave the rows of the others as they were.
pub proof fn lemma_rows_named_after(v: DbView, i: int, rows: Seq<RowView>, name: Seq<char>)
    requires
        v.well_formed(),
        0 <= i < v.families.len(),
    ensures
        v.with_rows(i, rows).has_family(name) == v.has_family(name),
        v.families[i].name == name ==> v.with_rows(i, rows).rows_named(name) == rows,
        v.families[i].name != name ==> v.with_rows(i, rows).rows_named(name) == v.rows_named(name),
        v.flushed().rows_named(name) == v.rows_named(name),
        v.flushed().has_family(name) == v.has_family(name),
{
    let w = v.with_rows(i, rows);
    assert forall|k: int| 0 <= k < v.families.len() implies (#[trigger] w.families[k]).name
        == v.families[k].name by {}
    if v.has_family(name) {
        let k = v.position(name);
        assert(w.families[k].name == name);
        let j = w.position(name);
        assert(v.families[j].name == w.families[j].name);
        assert(j == k);
    } else {
        if w.has_family(name) {
            let j = w.position(name);
            assert(v.families[j].name == w.families[j].name);
        }
    }
    let f = v.flushed();
    assert(f.families == v.families);
    if v.has_family(name) {
        let k = v.position(name);
        assert(f.families[k].name == name);
    }
    if f.has_family(name) {
        let k = f.position(name);
        assert(v.families[k].name == name);
    }
}

/// A new namespace is empty and leaves the rows of the others as they were.
pub proof fn lemma_rows_named_with_family(v: DbView, name: Seq<char>, other: Seq<char>)
    requires
        v.well_formed(),
        !v.has_family(name),
    ensures
        v.with_family(name).well_formed(),
        v.with_family(name).rows_named(other) == v.rows_named(other),
        v.with_family(name).has_family(other) == (other == name || v.has_family(other)),
{
    let w = v.with_family(name);
    let n = v.families.len() as int;
    assert(w.families[n].name == name);
    assert forall|k: int| 0 <= k < n implies (#[trigger] w.families[k]) == v.families[k] by {}
    assert forall|a: int, b: int| 0 <= a < b < w.families.len() implies #[trigger] w.families[a].name
        != #[trigger] w.families[b].name by {
        assert(w.families[a] == v.families[a]);
        if b < n {
            assert(w.families[b] == v.families[b]);
        }
    }
    assert forall|a: int| 0 <= a < w.families.len() implies ascending(
        #[trigger] w.families[a].rows,
    ) by {
        if a < n {
            assert(w.families[a] == v.families[a]);
        }
    }
    if v.has_family(other) {
        let k = v.position(other);
        assert(w.families[k].name == other);
        lemma_family_position(w, other, k);
    } else if other == name {
        lemma_family_position(w, other, n);
    } else {
        if w.has_family(other) {
            let k = w.position(other);
            if k < n {
                assert(v.families[k].name == other);
            }
        }
    }
}

/// New rows for one namespace, in key order, keep the store well formed.
pub proof fn lemma_update_ok(families: Seq<FamilyView>, i: int, rows: Seq<RowView>)
    requires
        families_ok(families),
        0 <= i < families.len(),
        ascending(rows),
    ensures
        families_ok(families.update(i, FamilyView { name: families[i].name, rows })),
{
    let after = families.update(i, FamilyView { name: families[i].name, rows });
    assert forall|a: int, b: int| 0 <= a < b < after.len() implies #[trigger] after[a].name
        != #[trigger] after[b].name by {
        assert(after[a].name == families[a].name);
        assert(after[b].name == families[b].name);
    }
    assert forall|a: int| 0 <= a < after.len() implies ascending(#[trigger] after[a].rows) by {
        if a != i {
            assert(after[a].rows == families[a].rows);
        }
    }
}

/// A handle on one namespace of a store.
#[derive(Debug, Clone, Copy, PartialEq, Eq, Structural)]
pub struct ColumnFamily {
    pub index: usize,
}

/// A failure of the store, with its message.
#[derive(Debug)]
pub struct DbError {
    pub message: String,
}

/// The message of the failure for a handle that the store does not serve.
pub const INVALID_COLUMN_FAMILY: &'static str = "Invalid column family";

/// The message of the failure for rows that are not in key order.
pub const KEYS_NOT_ASCENDING: &'static str = "Keys are not strictly ascending";

struct Family {
    name: String,
    rows: Vec<Row>,
}

impl View for Family {
    type V = FamilyView;

    closed spec fn view(&self) -> FamilyView {
        FamilyView { name: self.name@, rows: row_views(self.rows@) }
    }
}

spec fn family_views(families: Seq<Family>) -> Seq<FamilyView> {
    families.map_values(|f: Family| f@)
}

/// The store.
pub struct DB {
    families: Vec<Family>,
    synced: bool,
}

impl View for DB {
    type V = DbView;

    closed spec fn view(&self) -> DbView {
        DbView { families: family_views(self.families@), synced: self.synced }
    }
}

fn invalid_handle() -> (e: DbError)
    ensures
        e.message@ == INVALID_COLUMN_FAMILY@,
{
    DbError { message: String::from_str(INVALID_COLUMN_FAMILY) }
}

impl DB {
    #[verifier::type_invariant]
    spec fn inv(self) -> bool {
        self@.well_formed()
    }

    /// Whether the store serves the handle.
    pub open spec fn serves(&self, cf: ColumnFamily) -> bool {
        cf.index < self@.families.len()
    }

    /// A store without namespaces.
    pub fn new() -> (db: DB)
        ensures
            db@.families.len() == 0,
            db@.synced,
    {
        DB { families: Vec::new(), synced: true }
    }

    /// The rows of every namespace are in key order, and no two namespaces
    /// share a name.
    pub fn known_well_formed(&self)
        ensures
            self@.well_formed(),
    {
        proof {
            use_type_invariant(self);
        }
    }

    /// The handle of the namespace called `name`, if the store has one.
    pub fn cf_handle(&self, name: &str) -> (r: Option<ColumnFamily>)
        ensures
            r is Some == self@.has_family(name@),
            r is Some ==> self.serves(r->0) && self@.families[r->0.index as int].name == name@,
    {
        let mut i: usize = 0;
        while i < self.families.len()
            invariant
                i <= self.families.len(),
                forall|k: int| 0 <= k < i ==> (#[trigger] self@.families[k]).name != name@,
            decreases self.families.len() - i,
        {
            assert(self@.families[i as int] == self.families@[i as int]@);
            if str_eq(self.families[i].name.as_str(), name) {
                assert(self@.families[i as int].name == name@);
                return Some(ColumnFamily { index: i });
            }
            i += 1;
        }
        None
    }

    /// Takes the rows of namespace `i` out of the store, leaving the
    /// namespace empty.
    fn take_rows(&mut self, i: usize) -> (rows: Vec<Row>)
        requires
            i < old(self)@.families.len(),
        ensures
            row_views(rows@) == old(self)@.rows(i as int),
            ascending(row_views(rows@)),
            final(self)@.families == old(self)@.families.update(
                i as int,
                FamilyView { name: old(self)@.families[i as int].name, rows: Seq::empty() },
            ),
            final(self)@.synced == old(self)@.synced,
    {
        proof {
            use_type_invariant(&*self);
        }
        let ghost before = self@;
        assert(before.families[i as int] == self.families@[i as int]@);
        assert(ascending(before.rows(i as int)));
        let mut families: Vec<Family> = Vec::new();
        std::mem::swap(&mut families, &mut self.families);
        let mut rows: Vec<Row> = Vec::new();
        let ghost taken = families@;
        assert(taken == old(self).families@);
        std::mem::swap(&mut rows, &mut families[i].rows);
        proof {
            assert(families@.len() == taken.len());
            assert(families@[i as int].name == taken[i as int].name);
            assert(families@[i as int].rows@ =~= Seq::<Row>::empty());
            assert(rows@ == taken[i as int].rows@);
            assert(forall|k: int| 0 <= k < taken.len() && k != i ==> families@[k] == taken[k]);
            let after = family_views(families@);
            let want = before.families.update(
                i as int,
                FamilyView { name: before.families[i as int].name, rows: Seq::empty() },
            );
            assert(after.len() == want.len());
            assert forall|k: int| 0 <= k < after.len() implies after[k] == want[k] by {
                assert(after[k] == families@[k]@);
                assert(before.families[k] == taken[k]@);
                if k == i {
                    assert(row_views(families@[k].rows@) =~= Seq::<RowView>::empty());
                }
            }
            assert(after =~= want);
            lemma_update_ok(before.families, i as int, Seq::empty());
        }
        self.families = families;
        rows
    }

    /// Gives namespace `i`, emptied by `take_rows`, its rows.
    fn give_rows(&mut self, i: usize, rows: Vec<Row>, Ghost(name): Ghost<Seq<char>>)
        requires
            i < old(self)@.families.len(),
            old(self)@.families[i as int].name == name,
            ascending(row_views(rows@)),
        ensures
            final(self)@.families == old(self)@.families.update(
                i as int,
                FamilyView { name, rows: row_views(rows@) },
            ),
            final(self)@.synced == old(self)@.synced,
    {
        proof {
            use_type_invariant(&*self);
        }
        let ghost before = self@;
        let mut families: Vec<Family> = Vec::new();
        std::mem::swap(&mut families, &mut self.families);
        let ghost taken = families@;
        let mut rows = rows;
        std::mem::swap(&mut rows, &mut families[i].rows);
        proof {
            let after = family_views(families@);
            let want = before.families.update(
                i as int,
                FamilyView { name, rows: row_views(families@[i as int].rows@) },
            );
            assert(after.len() == want.len());
            assert forall|k: int| 0 <= k < after.len() implies after[k] == want[k] by {
                assert(after[k] == families@[k]@);
                assert(before.families[k] == taken[k]@);
            }
            assert(after =~= want);
            lemma_update_ok(before.families, i as int, row_views(families@[i as int].rows@));
        }
        self.families = families;
    }

    /// The rows of the namespace, copied.
    fn rows_of(&self, i: usize) -> (rows: &Vec<Row>)
        requires
            i < self@.families.len(),
        ensures
            row_views(rows@) == self@.rows(i as int),
            ascending(row_views(rows@)),
    {
        proof {
            use_type_invariant(self);
        }
        assert(self@.families[i as int] == self.families@[i as int]@);
        &self.families[i].rows
    }

    /// Makes the namespace called `name` unless the store has it, and hands
    /// out its handle.
    pub fn create_cf(&mut self, name: &str) -> (cf: ColumnFamily)
        ensures
            old(self)@.has_family(name@) ==> final(self)@ == old(self)@,
            !old(self)@.has_family(name@) ==> final(self)@ == old(self)@.with_family(name@),
            final(self).serves(cf),
            final(self)@.families[cf.index as int].name == name@,
    {
        proof {
            use_type_invariant(&*self);
        }
        match self.cf_handle(name) {
            Some(cf) => cf,
            None => {
                let ghost before = self@;
                let mut families: Vec<Family> = Vec::new();
                std::mem::swap(&mut families, &mut self.families);
                let index: usize = families.len();
                families.push(Family { name: name.to_owned(), rows: Vec::new() });
                proof {
                    let after = family_views(families@);
                    let want = before.families.push(FamilyView { name: name@, rows: Seq::empty() });
                    assert(after.len() == want.len());
                    assert forall|k: int| 0 <= k < after.len() implies after[k] == want[k] by {
                        assert(after[k] == families@[k]@);
                        if k < index {
                            assert(before.families[k] == old(self).families@[k]@);
                        } else {
                            assert(row_views(families@[k].rows@) =~= Seq::<RowView>::empty());
                        }
                    }
                    assert(after =~= want);
                    assert forall|a: int, b: int| 0 <= a < b < want.len() implies #[trigger] want[a].name
                        != #[trigger] want[b].name by {
                        assert(want[a] == before.families[a]);
                        if b < index {
                            assert(want[b] == before.families[b]);
                        }
                    }
                    assert forall|a: int| 0 <= a < want.len() implies ascending(
                        #[trigger] want[a].rows,
                    ) by {
                        if a < index {
                            assert(want[a] == before.families[a]);
                        }
                    }
                }
                self.families = families;
                ColumnFamily { index }
            },
        }
    }

    /// Sets `key` to `value` in the namespace. The write is not synced.
    pub fn put_cf(&mut self, cf: &ColumnFamily, key: Vec<u8>, value: Vec<u8>) -> (r: Result<
        (),
        DbError,
    >)
        ensures
            old(self).serves(*cf) ==> r is Ok && final(self)@ == old(self)@.with_rows(
                cf.index as int,
                rows_with(old(self)@.rows(cf.index as int), key@, value@),
            ),
            !old(self).serves(*cf) ==> r is Err && r->Err_0.message@ == INVALID_COLUMN_FAMILY@
                && final(self)@ == old(self)@,
    {
        if cf.index >= self.families.len() {
            return Err(invalid_handle());
        }
        let ghost name = self@.families[cf.index as int].name;
        let mut rows: Vec<Row> = self.take_rows(cf.index);
        put(&mut rows, key, value);
        self.give_rows(cf.index, rows, Ghost(name));
        proof {
            use_type_invariant(&*self);
        }
        self.synced = false;
        assert(self@.families =~= old(self)@.with_rows(
            cf.index as int,
            rows_with(old(self)@.rows(cf.index as int), key@, value@),
        ).families);
        Ok(())
    }

    /// The value stored under `key` in the namespace, if any.
    pub fn get_cf(&self, cf: &ColumnFamily, key: &[u8]) -> (r: Result<Option<Vec<u8>>, DbError>)
        ensures
            self.serves(*cf) ==> r is Ok && (r->Ok_0 is Some == has_key(
                self@.rows(cf.index as int),
                key@,
            )) && (r->Ok_0 is Some ==> Some(r->Ok_0->0@) == value_of(
                self@.rows(cf.index as int),
                key@,
            )),
            !self.serves(*cf) ==> r is Err && r->Err_0.message@ == INVALID_COLUMN_FAMILY@,
    {
        if cf.index >= self.families.len() {
            return Err(invalid_handle());
        }
        Ok(get(self.rows_of(cf.index), key))
    }

    /// Whether the namespace holds the key. A handle that the store does not
    /// serve holds nothing.
    pub fn key_may_exist_cf(&self, cf: &ColumnFamily, key: &[u8]) -> (r: bool)
        ensures
            r == (self.serves(*cf) && has_key(self@.rows(cf.index as int), key@)),
    {
        if cf.index >= self.families.len() {
            return false;
        }
        contains(self.rows_of(cf.index), key)
    }

    /// Removes `key` from the namespace. The write is not synced.
    pub fn delete_cf(&mut self, cf: &ColumnFamily, key: &[u8]) -> (r: Result<(), DbError>)
        ensures
            old(self).serves(*cf) ==> r is Ok && final(self)@ == old(self)@.with_rows(
                cf.index as int,
                rows_without(old(self)@.rows(cf.index as int), key@),
            ),
            !old(self).serves(*cf) ==> r is Err && r->Err_0.message@ == INVALID_COLUMN_FAMILY@
                && final(self)@ == old(self)@,
    {
        if cf.index >= self.families.len() {
            return Err(invalid_handle());
        }
        let ghost name = self@.families[cf.index as int].name;
        let mut rows: Vec<Row> = self.take_rows(cf.index);
        remove(&mut rows, key);
        self.give_rows(cf.index, rows, Ghost(name));
        proof {
            use_type_invariant(&*self);
        }
        self.synced = false;
        assert(self@.families =~= old(self)@.with_rows(
            cf.index as int,
            rows_without(old(self)@.rows(cf.index as int), key@),
        ).families);
        Ok(())
    }

    /// Removes every key with `from <= key < to` from the namespace. The
    /// write is not synced.
    pub fn delete_range_cf(&mut self, cf: &ColumnFamily, from: &[u8], to: &[u8]) -> (r: Result<
        (),
        DbError,
    >)
        ensures
            old(self).serves(*cf) ==> r is Ok && final(self)@ == old(self)@.with_rows(
                cf.index as int,
                rows_outside(old(self)@.rows(cf.index as int), from@, to@),
            ),
            !old(self).serves(*cf) ==> r is Err && r->Err_0.message@ == INVALID_COLUMN_FAMILY@
                && final(self)@ == old(self)@,
    {
        if cf.index >= self.families.len() {
            return Err(invalid_handle());
        }
        let ghost name = self@.families[cf.index as int].name;
        let mut rows: Vec<Row> = self.take_rows(cf.index);
        remove_range(&mut rows, from, to);
        self.give_rows(cf.index, rows, Ghost(name));
        proof {
            use_type_invariant(&*self);
        }
        self.synced = false;
        assert(self@.families =~= old(self)@.with_rows(
            cf.index as int,
            rows_outside(old(self)@.rows(cf.index as int), from@, to@),
        ).families);
        Ok(())
    }

    /// The rows of the namespace whose key starts with `prefix`, in key
    /// order.
    pub fn prefix_cf(&self, cf: &ColumnFamily, prefix: &[u8]) -> (r: Result<Vec<Row>, DbError>)
        ensures
            self.serves(*cf) ==> r is Ok && row_views(r->Ok_0@) == rows_with_prefix(
                self@.rows(cf.index as int),
                prefix@,
            ),
            !self.serves(*cf) ==> r is Err && r->Err_0.message@ == INVALID_COLUMN_FAMILY@,
    {
        if cf.index >= self.families.len() {
            return Err(invalid_handle());
        }
        Ok(scan_prefix(self.rows_of(cf.index), prefix))
    }

    /// The number of rows in the namespace; none for a handle that the store
    /// does not serve.
    pub fn len_cf(&self, cf: &ColumnFamily) -> (n: usize)
        ensures
            self.serves(*cf) ==> n == self@.rows(cf.index as int).len(),
            !self.serves(*cf) ==> n == 0,
    {
        if cf.index >= self.families.len() {
            return 0;
        }
        self.rows_of(cf.index).len()
    }

    /// Where a walk of the namespace from `key` begins: the position of the
    /// first row whose key is `key` or sorts after it.
    pub fn seek_cf(&self, cf: &ColumnFamily, key: &[u8]) -> (p: usize)
        ensures
            self.serves(*cf) ==> {
                &&& parts_at(self@.rows(cf.index as int), key@, p as int)
                &&& rows_below(self@.rows(cf.index as int), key@) == self@.rows(
                    cf.index as int,
                ).subrange(0, p as int)
                &&& rows_from(self@.rows(cf.index as int), key@) == self@.rows(
                    cf.index as int,
                ).subrange(p as int, self@.rows(cf.index as int).len() as int)
            },
            !self.serves(*cf) ==> p == 0,
    {
        if cf.index >= self.families.len() {
            return 0;
        }
        seek(self.rows_of(cf.index), key)
    }

    /// The row at position `p` of the namespace, in key order.
    pub fn row_cf(&self, cf: &ColumnFamily, p: usize) -> (r: Option<Row>)
        ensures
            r is Some == (self.serves(*cf) && p < self@.rows(cf.index as int).len()),
            r is Some ==> r->0@ == self@.rows(cf.index as int)[p as int],
    {
        if cf.index >= self.families.len() {
            return None;
        }
        let rows: &Vec<Row> = self.rows_of(cf.index);
        if p < rows.len() {
            assert(row_views(rows@)[p as int] == rows@[p as int]@);
            Some(rows[p].clone())
        } else {
            None
        }
    }

    /// All rows of the namespace, in key order; none for a handle that the
    /// store does not serve.
    pub fn rows_cf(&self, cf: &ColumnFamily) -> (found: Vec<Row>)
        ensures
            self.serves(*cf) ==> row_views(found@) == self@.rows(cf.index as int),
            !self.serves(*cf) ==> found@.len() == 0,
    {
        let mut found: Vec<Row> = Vec::new();
        if cf.index >= self.families.len() {
            return found;
        }
        let rows: &Vec<Row> = self.rows_of(cf.index);
        let mut i: usize = 0;
        while i < rows.len()
            invariant
                i <= rows.len(),
                found@.len() == i,
                forall|k: int| 0 <= k < i ==> (#[trigger] found@[k])@ == rows@[k]@,
            decreases rows.len() - i,
        {
            found.push(rows[i].clone());
            i += 1;
        }
        assert(row_views(found@) =~= row_views(rows@));
        found
    }

    /// Gives the namespace the rows `rows` in place of those it holds. The
    /// rows are taken where their keys are strictly ascending and refused,
    /// with nothing changed, where they are not. The write is not synced.
    pub fn replace_cf(&mut self, cf: &ColumnFamily, rows: Vec<Row>) -> (r: Result<(), DbError>)
        ensures
            r is Ok == (old(self).serves(*cf) && ascending(row_views(rows@))),
            r is Ok ==> final(self)@ == old(self)@.with_rows(cf.index as int, row_views(rows@)),
            r is Err ==> final(self)@ == old(self)@,
    {
        if cf.index >= self.families.len() {
            return Err(invalid_handle());
        }
        let ghost views = row_views(rows@);
        let mut i: usize = 1;
        while i < rows.len()
            invariant
                1 <= i,
                views == row_views(rows@),
                forall|a: int, b: int|
                    0 <= a < b < i && b < views.len() ==> lex_lt(
                        #[trigger] views[a].0,
                        #[trigger] views[b].0,
                    ),
            decreases rows.len() - i,
        {
            assert(views[i - 1].0 == rows@[i - 1].key@);
            assert(views[i as int].0 == rows@[i as int].key@);
            if !bytes_lt(rows[i - 1].key.as_slice(), rows[i].key.as_slice()) {
                return Err(DbError { message: String::from_str(KEYS_NOT_ASCENDING) });
            }
            assert forall|a: int, b: int| 0 <= a < b < i + 1 && b < views.len() implies lex_lt(
                #[trigger] views[a].0,
                #[trigger] views[b].0,
            ) by {
                if b == i && a < i - 1 {
                    lemma_lex_transitive(views[a].0, views[i - 1].0, views[i as int].0);
                }
            }
            i += 1;
        }
        let ghost name = self@.families[cf.index as int].name;
        let old_rows: Vec<Row> = self.take_rows(cf.index);
        self.give_rows(cf.index, rows, Ghost(name));
        proof {
            use_type_invariant(&*self);
        }
        self.synced = false;
        assert(self@.families =~= old(self)@.with_rows(cf.index as int, views).families);
        Ok(())
    }

    /// Whether everything written has been synced to the write-ahead log.
    pub fn is_synced(&self) -> (synced: bool)
        ensures
            synced == self@.synced,
    {
        self.synced
    }

    /// The names of the namespaces, in the order in which they were made.
    pub fn cf_names(&self) -> (names: Vec<String>)
        ensures
            names@.len() == self@.families.len(),
            forall|i: int| 0 <= i < names@.len() ==> (#[trigger] names@[i])@ == self@.families[i].name,
    {
        let mut names: Vec<String> = Vec::new();
        let mut i: usize = 0;
        while i < self.families.len()
            invariant
                i <= self.families.len(),
                names@.len() == i,
                forall|k: int| 0 <= k < i ==> (#[trigger] names@[k])@ == self@.families[k].name,
            decreases self.families.len() - i,
        {
            assert(self@.families[i as int] == self.families@[i as int]@);
            names.push(self.families[i].name.clone());
            i += 1;
        }
        names
    }

    /// Syncs the write-ahead log: everything written so far is durable.
    pub fn flush_wal(&mut self, sync: bool) -> (r: Result<(), DbError>)
        ensures
            r is Ok,
            sync ==> final(self)@ == old(self)@.flushed(),
            !sync ==> final(self)@ == old(self)@,
    {
        proof {
            use_type_invariant(&*self);
        }
        if sync {
            self.synced = true;
        }
        Ok(())
    }
}

} // verus!
