//! The metadata mirror held in memory. It is never authoritative: every
//! write is an upsert keyed by full name, and nothing is ever removed except
//! by the row that replaces it.
use crate::metastore::{
    rows, Catalog, CatalogResponse, Schema, SchemaResponse, Table, TableResponse,
};
use crate::sql_client::{ListCatalogResultSet, ListSchemaResultSet, ListTableResultSet};
use crate::text::{contains_seq, contains_text, optional_view, same_text};
use vstd::prelude::*;
use vstd::string::*;

verus! {

/// A row that the mirror keys by its full name.
pub trait Keyed: Sized {
    /// The key: the row's full name.
    spec fn key(&self) -> Seq<char>;

    /// The key as text.
    fn key_text(&self) -> (text: &str)
        ensures
            text@ == self.key(),
    ;
}

impl Keyed for Catalog {
    open spec fn key(&self) -> Seq<char> {
        self.full_name@
    }

    fn key_text(&self) -> (text: &str) {
        self.full_name.as_str()
    }
}

impl Keyed for Schema {
    open spec fn key(&self) -> Seq<char> {
        self.full_name@
    }

    fn key_text(&self) -> (text: &str) {
        self.full_name.as_str()
    }
}

impl Keyed for Table {
    open spec fn key(&self) -> Seq<char> {
        self.full_name@
    }

    fn key_text(&self) -> (text: &str) {
        self.full_name.as_str()
    }
}

/// `held` without the rows keyed `key`, the others in their order.
pub open spec fn without<T: Keyed>(held: Seq<T>, key: Seq<char>) -> Seq<T>
    decreases held.len(),
{
    if held.len() == 0 {
        Seq::empty()
    } else if held.last().key() == key {
        without(held.drop_last(), key)
    } else {
        without(held.drop_last(), key).push(held.last())
    }
}

/// `held` after the upsert of `row`: any row of the same key gives way, and
/// `row` follows the rest.
pub open spec fn upserted<T: Keyed>(held: Seq<T>, row: T) -> Seq<T> {
    without(held, row.key()).push(row)
}

/// `held` after the upsert of each of `incoming`, in order.
pub open spec fn upserted_all<T: Keyed>(held: Seq<T>, incoming: Seq<T>) -> Seq<T>
    decreases incoming.len(),
{
    if incoming.len() == 0 {
        held
    } else {
        upserted(upserted_all(held, incoming.drop_last()), incoming.last())
    }
}

/// How many rows of `held` are keyed `key`.
pub open spec fn count_keyed<T: Keyed>(held: Seq<T>, key: Seq<char>) -> nat
    decreases held.len(),
{
    if held.len() == 0 {
        0
    } else {
        count_keyed(held.drop_last(), key) + if held.last().key() == key {
            1nat
        } else {
            0nat
        }
    }
}

/// No two rows of `held` share a key.
pub open spec fn distinct_keys<T: Keyed>(held: Seq<T>) -> bool {
    forall|i: int, j: int|
        0 <= i < j < held.len() ==> (#[trigger] held[i]).key() != (#[trigger] held[j]).key()
}

/// Whether a row is wanted by an optional substring filter on its name.
pub open spec fn name_matches(name: Seq<char>, search_term: Option<Seq<char>>) -> bool {
    match search_term {
        Some(term) => contains_seq(name, term),
        None => true,
    }
}

/// Whether a row is wanted by an optional exact filter on a parent scope.
pub open spec fn in_scope(parent: Seq<char>, wanted: Option<Seq<char>>) -> bool {
    match wanted {
        Some(name) => parent == name,
        None => true,
    }
}

/// The names of the catalogs that pass the filter, in the mirror's order.
pub open spec fn listed_catalogs(held: Seq<Catalog>, search_term: Option<Seq<char>>) -> Seq<
    Seq<char>,
>
    decreases held.len(),
{
    if held.len() == 0 {
        Seq::empty()
    } else if name_matches(held.last().name@, search_term) {
        listed_catalogs(held.drop_last(), search_term).push(held.last().name@)
    } else {
        listed_catalogs(held.drop_last(), search_term)
    }
}

/// Name and catalog of the schemas that pass both filters, in the mirror's
/// order.
pub open spec fn listed_schemas(
    held: Seq<Schema>,
    catalog_name: Option<Seq<char>>,
    search_term: Option<Seq<char>>,
) -> Seq<(Seq<char>, Seq<char>)>
    decreases held.len(),
{
    if held.len() == 0 {
        Seq::empty()
    } else if name_matches(held.last().name@, search_term) && in_scope(
        held.last().catalog_name@,
        catalog_name,
    ) {
        listed_schemas(held.drop_last(), catalog_name, search_term).push(
            (held.last().name@, held.last().catalog_name@),
        )
    } else {
        listed_schemas(held.drop_last(), catalog_name, search_term)
    }
}

/// Name, catalog and schema of the tables that pass all three filters, in
/// the mirror's order.
pub open spec fn listed_tables(
    held: Seq<Table>,
    catalog_name: Option<Seq<char>>,
    schema_name: Option<Seq<char>>,
    search_term: Option<Seq<char>>,
) -> Seq<(Seq<char>, Seq<char>, Seq<char>)>
    decreases held.len(),
{
    if held.len() == 0 {
        Seq::empty()
    } else if name_matches(held.last().name@, search_term) && in_scope(
        held.last().catalog_name@,
        catalog_name,
    ) && in_scope(held.last().schema_name@, schema_name) {
        listed_tables(held.drop_last(), catalog_name, schema_name, search_term).push(
            (held.last().name@, held.last().catalog_name@, held.last().schema_name@),
        )
    } else {
        listed_tables(held.drop_last(), catalog_name, schema_name, search_term)
    }
}

/// Removing a key leaves no row of that key, keeps every other row, and
/// keeps distinct keys distinct.
pub proof fn lemma_without<T: Keyed>(held: Seq<T>, key: Seq<char>)
    ensures
        count_keyed(without(held, key), key) == 0,
        forall|i: int| 0 <= i < without(held, key).len() ==> (#[trigger] without(held, key)[i]).key() != key,
        forall|i: int|
            0 <= i < without(held, key).len() ==> held.contains(#[trigger] without(held, key)[i]),
        forall|other: Seq<char>|
            other != key ==> count_keyed(without(held, key), other) == count_keyed(held, other),
        without(held, key).len() <= held.len(),
        count_keyed(held, key) == 0 ==> without(held, key) == held,
    decreases held.len(),
{
    if held.len() > 0 {
        let rest = held.drop_last();
        lemma_without(rest, key);
        let kept = without(rest, key);
        let all = without(held, key);
        assert forall|i: int| 0 <= i < all.len() implies held.contains(#[trigger] all[i]) by {
            if i < kept.len() {
                assert(all[i] == kept[i]);
                assert(rest.contains(kept[i]));
                let k = choose|k: int| 0 <= k < rest.len() && rest[k] == kept[i];
                assert(held[k] == all[i]);
            } else {
                assert(all[i] == held[held.len() - 1]);
            }
        }
        if held.last().key() != key {
            assert(all.drop_last() =~= kept);
            if count_keyed(held, key) == 0 {
                assert(all =~= held);
            }
        }
        assert forall|other: Seq<char>| other != key implies count_keyed(all, other)
            == count_keyed(held, other) by {
            assert(count_keyed(kept, other) == count_keyed(rest, other));
        }
    }
}

/// Upserting a row leaves exactly one row under its full name, and that row
/// holds the values just written.
pub proof fn lemma_upsert_leaves_one<T: Keyed>(held: Seq<T>, row: T)
    ensures
        count_keyed(upserted(held, row), row.key()) == 1,
        upserted(held, row).last() == row,
        forall|other: Seq<char>|
            other != row.key() ==> count_keyed(upserted(held, row), other) == count_keyed(
                held,
                other,
            ),
{
    lemma_without(held, row.key());
    let after = upserted(held, row);
    assert(after.drop_last() =~= without(held, row.key()));
}

/// Writing the same row twice is the same as writing it once.
pub proof fn lemma_upsert_idempotent<T: Keyed>(held: Seq<T>, row: T)
    ensures
        upserted(upserted(held, row), row) == upserted(held, row),
{
    let once = upserted(held, row);
    let base = without(held, row.key());
    lemma_without(held, row.key());
    assert(once.drop_last() =~= base);
    lemma_without(base, row.key());
    assert(without(once, row.key()) == without(base, row.key()));
    assert(without(base, row.key()) == base);
}

/// An upsert keeps distinct keys distinct.
pub proof fn lemma_upsert_keeps_distinct<T: Keyed>(held: Seq<T>, row: T)
    requires
        distinct_keys(held),
    ensures
        distinct_keys(upserted(held, row)),
{
    lemma_without_keeps_order(held, row.key());
    lemma_without(held, row.key());
    let base = without(held, row.key());
    let after = upserted(held, row);
    assert forall|i: int, j: int| 0 <= i < j < after.len() implies (#[trigger] after[i]).key() != (
    #[trigger] after[j]).key() by {
        if j < base.len() {
            let (a, b) = choose|a: int, b: int|
                0 <= a < b < held.len() && held[a] == base[i] && held[b] == base[j];
            assert(held[a].key() != held[b].key());
        } else {
            assert(after[j] == row);
            assert(after[i] == base[i]);
        }
    }
}

/// Removing a key keeps the remaining rows in their order.
pub proof fn lemma_without_keeps_order<T: Keyed>(held: Seq<T>, key: Seq<char>)
    ensures
        forall|i: int, j: int|
            0 <= i < j < without(held, key).len() ==> exists|a: int, b: int|
                0 <= a < b < held.len() && held[a] == (#[trigger] without(held, key)[i])
                    && held[b] == (#[trigger] without(held, key)[j]),
    decreases held.len(),
{
    if held.len() > 0 {
        let rest = held.drop_last();
        lemma_without_keeps_order(rest, key);
        lemma_without(rest, key);
        let kept = without(rest, key);
        let all = without(held, key);
        assert forall|i: int, j: int| 0 <= i < j < all.len() implies exists|a: int, b: int|
            0 <= a < b < held.len() && held[a] == (#[trigger] all[i]) && held[b] == (
            #[trigger] all[j]) by {
            if j < kept.len() {
                assert(all[i] == kept[i] && all[j] == kept[j]);
                let (a, b) = choose|a: int, b: int|
                    0 <= a < b < rest.len() && rest[a] == kept[i] && rest[b] == kept[j];
                assert(held[a] == all[i] && held[b] == all[j]);
            } else {
                assert(all[i] == kept[i]);
                assert(rest.contains(kept[i]));
                let a = choose|a: int| 0 <= a < rest.len() && rest[a] == kept[i];
                let b = held.len() - 1;
                assert(held[a] == all[i] && held[b] == all[j]);
            }
        }
    }
}

/// Upserts `row` into `held`.
pub fn upsert<T: Keyed>(held: Vec<T>, row: T) -> (after: Vec<T>)
    ensures
        after@ == upserted(held@, row),
{
    let mut after: Vec<T> = Vec::new();
    for old_row in it: held
        invariant
            it.seq() == held@,
            after@ == without(held@.take(it.index()), row.key()),
    {
        let ghost at = it.index();
        assert(held@.take(at + 1).drop_last() =~= held@.take(at));
        if !same_text(old_row.key_text(), row.key_text()) {
            after.push(old_row);
        }
    }
    assert(held@.take(held@.len() as int) =~= held@);
    after.push(row);
    after
}

/// Upserts each of `incoming` into `held`, in order.
pub fn upsert_all<T: Keyed>(held: Vec<T>, incoming: Vec<T>) -> (after: Vec<T>)
    ensures
        after@ == upserted_all(held@, incoming@),
{
    let mut after = held;
    for row in it: incoming
        invariant
            it.seq() == incoming@,
            after@ == upserted_all(held@, incoming@.take(it.index())),
    {
        let ghost at = it.index();
        assert(incoming@.take(at + 1).drop_last() =~= incoming@.take(at));
        after = upsert(after, row);
    }
    assert(incoming@.take(incoming@.len() as int) =~= incoming@);
    after
}

fn wanted_name(name: &str, search_term: Option<&str>) -> (wanted: bool)
    ensures
        wanted == name_matches(name@, optional_view(search_term)),
{
    match search_term {
        Some(term) => contains_text(name, term),
        None => true,
    }
}

fn wanted_scope(parent: &str, wanted_parent: Option<&str>) -> (wanted: bool)
    ensures
        wanted == in_scope(parent@, optional_view(wanted_parent)),
{
    match wanted_parent {
        Some(name) => same_text(parent, name),
        None => true,
    }
}

/// The mirror: catalogs, schemas and tables as last written.
#[derive(Debug, Clone)]
pub struct MetadataCache {
    pub catalogs: Vec<Catalog>,
    pub schemas: Vec<Schema>,
    pub tables: Vec<Table>,
}

impl MetadataCache {
    /// An empty mirror.
    pub fn new() -> (cache: Self)
        ensures
            cache.catalogs@.len() == 0,
            cache.schemas@.len() == 0,
            cache.tables@.len() == 0,
    {
        MetadataCache { catalogs: Vec::new(), schemas: Vec::new(), tables: Vec::new() }
    }

    /// Upserts every catalog of `catalog_response`.
    pub fn write_catalogs(&mut self, catalog_response: CatalogResponse)
        ensures
            final(self).catalogs@ == upserted_all(old(self).catalogs@, catalog_response.catalogs@),
            final(self).schemas == old(self).schemas,
            final(self).tables == old(self).tables,
    {
        let mut held: Vec<Catalog> = Vec::new();
        std::mem::swap(&mut held, &mut self.catalogs);
        self.catalogs = upsert_all(held, catalog_response.catalogs);
    }

    /// Upserts every schema of `schema_response`; an absent list writes
    /// nothing.
    pub fn write_schemas(&mut self, schema_response: SchemaResponse)
        ensures
            final(self).schemas@ == upserted_all(
                old(self).schemas@,
                rows(schema_response.schemas),
            ),
            final(self).catalogs == old(self).catalogs,
            final(self).tables == old(self).tables,
    {
        match schema_response.schemas {
            Some(incoming) => {
                let mut held: Vec<Schema> = Vec::new();
                std::mem::swap(&mut held, &mut self.schemas);
                self.schemas = upsert_all(held, incoming);
            },
            None => {},
        }
    }

    /// Upserts every table of `table_response`; an absent list writes
    /// nothing.
    pub fn write_tables(&mut self, table_response: TableResponse)
        ensures
            final(self).tables@ == upserted_all(
                old(self).tables@,
                rows(table_response.tables),
            ),
            final(self).catalogs == old(self).catalogs,
            final(self).schemas == old(self).schemas,
    {
        match table_response.tables {
            Some(incoming) => {
                let mut held: Vec<Table> = Vec::new();
                std::mem::swap(&mut held, &mut self.tables);
                self.tables = upsert_all(held, incoming);
            },
            None => {},
        }
    }

    /// The catalogs whose name holds `search_term`; all of them without one.
    pub fn list_catalogs(&self, search_term: Option<&str>) -> (found: Vec<ListCatalogResultSet>)
        ensures
            found.deep_view() == listed_catalogs(self.catalogs@, optional_view(search_term)),
    {
        let mut found: Vec<ListCatalogResultSet> = Vec::new();
        let mut i: usize = 0;
        while i < self.catalogs.len()
            invariant
                i <= self.catalogs.len(),
                found.deep_view() == listed_catalogs(
                    self.catalogs@.take(i as int),
                    optional_view(search_term),
                ),
            decreases self.catalogs.len() - i,
        {
            let row = &self.catalogs[i];
            assert(self.catalogs@.take(i + 1).drop_last() =~= self.catalogs@.take(i as int));
            if wanted_name(row.name.as_str(), search_term) {
                found.push(ListCatalogResultSet { name: row.name.clone() });
            }
            i += 1;
        }
        assert(self.catalogs@.take(i as int) =~= self.catalogs@);
        found
    }

    /// The schemas whose name holds `search_term` and whose catalog is
    /// `catalog_name`; a filter that is absent lets every row pass.
    pub fn list_schemas(&self, catalog_name: Option<&str>, search_term: Option<&str>) -> (found:
        Vec<ListSchemaResultSet>)
        ensures
            found.deep_view() == listed_schemas(
                self.schemas@,
                optional_view(catalog_name),
                optional_view(search_term),
            ),
    {
        let mut found: Vec<ListSchemaResultSet> = Vec::new();
        let mut i: usize = 0;
        while i < self.schemas.len()
            invariant
                i <= self.schemas.len(),
                found.deep_view() == listed_schemas(
                    self.schemas@.take(i as int),
                    optional_view(catalog_name),
                    optional_view(search_term),
                ),
            decreases self.schemas.len() - i,
        {
            let row = &self.schemas[i];
            assert(self.schemas@.take(i + 1).drop_last() =~= self.schemas@.take(i as int));
            if wanted_name(row.name.as_str(), search_term) && wanted_scope(
                row.catalog_name.as_str(),
                catalog_name,
            ) {
                found.push(
                    ListSchemaResultSet {
                        name: row.name.clone(),
                        catalog_name: row.catalog_name.clone(),
                    },
                );
            }
            i += 1;
        }
        assert(self.schemas@.take(i as int) =~= self.schemas@);
        found
    }

    /// The tables whose name holds `search_term`, whose catalog is
    /// `catalog_name` and whose schema is `schema_name`; a filter that is
    /// absent lets every row pass.
    pub fn list_tables(
        &self,
        catalog_name: Option<&str>,
        schema_name: Option<&str>,
        search_term: Option<&str>,
    ) -> (found: Vec<ListTableResultSet>)
        ensures
            found.deep_view() == listed_tables(
                self.tables@,
                optional_view(catalog_name),
                optional_view(schema_name),
                optional_view(search_term),
            ),
    {
        let mut found: Vec<ListTableResultSet> = Vec::new();
        let mut i: usize = 0;
        while i < self.tables.len()
            invariant
                i <= self.tables.len(),
                found.deep_view() == listed_tables(
                    self.tables@.take(i as int),
                    optional_view(catalog_name),
                    optional_view(schema_name),
                    optional_view(search_term),
                ),
            decreases self.tables.len() - i,
        {
            let row = &self.tables[i];
            assert(self.tables@.take(i + 1).drop_last() =~= self.tables@.take(i as int));
            if wanted_name(row.name.as_str(), search_term) && wanted_scope(
                row.catalog_name.as_str(),
                catalog_name,
            ) && wanted_scope(row.schema_name.as_str(), schema_name) {
                found.push(
                    ListTableResultSet {
                        name: row.name.clone(),
                        catalog_name: row.catalog_name.clone(),
                        schema_name: row.schema_name.clone(),
                    },
                );
            }
            i += 1;
        }
        assert(self.tables@.take(i as int) =~= self.tables@);
        found
    }
}

} // verus!
