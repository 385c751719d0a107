//! Rows of the metadata mirror as the authority reports them, and the rule
//! that keeps some catalogs out of the mirror.
use crate::text::is_listed;
use vstd::prelude::*;
use vstd::string::*;

verus! {

/// A catalog: the top level of the hierarchy.
#[derive(Debug, Clone)]
pub struct Catalog {
    pub name: String,
    pub owner: String,
    pub comment: Option<String>,
    pub storage_root: Option<String>,
    pub provider_name: Option<String>,
    pub share_name: Option<String>,
    pub enable_predictive_optimization: Option<String>,
    pub metastore_id: String,
    pub created_at: i64,
    pub created_by: String,
    pub updated_at: Option<i64>,
    pub updated_by: Option<String>,
    pub catalog_type: String,
    pub storage_location: Option<String>,
    pub isolation_mode: Option<String>,
    pub connection_name: Option<String>,
    pub full_name: String,
    pub securable_kind: Option<String>,
    pub securable_type: Option<String>,
    pub browse_only: Option<bool>,
}

/// A schema: owned by one catalog.
#[derive(Debug, Clone)]
pub struct Schema {
    pub name: String,
    pub catalog_name: String,
    pub owner: String,
    pub comment: Option<String>,
    pub storage_root: Option<String>,
    pub enable_predictive_optimization: Option<String>,
    pub metastore_id: String,
    pub full_name: String,
    pub storage_location: Option<String>,
    pub created_at: i64,
    pub created_by: String,
    pub updated_at: Option<i64>,
    pub updated_by: Option<String>,
    pub catalog_type: Option<String>,
    pub browse_only: Option<bool>,
    pub schema_id: String,
}

/// A table: owned by one schema of one catalog.
#[derive(Debug, Clone)]
pub struct Table {
    pub name: String,
    pub catalog_name: String,
    pub schema_name: String,
    pub table_type: String,
    pub data_source_format: Option<String>,
    /// Where the table's files lie.
    pub storage_location: Option<String>,
    pub view_definition: Option<String>,
    pub sql_path: Option<String>,
    pub owner: String,
    pub comment: Option<String>,
    pub storage_credential_name: Option<String>,
    pub enable_predictive_optimization: Option<String>,
    pub metastore_id: Option<String>,
    pub full_name: String,
    pub data_access_configuration_id: Option<String>,
    pub created_at: i64,
    pub created_by: String,
    pub updated_at: Option<i64>,
    pub updated_by: Option<String>,
    pub deleted_at: Option<i64>,
    pub table_id: String,
    pub access_point: Option<String>,
    pub pipeline_id: Option<String>,
    pub browse_only: Option<bool>,
}

/// The authority's list of catalogs.
#[derive(Debug, Clone)]
pub struct CatalogResponse {
    pub catalogs: Vec<Catalog>,
}

impl CatalogResponse {
    /// A list holding `catalogs`.
    pub fn new(catalogs: Vec<Catalog>) -> (response: Self)
        ensures
            response.catalogs == catalogs,
    {
        CatalogResponse { catalogs }
    }
}

/// The authority's list of schemas; the list itself may be absent.
#[derive(Debug, Clone)]
pub struct SchemaResponse {
    pub schemas: Option<Vec<Schema>>,
}

impl SchemaResponse {
    /// A list holding `schemas`.
    pub fn new(schemas: Vec<Schema>) -> (response: Self)
        ensures
            response.schemas == Some(schemas),
    {
        SchemaResponse { schemas: Some(schemas) }
    }
}

/// The authority's list of tables; the list itself may be absent.
#[derive(Debug, Clone)]
pub struct TableResponse {
    pub tables: Option<Vec<Table>>,
}

impl TableResponse {
    /// A list holding `tables`.
    pub fn new(tables: Vec<Table>) -> (response: Self)
        ensures
            response.tables == Some(tables),
    {
        TableResponse { tables: Some(tables) }
    }
}

/// The rows of an optional list; none where the list is absent.
pub open spec fn rows<T>(list: Option<Vec<T>>) -> Seq<T> {
    match list {
        Some(items) => items@,
        None => Seq::empty(),
    }
}

/// Which catalogs stay out of the mirror: those of a sharing or federation
/// type, and those named as internal.
#[derive(Debug, Clone)]
pub struct ExclusionPolicy {
    pub catalog_types: Vec<String>,
    pub catalog_names: Vec<String>,
}

/// Mathematical value of an [`ExclusionPolicy`].
pub struct PolicyView {
    pub catalog_types: Seq<Seq<char>>,
    pub catalog_names: Seq<Seq<char>>,
}

impl View for ExclusionPolicy {
    type V = PolicyView;

    open spec fn view(&self) -> PolicyView {
        PolicyView {
            catalog_types: self.catalog_types.deep_view(),
            catalog_names: self.catalog_names.deep_view(),
        }
    }
}

impl PolicyView {
    /// Whether a catalog of this type and name is kept out.
    pub open spec fn excludes(self, catalog_type: Seq<char>, name: Seq<char>) -> bool {
        self.catalog_types.contains(catalog_type) || self.catalog_names.contains(name)
    }

    /// Whether `catalog` is kept out.
    pub open spec fn excludes_catalog(self, catalog: Catalog) -> bool {
        self.excludes(catalog.catalog_type@, catalog.name@)
    }

    /// The catalogs of `listed` that are not kept out, in their order.
    pub open spec fn kept(self, listed: Seq<Catalog>) -> Seq<Catalog>
        decreases listed.len(),
    {
        if listed.len() == 0 {
            Seq::empty()
        } else if self.excludes_catalog(listed.last()) {
            self.kept(listed.drop_last())
        } else {
            self.kept(listed.drop_last()).push(listed.last())
        }
    }

    /// The policy in force unless configured otherwise: shared catalogs by
    /// type, the platform's internal catalog and the hive test catalog by
    /// name.
    pub open spec fn standard() -> PolicyView {
        PolicyView {
            catalog_types: seq!["DELTASHARING_CATALOG"@],
            catalog_names: seq!["__databricks_internal"@, "adrian_hive_test"@],
        }
    }
}

/// Every catalog that the policy keeps was listed and is not excluded, and
/// every listed catalog that is not excluded is kept.
pub proof fn lemma_kept_is_the_rest(policy: PolicyView, listed: Seq<Catalog>)
    ensures
        forall|i: int|
            0 <= i < policy.kept(listed).len() ==> !policy.excludes_catalog(
                #[trigger] policy.kept(listed)[i],
            ) && listed.contains(policy.kept(listed)[i]),
        forall|j: int|
            0 <= j < listed.len() && !policy.excludes_catalog(#[trigger] listed[j])
                ==> policy.kept(listed).contains(listed[j]),
        policy.kept(listed).len() <= listed.len(),
    decreases listed.len(),
{
    if listed.len() > 0 {
        let rest = listed.drop_last();
        lemma_kept_is_the_rest(policy, rest);
        let kept_rest = policy.kept(rest);
        let kept = policy.kept(listed);
        assert forall|i: int| 0 <= i < kept.len() implies !policy.excludes_catalog(
            #[trigger] kept[i],
        ) && listed.contains(kept[i]) by {
            if i < kept_rest.len() {
                assert(kept[i] == kept_rest[i]);
                let k = choose|k: int| 0 <= k < rest.len() && rest[k] == kept_rest[i];
                assert(listed[k] == kept[i]);
            } else {
                assert(kept[i] == listed[listed.len() - 1]);
            }
        }
        assert forall|j: int|
            0 <= j < listed.len() && !policy.excludes_catalog(
                #[trigger] listed[j],
            ) implies kept.contains(listed[j]) by {
            if j < rest.len() {
                assert(rest[j] == listed[j]);
                let k = choose|k: int| 0 <= k < kept_rest.len() && kept_rest[k] == rest[j];
                assert(kept[k] == listed[j]);
            } else {
                assert(kept[kept.len() - 1] == listed[j]);
            }
        }
    }
}

impl ExclusionPolicy {
    /// The policy in force unless configured otherwise.
    pub fn standard() -> (policy: Self)
        ensures
            policy@ == PolicyView::standard(),
    {
        let mut catalog_types: Vec<String> = Vec::new();
        catalog_types.push(String::from_str("DELTASHARING_CATALOG"));
        let mut catalog_names: Vec<String> = Vec::new();
        catalog_names.push(String::from_str("__databricks_internal"));
        catalog_names.push(String::from_str("adrian_hive_test"));
        let policy = ExclusionPolicy { catalog_types, catalog_names };
        assert(policy@.catalog_types =~= PolicyView::standard().catalog_types);
        assert(policy@.catalog_names =~= PolicyView::standard().catalog_names);
        policy
    }

    /// Whether `catalog` is kept out of the mirror.
    pub fn excludes(&self, catalog: &Catalog) -> (excluded: bool)
        ensures
            excluded == self@.excludes_catalog(*catalog),
    {
        is_listed(&catalog.catalog_type, &self.catalog_types) || is_listed(
            &catalog.name,
            &self.catalog_names,
        )
    }

    /// The catalogs of `listed` that are not kept out, in their order.
    pub fn keep(&self, listed: Vec<Catalog>) -> (kept: Vec<Catalog>)
        ensures
            kept@ == self@.kept(listed@),
    {
        let mut kept: Vec<Catalog> = Vec::new();
        for catalog in it: listed
            invariant
                it.seq() == listed@,
                kept@ == self@.kept(listed@.take(it.index())),
        {
            let ghost at = it.index();
            assert(listed@.take(at + 1).drop_last() =~= listed@.take(at));
            if !self.excludes(&catalog) {
                kept.push(catalog);
            }
        }
        assert(listed@.take(listed@.len() as int) =~= listed@);
        kept
    }
}

} // verus!
