use catalog_gate::cache::{upsert, MetadataCache};
use catalog_gate::metastore::{
    Catalog, CatalogResponse, Schema, SchemaResponse, Table, TableResponse,
};
use catalog_gate::sql_client::{SqlClient, SqlValue};

fn catalog(name: &str, owner: &str) -> Catalog {
    Catalog {
        name: String::from(name),
        owner: String::from(owner),
        comment: None,
        storage_root: Some(String::from("abfss://root")),
        provider_name: None,
        share_name: None,
        enable_predictive_optimization: None,
        metastore_id: String::from("m1"),
        created_at: 17,
        created_by: String::from("admin"),
        updated_at: Some(18),
        updated_by: None,
        catalog_type: String::from("MANAGED_CATALOG"),
        storage_location: None,
        isolation_mode: None,
        connection_name: None,
        full_name: String::from(name),
        securable_kind: None,
        securable_type: None,
        browse_only: Some(false),
    }
}

fn schema(catalog_name: &str, name: &str, owner: &str) -> Schema {
    Schema {
        name: String::from(name),
        catalog_name: String::from(catalog_name),
        owner: String::from(owner),
        comment: None,
        storage_root: None,
        enable_predictive_optimization: None,
        metastore_id: String::from("m1"),
        full_name: format!("{catalog_name}.{name}"),
        storage_location: None,
        created_at: 1,
        created_by: String::from("admin"),
        updated_at: None,
        updated_by: None,
        catalog_type: None,
        browse_only: None,
        schema_id: String::from("sid"),
    }
}

fn table(catalog_name: &str, schema_name: &str, name: &str, owner: &str) -> Table {
    Table {
        name: String::from(name),
        catalog_name: String::from(catalog_name),
        schema_name: String::from(schema_name),
        table_type: String::from("MANAGED"),
        data_source_format: Some(String::from("DELTA")),
        storage_location: Some(format!("abfss://lake/{name}")),
        view_definition: None,
        sql_path: None,
        owner: String::from(owner),
        comment: None,
        storage_credential_name: None,
        enable_predictive_optimization: None,
        metastore_id: None,
        full_name: format!("{catalog_name}.{schema_name}.{name}"),
        data_access_configuration_id: None,
        created_at: 5,
        created_by: String::from("admin"),
        updated_at: None,
        updated_by: None,
        deleted_at: None,
        table_id: String::from("tid"),
        access_point: None,
        pipeline_id: None,
        browse_only: None,
    }
}

#[test]
fn writing_a_row_twice_leaves_one_row() {
    let mut cache = MetadataCache::new();
    cache.write_catalogs(CatalogResponse::new(vec![catalog("c1", "alice")]));
    cache.write_catalogs(CatalogResponse::new(vec![catalog("c1", "alice")]));
    assert_eq!(cache.catalogs.len(), 1);
    assert_eq!(cache.catalogs[0].owner, "alice");

    cache.write_schemas(SchemaResponse::new(vec![schema("c1", "s1", "bob")]));
    cache.write_schemas(SchemaResponse::new(vec![schema("c1", "s1", "bob")]));
    assert_eq!(cache.schemas.len(), 1);

    cache.write_tables(TableResponse::new(vec![table("c1", "s1", "t1", "erin")]));
    cache.write_tables(TableResponse::new(vec![table("c1", "s1", "t1", "erin")]));
    assert_eq!(cache.tables.len(), 1);
}

#[test]
fn a_later_write_replaces_every_field() {
    let mut cache = MetadataCache::new();
    cache.write_tables(TableResponse::new(vec![
        table("c1", "s1", "t1", "erin"),
        table("c1", "s1", "t2", "erin"),
    ]));
    let mut changed = table("c1", "s1", "t1", "frank");
    changed.storage_location = None;
    changed.comment = Some(String::from("moved"));
    cache.write_tables(TableResponse::new(vec![changed]));
    assert_eq!(cache.tables.len(), 2);
    let row = cache.tables.iter().find(|t| t.full_name == "c1.s1.t1").unwrap();
    assert_eq!(row.owner, "frank");
    assert_eq!(row.storage_location, None);
    assert_eq!(row.comment.as_deref(), Some("moved"));
    assert_eq!(cache.tables[0].full_name, "c1.s1.t2");
    assert_eq!(cache.tables[1].full_name, "c1.s1.t1");
}

#[test]
fn the_same_key_twice_in_one_write_keeps_the_last() {
    let mut cache = MetadataCache::new();
    cache.write_catalogs(CatalogResponse::new(vec![
        catalog("c1", "alice"),
        catalog("c2", "bob"),
        catalog("c1", "carol"),
    ]));
    assert_eq!(cache.catalogs.len(), 2);
    assert_eq!(cache.catalogs[0].name, "c2");
    assert_eq!(cache.catalogs[1].owner, "carol");
}

#[test]
fn absent_lists_write_nothing_and_stale_rows_stay() {
    let mut cache = MetadataCache::new();
    cache.write_schemas(SchemaResponse::new(vec![schema("c1", "old", "bob")]));
    cache.write_schemas(SchemaResponse { schemas: None });
    cache.write_tables(TableResponse { tables: None });
    cache.write_schemas(SchemaResponse::new(vec![schema("c1", "new", "bob")]));
    assert_eq!(cache.schemas.len(), 2);
    assert_eq!(cache.tables.len(), 0);
}

#[test]
fn upsert_moves_a_replaced_row_to_the_end() {
    let held = vec![catalog("a", "1"), catalog("b", "2"), catalog("c", "3")];
    let after = upsert(held, catalog("a", "9"));
    let names: Vec<&str> = after.iter().map(|c| c.name.as_str()).collect();
    assert_eq!(names, vec!["b", "c", "a"]);
    assert_eq!(after[2].owner, "9");
}

fn filled() -> MetadataCache {
    let mut cache = MetadataCache::new();
    cache.write_catalogs(CatalogResponse::new(vec![
        catalog("rac_demo_catalog", "alice"),
        catalog("main", "alice"),
        catalog("demo_two", "bob"),
    ]));
    cache.write_schemas(SchemaResponse::new(vec![
        schema("main", "product", "bob"),
        schema("rac_demo_catalog", "productcopy_demo", "bob"),
        schema("rac_demo_catalog", "retail_pos", "bob"),
    ]));
    cache.write_tables(TableResponse::new(vec![
        table("main", "product", "clean_orders", "erin"),
        table("rac_demo_catalog", "productcopy_demo", "clean_items", "erin"),
        table("rac_demo_catalog", "productcopy_demo", "raw_items", "erin"),
        table("rac_demo_catalog", "retail_pos", "clean_sales", "erin"),
    ]));
    cache
}

#[test]
fn catalogs_are_filtered_by_substring() {
    let cache = filled();
    let all: Vec<String> = cache.list_catalogs(None).into_iter().map(|r| r.name).collect();
    assert_eq!(all, vec!["rac_demo_catalog", "main", "demo_two"]);
    let some: Vec<String> =
        cache.list_catalogs(Some("demo")).into_iter().map(|r| r.name).collect();
    assert_eq!(some, vec!["rac_demo_catalog", "demo_two"]);
    assert!(cache.list_catalogs(Some("DEMO")).is_empty());
}

#[test]
fn schemas_are_filtered_by_catalog_and_substring() {
    let cache = filled();
    let found = cache.list_schemas(Some("rac_demo_catalog"), Some("product"));
    assert_eq!(found.len(), 1);
    assert_eq!(found[0].name, "productcopy_demo");
    assert_eq!(found[0].catalog_name, "rac_demo_catalog");
    assert_eq!(cache.list_schemas(None, Some("product")).len(), 2);
    assert_eq!(cache.list_schemas(Some("rac_demo_catalog"), None).len(), 2);
    assert_eq!(cache.list_schemas(Some("rac_demo"), None).len(), 0);
    assert_eq!(cache.list_schemas(None, None).len(), 3);
}

#[test]
fn tables_are_filtered_by_every_filter_given() {
    let cache = filled();
    let found =
        cache.list_tables(Some("rac_demo_catalog"), Some("productcopy_demo"), Some("clean"));
    assert_eq!(found.len(), 1);
    assert_eq!(found[0].name, "clean_items");
    assert_eq!(found[0].schema_name, "productcopy_demo");
    assert_eq!(cache.list_tables(None, None, Some("clean")).len(), 3);
    assert_eq!(cache.list_tables(Some("rac_demo_catalog"), None, Some("clean")).len(), 2);
    assert_eq!(cache.list_tables(None, Some("productcopy_demo"), None).len(), 2);
    assert_eq!(cache.list_tables(Some("main"), Some("retail_pos"), None).len(), 0);
    assert_eq!(cache.list_tables(None, None, None).len(), 4);
}

fn text(value: &SqlValue) -> Option<&str> {
    match value {
        SqlValue::Text(text) => Some(text.as_str()),
        _ => None,
    }
}

#[test]
fn catalog_upsert_statement() {
    let client = SqlClient::new("sqlite://mirror.db");
    assert_eq!(client.database_path, "sqlite://mirror.db");
    let statements =
        client.write_catalogs(&CatalogResponse::new(vec![catalog("c1", "alice")]));
    assert_eq!(statements.len(), 1);
    assert_eq!(
        statements[0].sql,
        "INSERT OR REPLACE INTO catalogs (name, owner, comment, storage_root, provider_name, \
         share_name, enable_predictive_optimization, metastore_id, created_at, created_by, \
         updated_at, updated_by, catalog_type, storage_location, isolation_mode, \
         connection_name, full_name, securable_kind, securable_type, browse_only) VALUES \
         ($1, $2, $3, $4, $5, $6, $7, $8, $9, $10, $11, $12, $13, $14, $15, $16, $17, $18, \
         $19, $20)"
    );
    let params = &statements[0].params;
    assert_eq!(params.len(), 20);
    assert_eq!(text(&params[0]), Some("c1"));
    assert_eq!(text(&params[1]), Some("alice"));
    assert!(matches!(params[2], SqlValue::Null));
    assert_eq!(text(&params[3]), Some("abfss://root"));
    assert!(matches!(params[8], SqlValue::Integer(17)));
    assert!(matches!(params[10], SqlValue::Integer(18)));
    assert_eq!(text(&params[12]), Some("MANAGED_CATALOG"));
    assert_eq!(text(&params[16]), Some("c1"));
    assert!(matches!(params[19], SqlValue::Boolean(false)));
}

#[test]
fn schema_and_table_upsert_statements() {
    let client = SqlClient::new("x");
    let schemas = client.write_schemas(&SchemaResponse::new(vec![
        schema("c1", "s1", "bob"),
        schema("c1", "s2", "bob"),
    ]));
    assert_eq!(schemas.len(), 2);
    assert!(schemas[1].sql.starts_with("INSERT OR REPLACE INTO schemas (name, catalog_name, owner,"));
    assert!(schemas[1].sql.ends_with("$14, $15, $16)"));
    assert_eq!(schemas[1].params.len(), 16);
    assert_eq!(text(&schemas[1].params[7]), Some("c1.s2"));
    assert_eq!(text(&schemas[1].params[15]), Some("sid"));

    let tables =
        client.write_tables(&TableResponse::new(vec![table("c1", "s1", "t1", "erin")]));
    assert_eq!(tables.len(), 1);
    assert!(tables[0].sql.starts_with(
        "INSERT OR REPLACE INTO tables (name, catalog_name, schema_name, table_type,"
    ));
    assert!(tables[0].sql.ends_with("$22, $23, $24)"));
    assert_eq!(tables[0].params.len(), 24);
    assert_eq!(text(&tables[0].params[5]), Some("abfss://lake/t1"));
    assert_eq!(text(&tables[0].params[13]), Some("c1.s1.t1"));
    assert!(matches!(tables[0].params[19], SqlValue::Null));

    assert!(client.write_schemas(&SchemaResponse { schemas: None }).is_empty());
    assert!(client.write_tables(&TableResponse { tables: None }).is_empty());
    assert!(client.write_catalogs(&CatalogResponse::new(vec![])).is_empty());
}

#[test]
fn listing_queries_bind_their_filters() {
    let client = SqlClient::new("x");
    let all = client.list_catalogs(None);
    assert_eq!(all.sql, "SELECT name FROM catalogs");
    assert!(all.params.is_empty());

    let some = client.list_catalogs(Some("rac"));
    assert_eq!(some.sql, "SELECT name FROM catalogs WHERE instr(name, $1) > 0");
    assert_eq!(text(&some.params[0]), Some("rac"));

    let schemas = client.list_schemas(Some("rac_demo_catalog"), Some("product"));
    assert_eq!(
        schemas.sql,
        "SELECT name, catalog_name FROM schemas WHERE instr(name, $1) > 0 AND catalog_name = $2"
    );
    assert_eq!(text(&schemas.params[0]), Some("product"));
    assert_eq!(text(&schemas.params[1]), Some("rac_demo_catalog"));

    let by_catalog = client.list_schemas(Some("main"), None);
    assert_eq!(by_catalog.sql, "SELECT name, catalog_name FROM schemas WHERE catalog_name = $1");

    let tables = client.list_tables(Some("c"), Some("s"), Some("t'; --"));
    assert_eq!(
        tables.sql,
        "SELECT name, catalog_name, schema_name FROM tables WHERE instr(name, $1) > 0 AND \
         catalog_name = $2 AND schema_name = $3"
    );
    assert_eq!(text(&tables.params[0]), Some("t'; --"));
    assert_eq!(text(&tables.params[2]), Some("s"));

    let by_schema = client.list_tables(None, Some("s"), None);
    assert_eq!(
        by_schema.sql,
        "SELECT name, catalog_name, schema_name FROM tables WHERE schema_name = $1"
    );
    assert_eq!(client.list_tables(None, None, None).params.len(), 0);
}
