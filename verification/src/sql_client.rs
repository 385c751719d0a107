//! Statements for the persistent mirror: one upsert per row, and one filtered
//! query per listing. Executing them is left to the caller; every value
//! travels as a bound parameter, never inside the statement text.
use crate::metastore::{
    rows, Catalog, CatalogResponse, Schema, SchemaResponse, Table, TableResponse,
};
use crate::text::{decimal, decimal_seq, optional_view};
use vstd::prelude::*;
use vstd::string::*;

verus! {

/// A value bound to a statement parameter.
#[derive(Debug, Clone)]
pub enum SqlValue {
    Null,
    Text(String),
    Integer(i64),
    Boolean(bool),
}

/// Mathematical value of a [`SqlValue`].
pub enum SqlValueView {
    Null,
    Text(Seq<char>),
    Integer(i64),
    Boolean(bool),
}

impl DeepView for SqlValue {
    type V = SqlValueView;

    open spec fn deep_view(&self) -> SqlValueView {
        match self {
            SqlValue::Null => SqlValueView::Null,
            SqlValue::Text(text) => SqlValueView::Text(text@),
            SqlValue::Integer(number) => SqlValueView::Integer(*number),
            SqlValue::Boolean(flag) => SqlValueView::Boolean(*flag),
        }
    }
}

impl View for SqlValue {
    type V = SqlValueView;

    open spec fn view(&self) -> SqlValueView {
        self.deep_view()
    }
}

/// The value of a text column.
pub open spec fn text(value: String) -> SqlValueView {
    SqlValueView::Text(value@)
}

/// The value of a text column that may be null.
pub open spec fn optional_text(value: Option<String>) -> SqlValueView {
    match value {
        Some(text) => SqlValueView::Text(text@),
        None => SqlValueView::Null,
    }
}

/// The value of an integer column that may be null.
pub open spec fn optional_integer(value: Option<i64>) -> SqlValueView {
    match value {
        Some(number) => SqlValueView::Integer(number),
        None => SqlValueView::Null,
    }
}

/// The value of a boolean column that may be null.
pub open spec fn optional_boolean(value: Option<bool>) -> SqlValueView {
    match value {
        Some(flag) => SqlValueView::Boolean(flag),
        None => SqlValueView::Null,
    }
}

/// A column with the value bound to it.
#[derive(Debug, Clone)]
pub struct Field {
    pub column: &'static str,
    pub value: SqlValue,
}

impl DeepView for Field {
    type V = (Seq<char>, SqlValueView);

    open spec fn deep_view(&self) -> (Seq<char>, SqlValueView) {
        (self.column@, self.value@)
    }
}

/// A statement with its parameters, `$1` first.
#[derive(Debug, Clone)]
pub struct Statement {
    pub sql: String,
    pub params: Vec<SqlValue>,
}

/// The names of `fields`, in order.
pub open spec fn columns_of(fields: Seq<(Seq<char>, SqlValueView)>) -> Seq<Seq<char>> {
    Seq::new(fields.len(), |i: int| fields[i].0)
}

/// The values of `fields`, in order.
pub open spec fn values_of(fields: Seq<(Seq<char>, SqlValueView)>) -> Seq<SqlValueView> {
    Seq::new(fields.len(), |i: int| fields[i].1)
}

/// `columns` separated by a comma and a space.
pub open spec fn column_list(columns: Seq<Seq<char>>) -> Seq<char>
    decreases columns.len(),
{
    if columns.len() == 0 {
        Seq::empty()
    } else if columns.len() == 1 {
        columns[0]
    } else {
        column_list(columns.drop_last()) + ", "@ + columns.last()
    }
}

/// The placeholders `$1, $2, ...` up to `$count`.
pub open spec fn placeholders(count: nat) -> Seq<char>
    decreases count,
{
    if count == 0 {
        Seq::empty()
    } else if count == 1 {
        "$"@ + decimal_seq(1)
    } else {
        placeholders((count - 1) as nat) + ", $"@ + decimal_seq(count)
    }
}

/// The upsert of one row into `table`: insert, or replace the row that holds
/// the same key.
pub open spec fn upsert_text(table: Seq<char>, columns: Seq<Seq<char>>) -> Seq<char> {
    "INSERT OR REPLACE INTO "@ + table + " ("@ + column_list(columns) + ") VALUES ("@
        + placeholders(columns.len()) + ")"@
}

/// The columns and values of a catalog row.
pub open spec fn catalog_fields(row: Catalog) -> Seq<(Seq<char>, SqlValueView)> {
    seq![
        ("name"@, text(row.name)),
        ("owner"@, text(row.owner)),
        ("comment"@, optional_text(row.comment)),
        ("storage_root"@, optional_text(row.storage_root)),
        ("provider_name"@, optional_text(row.provider_name)),
        ("share_name"@, optional_text(row.share_name)),
        ("enable_predictive_optimization"@, optional_text(row.enable_predictive_optimization)),
        ("metastore_id"@, text(row.metastore_id)),
        ("created_at"@, SqlValueView::Integer(row.created_at)),
        ("created_by"@, text(row.created_by)),
        ("updated_at"@, optional_integer(row.updated_at)),
        ("updated_by"@, optional_text(row.updated_by)),
        ("catalog_type"@, text(row.catalog_type)),
        ("storage_location"@, optional_text(row.storage_location)),
        ("isolation_mode"@, optional_text(row.isolation_mode)),
        ("connection_name"@, optional_text(row.connection_name)),
        ("full_name"@, text(row.full_name)),
        ("securable_kind"@, optional_text(row.securable_kind)),
        ("securable_type"@, optional_text(row.securable_type)),
        ("browse_only"@, optional_boolean(row.browse_only)),
    ]
}

/// The columns and values of a schema row.
pub open spec fn schema_fields(row: Schema) -> Seq<(Seq<char>, SqlValueView)> {
    seq![
        ("name"@, text(row.name)),
        ("catalog_name"@, text(row.catalog_name)),
        ("owner"@, text(row.owner)),
        ("comment"@, optional_text(row.comment)),
        ("storage_root"@, optional_text(row.storage_root)),
        ("enable_predictive_optimization"@, optional_text(row.enable_predictive_optimization)),
        ("metastore_id"@, text(row.metastore_id)),
        ("full_name"@, text(row.full_name)),
        ("storage_location"@, optional_text(row.storage_location)),
        ("created_at"@, SqlValueView::Integer(row.created_at)),
        ("created_by"@, text(row.created_by)),
        ("updated_at"@, optional_integer(row.updated_at)),
        ("updated_by"@, optional_text(row.updated_by)),
        ("catalog_type"@, optional_text(row.catalog_type)),
        ("browse_only"@, optional_boolean(row.browse_only)),
        ("schema_id"@, text(row.schema_id)),
    ]
}

/// The columns and values of a table row.
pub open spec fn table_fields(row: Table) -> Seq<(Seq<char>, SqlValueView)> {
    seq![
        ("name"@, text(row.name)),
        ("catalog_name"@, text(row.catalog_name)),
        ("schema_name"@, text(row.schema_name)),
        ("table_type"@, text(row.table_type)),
        ("data_source_format"@, optional_text(row.data_source_format)),
        ("storage_location"@, optional_text(row.storage_location)),
        ("view_definition"@, optional_text(row.view_definition)),
        ("sql_path"@, optional_text(row.sql_path)),
        ("owner"@, text(row.owner)),
        ("comment"@, optional_text(row.comment)),
        ("storage_credential_name"@, optional_text(row.storage_credential_name)),
        ("enable_predictive_optimization"@, optional_text(row.enable_predictive_optimization)),
        ("metastore_id"@, optional_text(row.metastore_id)),
        ("full_name"@, text(row.full_name)),
        ("data_access_configuration_id"@, optional_text(row.data_access_configuration_id)),
        ("created_at"@, SqlValueView::Integer(row.created_at)),
        ("created_by"@, text(row.created_by)),
        ("updated_at"@, optional_integer(row.updated_at)),
        ("updated_by"@, optional_text(row.updated_by)),
        ("deleted_at"@, optional_integer(row.deleted_at)),
        ("table_id"@, text(row.table_id)),
        ("access_point"@, optional_text(row.access_point)),
        ("pipeline_id"@, optional_text(row.pipeline_id)),
        ("browse_only"@, optional_boolean(row.browse_only)),
    ]
}

/// The statement that upserts a row of `fields` into `table`.
pub struct StatementView {
    pub sql: Seq<char>,
    pub params: Seq<SqlValueView>,
}

impl DeepView for Statement {
    type V = StatementView;

    open spec fn deep_view(&self) -> StatementView {
        StatementView { sql: self.sql@, params: self.params.deep_view() }
    }
}

impl View for Statement {
    type V = StatementView;

    open spec fn view(&self) -> StatementView {
        self.deep_view()
    }
}

/// The upsert of a row of `fields` into `table`.
pub open spec fn upsert_of(table: Seq<char>, fields: Seq<(Seq<char>, SqlValueView)>) -> StatementView {
    StatementView { sql: upsert_text(table, columns_of(fields)), params: values_of(fields) }
}

/// An upsert binds exactly one value to each of its columns.
pub proof fn lemma_upsert_binds_every_column(
    table: Seq<char>,
    fields: Seq<(Seq<char>, SqlValueView)>,
)
    ensures
        upsert_of(table, fields).params.len() == columns_of(fields).len(),
        forall|i: int|
            0 <= i < fields.len() ==> upsert_of(table, fields).params[i] == fields[i].1
                && columns_of(fields)[i] == fields[i].0,
{
}

/// A catalog row has twenty columns, a schema row sixteen, a table row
/// twenty-four, and each is keyed by its full name.
pub proof fn lemma_row_widths(catalog: Catalog, schema: Schema, table: Table)
    ensures
        catalog_fields(catalog).len() == 20,
        schema_fields(schema).len() == 16,
        table_fields(table).len() == 24,
        catalog_fields(catalog)[16] == ("full_name"@, text(catalog.full_name)),
        schema_fields(schema)[7] == ("full_name"@, text(schema.full_name)),
        table_fields(table)[13] == ("full_name"@, text(table.full_name)),
{
}

fn text_field(column: &'static str, value: &String) -> (field: Field)
    ensures
        field.deep_view() == (column@, text(*value)),
{
    Field { column, value: SqlValue::Text(value.clone()) }
}

fn optional_text_field(column: &'static str, value: &Option<String>) -> (field: Field)
    ensures
        field.deep_view() == (column@, optional_text(*value)),
{
    match value {
        Some(text) => Field { column, value: SqlValue::Text(text.clone()) },
        None => Field { column, value: SqlValue::Null },
    }
}

fn integer_field(column: &'static str, value: i64) -> (field: Field)
    ensures
        field.deep_view() == (column@, SqlValueView::Integer(value)),
{
    Field { column, value: SqlValue::Integer(value) }
}

fn optional_integer_field(column: &'static str, value: &Option<i64>) -> (field: Field)
    ensures
        field.deep_view() == (column@, optional_integer(*value)),
{
    match value {
        Some(number) => Field { column, value: SqlValue::Integer(*number) },
        None => Field { column, value: SqlValue::Null },
    }
}

fn optional_boolean_field(column: &'static str, value: &Option<bool>) -> (field: Field)
    ensures
        field.deep_view() == (column@, optional_boolean(*value)),
{
    match value {
        Some(flag) => Field { column, value: SqlValue::Boolean(*flag) },
        None => Field { column, value: SqlValue::Null },
    }
}

/// The statement that upserts a row of `fields` into `table`.
pub fn upsert_statement(table: &str, fields: Vec<Field>) -> (statement: Statement)
    ensures
        statement@ == upsert_of(table@, fields.deep_view()),
{
    let ghost all = fields.deep_view();
    let ghost names = columns_of(all);
    let mut listed = String::new();
    let mut marks = String::new();
    let mut params: Vec<SqlValue> = Vec::new();
    let count = fields.len();
    for field in it: fields
        invariant
            it.seq() == fields@,
            all == fields.deep_view(),
            names == columns_of(all),
            count == fields.len(),
            listed@ == column_list(names.take(it.index())),
            marks@ == placeholders(it.index() as nat),
            params.len() == it.index(),
            params.deep_view() == values_of(all).take(it.index()),
    {
        let ghost at = it.index();
        assert(names.take(at + 1).drop_last() =~= names.take(at));
        if params.len() > 0 {
            listed.append(", ");
            marks.append(", $");
        } else {
            marks.append("$");
        }
        listed.append(field.column);
        let position = decimal(params.len() + 1);
        marks.append(position.as_str());
        params.push(field.value);
    }
    assert(names.take(count as int) =~= names);
    assert(values_of(all).take(count as int) =~= values_of(all));
    let mut sql = String::from_str("INSERT OR REPLACE INTO ");
    sql.append(table);
    sql.append(" (");
    sql.append(listed.as_str());
    sql.append(") VALUES (");
    sql.append(marks.as_str());
    sql.append(")");
    Statement { sql, params }
}

/// A row of a catalog listing.
#[derive(Debug, Clone)]
pub struct ListCatalogResultSet {
    pub name: String,
}

impl DeepView for ListCatalogResultSet {
    type V = Seq<char>;

    open spec fn deep_view(&self) -> Seq<char> {
        self.name@
    }
}

/// A row of a schema listing.
#[derive(Debug, Clone)]
pub struct ListSchemaResultSet {
    pub name: String,
    pub catalog_name: String,
}

impl DeepView for ListSchemaResultSet {
    type V = (Seq<char>, Seq<char>);

    open spec fn deep_view(&self) -> (Seq<char>, Seq<char>) {
        (self.name@, self.catalog_name@)
    }
}

/// A row of a table listing.
#[derive(Debug, Clone)]
pub struct ListTableResultSet {
    pub name: String,
    pub catalog_name: String,
    pub schema_name: String,
}

impl DeepView for ListTableResultSet {
    type V = (Seq<char>, Seq<char>, Seq<char>);

    open spec fn deep_view(&self) -> (Seq<char>, Seq<char>, Seq<char>) {
        (self.name@, self.catalog_name@, self.schema_name@)
    }
}

/// A test on one column: the text before the placeholder, the text after it,
/// and the value bound to it.
#[derive(Debug, Clone)]
pub struct Condition {
    pub before: &'static str,
    pub after: &'static str,
    pub value: String,
}

/// Mathematical value of a [`Condition`].
pub struct ConditionView {
    pub before: Seq<char>,
    pub after: Seq<char>,
    pub value: Seq<char>,
}

impl DeepView for Condition {
    type V = ConditionView;

    open spec fn deep_view(&self) -> ConditionView {
        ConditionView { before: self.before@, after: self.after@, value: self.value@ }
    }
}

/// The test that the name holds `term` somewhere.
pub open spec fn name_holds(term: Seq<char>) -> ConditionView {
    ConditionView { before: "instr(name, "@, after: ") > 0"@, value: term }
}

/// The test that the catalog is `catalog_name`.
pub open spec fn catalog_is(catalog_name: Seq<char>) -> ConditionView {
    ConditionView { before: "catalog_name = "@, after: ""@, value: catalog_name }
}

/// The test that the schema is `schema_name`.
pub open spec fn schema_is(schema_name: Seq<char>) -> ConditionView {
    ConditionView { before: "schema_name = "@, after: ""@, value: schema_name }
}

/// The condition that an optional filter gives: one test, or none.
pub open spec fn optional_condition(
    filter: Option<Seq<char>>,
    test: spec_fn(Seq<char>) -> ConditionView,
) -> Seq<ConditionView> {
    match filter {
        Some(value) => seq![test(value)],
        None => Seq::empty(),
    }
}

/// The `WHERE` clause that joins `conditions` with `AND`, the first bound to
/// `$1`; empty without conditions.
pub open spec fn where_clause(conditions: Seq<ConditionView>) -> Seq<char>
    decreases conditions.len(),
{
    if conditions.len() == 0 {
        Seq::empty()
    } else {
        let lead = if conditions.len() == 1 {
            " WHERE "@
        } else {
            where_clause(conditions.drop_last()) + " AND "@
        };
        lead + conditions.last().before + "$"@ + decimal_seq(conditions.len())
            + conditions.last().after
    }
}

/// The values that `conditions` bind, in order.
pub open spec fn bound_values(conditions: Seq<ConditionView>) -> Seq<SqlValueView> {
    Seq::new(conditions.len(), |i: int| SqlValueView::Text(conditions[i].value))
}

/// The query for `columns` of the rows of `table` that pass `conditions`.
pub open spec fn select_of(
    columns: Seq<char>,
    table: Seq<char>,
    conditions: Seq<ConditionView>,
) -> StatementView {
    StatementView {
        sql: "SELECT "@ + columns + " FROM "@ + table + where_clause(conditions),
        params: bound_values(conditions),
    }
}

/// The query for `columns` of the rows of `table` that pass `conditions`.
pub fn select_statement(columns: &str, table: &str, conditions: Vec<Condition>) -> (statement:
    Statement)
    ensures
        statement@ == select_of(columns@, table@, conditions.deep_view()),
{
    let ghost all = conditions.deep_view();
    let mut clause = String::new();
    let mut params: Vec<SqlValue> = Vec::new();
    let count = conditions.len();
    for condition in it: conditions
        invariant
            it.seq() == conditions@,
            all == conditions.deep_view(),
            count == conditions.len(),
            params.len() == it.index(),
            clause@ == where_clause(all.take(it.index())),
            params.deep_view() == bound_values(all).take(it.index()),
    {
        let ghost at = it.index();
        assert(all.take(at + 1).drop_last() =~= all.take(at));
        if params.len() > 0 {
            clause.append(" AND ");
        } else {
            clause.append(" WHERE ");
        }
        clause.append(condition.before);
        clause.append("$");
        let position = decimal(params.len() + 1);
        clause.append(position.as_str());
        clause.append(condition.after);
        params.push(SqlValue::Text(condition.value));
    }
    assert(all.take(all.len() as int) =~= all);
    assert(bound_values(all).take(all.len() as int) =~= bound_values(all));
    let mut sql = String::from_str("SELECT ");
    sql.append(columns);
    sql.append(" FROM ");
    sql.append(table);
    sql.append(clause.as_str());
    Statement { sql, params }
}

fn push_name_filter(conditions: &mut Vec<Condition>, search_term: Option<&str>)
    ensures
        final(conditions).deep_view() == old(conditions).deep_view() + optional_condition(
            optional_view(search_term),
            |term: Seq<char>| name_holds(term),
        ),
{
    match search_term {
        Some(term) => {
            conditions.push(
                Condition { before: "instr(name, ", after: ") > 0", value: String::from_str(term) },
            );
        },
        None => {},
    }
}

fn push_catalog_filter(conditions: &mut Vec<Condition>, catalog_name: Option<&str>)
    ensures
        final(conditions).deep_view() == old(conditions).deep_view() + optional_condition(
            optional_view(catalog_name),
            |name: Seq<char>| catalog_is(name),
        ),
{
    match catalog_name {
        Some(name) => {
            conditions.push(
                Condition { before: "catalog_name = ", after: "", value: String::from_str(name) },
            );
        },
        None => {},
    }
}

fn push_schema_filter(conditions: &mut Vec<Condition>, schema_name: Option<&str>)
    ensures
        final(conditions).deep_view() == old(conditions).deep_view() + optional_condition(
            optional_view(schema_name),
            |name: Seq<char>| schema_is(name),
        ),
{
    match schema_name {
        Some(name) => {
            conditions.push(
                Condition { before: "schema_name = ", after: "", value: String::from_str(name) },
            );
        },
        None => {},
    }
}

/// Planner of the statements that the persistent mirror runs.
#[derive(Debug, Clone)]
pub struct SqlClient {
    pub database_path: String,
}

impl SqlClient {
    /// A planner for the mirror stored at `database_path`.
    pub fn new(database_path: &str) -> (client: Self)
        ensures
            client.database_path@ == database_path@,
    {
        SqlClient { database_path: String::from_str(database_path) }
    }

    /// The upsert of one catalog.
    pub fn catalog_upsert(row: &Catalog) -> (statement: Statement)
        ensures
            statement@ == upsert_of("catalogs"@, catalog_fields(*row)),
    {
        let mut fields: Vec<Field> = Vec::new();
        fields.push(text_field("name", &row.name));
        fields.push(text_field("owner", &row.owner));
        fields.push(optional_text_field("comment", &row.comment));
        fields.push(optional_text_field("storage_root", &row.storage_root));
        fields.push(optional_text_field("provider_name", &row.provider_name));
        fields.push(optional_text_field("share_name", &row.share_name));
        fields.push(
            optional_text_field(
                "enable_predictive_optimization",
                &row.enable_predictive_optimization,
            ),
        );
        fields.push(text_field("metastore_id", &row.metastore_id));
        fields.push(integer_field("created_at", row.created_at));
        fields.push(text_field("created_by", &row.created_by));
        fields.push(optional_integer_field("updated_at", &row.updated_at));
        fields.push(optional_text_field("updated_by", &row.updated_by));
        fields.push(text_field("catalog_type", &row.catalog_type));
        fields.push(optional_text_field("storage_location", &row.storage_location));
        fields.push(optional_text_field("isolation_mode", &row.isolation_mode));
        fields.push(optional_text_field("connection_name", &row.connection_name));
        fields.push(text_field("full_name", &row.full_name));
        fields.push(optional_text_field("securable_kind", &row.securable_kind));
        fields.push(optional_text_field("securable_type", &row.securable_type));
        fields.push(optional_boolean_field("browse_only", &row.browse_only));
        assert(fields.deep_view() =~= catalog_fields(*row));
        upsert_statement("catalogs", fields)
    }

    /// The upsert of one schema.
    pub fn schema_upsert(row: &Schema) -> (statement: Statement)
        ensures
            statement@ == upsert_of("schemas"@, schema_fields(*row)),
    {
        let mut fields: Vec<Field> = Vec::new();
        fields.push(text_field("name", &row.name));
        fields.push(text_field("catalog_name", &row.catalog_name));
        fields.push(text_field("owner", &row.owner));
        fields.push(optional_text_field("comment", &row.comment));
        fields.push(optional_text_field("storage_root", &row.storage_root));
        fields.push(
            optional_text_field(
                "enable_predictive_optimization",
                &row.enable_predictive_optimization,
            ),
        );
        fields.push(text_field("metastore_id", &row.metastore_id));
        fields.push(text_field("full_name", &row.full_name));
        fields.push(optional_text_field("storage_location", &row.storage_location));
        fields.push(integer_field("created_at", row.created_at));
        fields.push(text_field("created_by", &row.created_by));
        fields.push(optional_integer_field("updated_at", &row.updated_at));
        fields.push(optional_text_field("updated_by", &row.updated_by));
        fields.push(optional_text_field("catalog_type", &row.catalog_type));
        fields.push(optional_boolean_field("browse_only", &row.browse_only));
        fields.push(text_field("schema_id", &row.schema_id));
        assert(fields.deep_view() =~= schema_fields(*row));
        upsert_statement("schemas", fields)
    }

    /// The upsert of one table.
    pub fn table_upsert(row: &Table) -> (statement: Statement)
        ensures
            statement@ == upsert_of("tables"@, table_fields(*row)),
    {
        let mut fields: Vec<Field> = Vec::new();
        fields.push(text_field("name", &row.name));
        fields.push(text_field("catalog_name", &row.catalog_name));
        fields.push(text_field("schema_name", &row.schema_name));
        fields.push(text_field("table_type", &row.table_type));
        fields.push(optional_text_field("data_source_format", &row.data_source_format));
        fields.push(optional_text_field("storage_location", &row.storage_location));
        fields.push(optional_text_field("view_definition", &row.view_definition));
        fields.push(optional_text_field("sql_path", &row.sql_path));
        fields.push(text_field("owner", &row.owner));
        fields.push(optional_text_field("comment", &row.comment));
        fields.push(optional_text_field("storage_credential_name", &row.storage_credential_name));
        fields.push(
            optional_text_field(
                "enable_predictive_optimization",
                &row.enable_predictive_optimization,
            ),
        );
        fields.push(optional_text_field("metastore_id", &row.metastore_id));
        fields.push(text_field("full_name", &row.full_name));
        fields.push(
            optional_text_field("data_access_configuration_id", &row.data_access_configuration_id),
        );
        fields.push(integer_field("created_at", row.created_at));
        fields.push(text_field("created_by", &row.created_by));
        fields.push(optional_integer_field("updated_at", &row.updated_at));
        fields.push(optional_text_field("updated_by", &row.updated_by));
        fields.push(optional_integer_field("deleted_at", &row.deleted_at));
        fields.push(text_field("table_id", &row.table_id));
        fields.push(optional_text_field("access_point", &row.access_point));
        fields.push(optional_text_field("pipeline_id", &row.pipeline_id));
        fields.push(optional_boolean_field("browse_only", &row.browse_only));
        assert(fields.deep_view() =~= table_fields(*row));
        upsert_statement("tables", fields)
    }

    /// One upsert per catalog of `catalog_response`, in its order.
    pub fn write_catalogs(&self, catalog_response: &CatalogResponse) -> (statements: Vec<Statement>)
        ensures
            statements.len() == catalog_response.catalogs.len(),
            forall|i: int|
                0 <= i < statements.len() ==> (#[trigger] statements[i])@ == upsert_of(
                    "catalogs"@,
                    catalog_fields(catalog_response.catalogs[i]),
                ),
    {
        let mut statements: Vec<Statement> = Vec::new();
        let mut i: usize = 0;
        while i < catalog_response.catalogs.len()
            invariant
                i <= catalog_response.catalogs.len(),
                statements.len() == i,
                forall|k: int|
                    0 <= k < i ==> (#[trigger] statements[k])@ == upsert_of(
                        "catalogs"@,
                        catalog_fields(catalog_response.catalogs[k]),
                    ),
            decreases catalog_response.catalogs.len() - i,
        {
            statements.push(Self::catalog_upsert(&catalog_response.catalogs[i]));
            i += 1;
        }
        statements
    }

    /// One upsert per schema of `schema_response`, in its order; none where
    /// the list is absent.
    pub fn write_schemas(&self, schema_response: &SchemaResponse) -> (statements: Vec<Statement>)
        ensures
            statements.len() == rows(schema_response.schemas).len(),
            forall|i: int|
                0 <= i < statements.len() ==> (#[trigger] statements[i])@ == upsert_of(
                    "schemas"@,
                    schema_fields(rows(schema_response.schemas)[i]),
                ),
    {
        let mut statements: Vec<Statement> = Vec::new();
        match &schema_response.schemas {
            Some(schemas) => {
                let mut i: usize = 0;
                while i < schemas.len()
                    invariant
                        i <= schemas.len(),
                        statements.len() == i,
                        forall|k: int|
                            0 <= k < i ==> (#[trigger] statements[k])@ == upsert_of(
                                "schemas"@,
                                schema_fields(schemas[k]),
                            ),
                    decreases schemas.len() - i,
                {
                    statements.push(Self::schema_upsert(&schemas[i]));
                    i += 1;
                }
            },
            None => {},
        }
        statements
    }

    /// One upsert per table of `table_response`, in its order; none where
    /// the list is absent.
    pub fn write_tables(&self, table_response: &TableResponse) -> (statements: Vec<Statement>)
        ensures
            statements.len() == rows(table_response.tables).len(),
            forall|i: int|
                0 <= i < statements.len() ==> (#[trigger] statements[i])@ == upsert_of(
                    "tables"@,
                    table_fields(rows(table_response.tables)[i]),
                ),
    {
        let mut statements: Vec<Statement> = Vec::new();
        match &table_response.tables {
            Some(tables) => {
                let mut i: usize = 0;
                while i < tables.len()
                    invariant
                        i <= tables.len(),
                        statements.len() == i,
                        forall|k: int|
                            0 <= k < i ==> (#[trigger] statements[k])@ == upsert_of(
                                "tables"@,
                                table_fields(tables[k]),
                            ),
                    decreases tables.len() - i,
                {
                    statements.push(Self::table_upsert(&tables[i]));
                    i += 1;
                }
            },
            None => {},
        }
        statements
    }

    /// The query for the names of the catalogs whose name holds
    /// `search_term`; of all catalogs without one.
    pub fn list_catalogs(&self, search_term: Option<&str>) -> (query: Statement)
        ensures
            query@ == select_of(
                "name"@,
                "catalogs"@,
                optional_condition(
                    optional_view(search_term),
                    |term: Seq<char>| name_holds(term),
                ),
            ),
    {
        let mut conditions: Vec<Condition> = Vec::new();
        push_name_filter(&mut conditions, search_term);
        select_statement("name", "catalogs", conditions)
    }

    /// The query for name and catalog of the schemas that pass the name
    /// filter and then the catalog filter.
    pub fn list_schemas(&self, catalog_name: Option<&str>, search_term: Option<&str>) -> (query:
        Statement)
        ensures
            query@ == select_of(
                "name, catalog_name"@,
                "schemas"@,
                optional_condition(
                    optional_view(search_term),
                    |term: Seq<char>| name_holds(term),
                ) + optional_condition(
                    optional_view(catalog_name),
                    |name: Seq<char>| catalog_is(name),
                ),
            ),
    {
        let mut conditions: Vec<Condition> = Vec::new();
        push_name_filter(&mut conditions, search_term);
        push_catalog_filter(&mut conditions, catalog_name);
        select_statement("name, catalog_name", "schemas", conditions)
    }

    /// The query for name, catalog and schema of the tables that pass the
    /// name filter, then the catalog filter, then the schema filter.
    pub fn list_tables(
        &self,
        catalog_name: Option<&str>,
        schema_name: Option<&str>,
        search_term: Option<&str>,
    ) -> (query: Statement)
        ensures
            query@ == select_of(
                "name, catalog_name, schema_name"@,
                "tables"@,
                optional_condition(
                    optional_view(search_term),
                    |term: Seq<char>| name_holds(term),
                ) + optional_condition(
                    optional_view(catalog_name),
                    |name: Seq<char>| catalog_is(name),
                ) + optional_condition(
                    optional_view(schema_name),
                    |name: Seq<char>| schema_is(name),
                ),
            ),
    {
        let mut conditions: Vec<Condition> = Vec::new();
        push_name_filter(&mut conditions, search_term);
        push_catalog_filter(&mut conditions, catalog_name);
        push_schema_filter(&mut conditions, schema_name);
        select_statement("name, catalog_name, schema_name", "tables", conditions)
    }
}

} // verus!
