//! The metadata synchronizer: what to fetch from the authority and what to
//! hand to the mirror, step by step.
//!
//! A [`Refresh`] is one run of a synchronization task. It issues a
//! [`Command`], is told what came of it by an [`Event`], and issues the next
//! command. Rows are handed to the mirror as they arrive; a failure ends the
//! run where it stands and leaves earlier writes in place.
use crate::api_client::{
    catalogs_address, object_address, schemas_address, tables_address, APIClient,
};
use crate::metastore::{
    lemma_kept_is_the_rest, rows, Catalog, CatalogResponse, ExclusionPolicy, PolicyView, Schema,
    SchemaResponse, Table, TableResponse,
};
use crate::securable::SecurableType;
use crate::sql_client::SqlClient;
use vstd::prelude::*;
use vstd::string::*;

verus! {

/// Seconds to wait between two catalogs of a full schema refresh.
pub const PACING_SECONDS: u64 = 1;

/// What a run is to synchronize.
#[derive(Debug, Clone)]
pub enum Task {
    /// Every catalog.
    Catalogs,
    /// The schemas of every catalog that is not excluded.
    AllSchemas,
    /// The tables of every schema of every catalog that is not excluded.
    AllTables,
    /// The schemas of one catalog.
    Schemas { catalog_name: String },
    /// The tables of one schema.
    Tables { catalog_name: String, schema_name: String },
    /// One catalog, fetched by name.
    OneCatalog { name: String },
    /// One schema, fetched by full name.
    OneSchema { full_name: String },
    /// One table, fetched by full name.
    OneTable { full_name: String },
}

/// Mathematical value of a [`Task`].
pub enum TaskView {
    Catalogs,
    AllSchemas,
    AllTables,
    Schemas { catalog_name: Seq<char> },
    Tables { catalog_name: Seq<char>, schema_name: Seq<char> },
    OneCatalog { name: Seq<char> },
    OneSchema { full_name: Seq<char> },
    OneTable { full_name: Seq<char> },
}

impl View for Task {
    type V = TaskView;

    open spec fn view(&self) -> TaskView {
        match self {
            Task::Catalogs => TaskView::Catalogs,
            Task::AllSchemas => TaskView::AllSchemas,
            Task::AllTables => TaskView::AllTables,
            Task::Schemas { catalog_name } => TaskView::Schemas { catalog_name: catalog_name@ },
            Task::Tables { catalog_name, schema_name } => TaskView::Tables {
                catalog_name: catalog_name@,
                schema_name: schema_name@,
            },
            Task::OneCatalog { name } => TaskView::OneCatalog { name: name@ },
            Task::OneSchema { full_name } => TaskView::OneSchema { full_name: full_name@ },
            Task::OneTable { full_name } => TaskView::OneTable { full_name: full_name@ },
        }
    }
}

/// What a run waits for.
#[derive(Debug, Clone, Copy, PartialEq, Eq, Structural)]
pub enum Phase {
    /// The list of catalogs.
    Catalogs,
    /// A list of schemas.
    Schemas,
    /// A list of tables.
    Tables,
    /// A single object.
    Object,
    /// The mirror's word that rows were written.
    Write,
    /// The end of the pacing delay.
    Pause,
    /// Nothing: the run is complete.
    Done,
    /// Nothing: the run was given up.
    Failed,
}

/// What a fetch is expected to bring.
#[derive(Debug, Clone, Copy, PartialEq, Eq, Structural)]
pub enum Expect {
    CatalogList,
    SchemaList,
    TableList,
    Catalog,
    Schema,
    Table,
}

/// What the run asks its driver to do next.
#[derive(Debug, Clone)]
pub enum Command {
    /// Get `url` from the authority and read the body as `expect`.
    Fetch { url: String, expect: Expect },
    /// Upsert these catalogs into the mirror.
    WriteCatalogs(CatalogResponse),
    /// Upsert these schemas into the mirror.
    WriteSchemas(SchemaResponse),
    /// Upsert these tables into the mirror.
    WriteTables(TableResponse),
    /// Wait before the next request.
    Pause { seconds: u64 },
    /// Stop: the task is complete.
    Done,
    /// Stop: the task failed.
    Abort,
}

/// Mathematical value of a [`Command`].
pub enum CommandView {
    Fetch { url: Seq<char>, expect: Expect },
    WriteCatalogs(Seq<Catalog>),
    WriteSchemas(Seq<Schema>),
    WriteTables(Seq<Table>),
    Pause { seconds: u64 },
    Done,
    Abort,
}

impl View for Command {
    type V = CommandView;

    open spec fn view(&self) -> CommandView {
        match self {
            Command::Fetch { url, expect } => CommandView::Fetch { url: url@, expect: *expect },
            Command::WriteCatalogs(response) => CommandView::WriteCatalogs(response.catalogs@),
            Command::WriteSchemas(response) => CommandView::WriteSchemas(rows(response.schemas)),
            Command::WriteTables(response) => CommandView::WriteTables(rows(response.tables)),
            Command::Pause { seconds } => CommandView::Pause { seconds: *seconds },
            Command::Done => CommandView::Done,
            Command::Abort => CommandView::Abort,
        }
    }
}

/// What came of the last command.
#[derive(Debug, Clone)]
pub enum Event {
    Catalogs(CatalogResponse),
    Schemas(SchemaResponse),
    Tables(TableResponse),
    Catalog(Catalog),
    Schema(Schema),
    Table(Table),
    /// The mirror wrote the rows.
    Written,
    /// The pacing delay is over.
    Paused,
    /// The authority or the mirror failed.
    Failed,
}

/// Mathematical value of an [`Event`].
pub enum EventView {
    Catalogs(Seq<Catalog>),
    Schemas(Option<Seq<Schema>>),
    Tables(Option<Seq<Table>>),
    Catalog(Catalog),
    Schema(Schema),
    Table(Table),
    Written,
    Paused,
    Failed,
}

impl View for Event {
    type V = EventView;

    open spec fn view(&self) -> EventView {
        match self {
            Event::Catalogs(response) => EventView::Catalogs(response.catalogs@),
            Event::Schemas(response) => EventView::Schemas(
                match response.schemas {
                    Some(items) => Some(items@),
                    None => None,
                },
            ),
            Event::Tables(response) => EventView::Tables(
                match response.tables {
                    Some(items) => Some(items@),
                    None => None,
                },
            ),
            Event::Catalog(catalog) => EventView::Catalog(*catalog),
            Event::Schema(schema) => EventView::Schema(*schema),
            Event::Table(table) => EventView::Table(*table),
            Event::Written => EventView::Written,
            Event::Paused => EventView::Paused,
            Event::Failed => EventView::Failed,
        }
    }
}

/// Mathematical value of a [`Refresh`].
pub struct RefreshView {
    pub task: TaskView,
    pub phase: Phase,
    /// Catalogs still to visit; the first is the one being visited.
    pub catalogs: Seq<Catalog>,
    /// Schemas of the current catalog still to visit, the current one first.
    pub schemas: Seq<Schema>,
}

impl RefreshView {
    /// A run of `task` that has not heard from the authority yet.
    pub open spec fn begun(task: TaskView) -> RefreshView {
        RefreshView {
            task,
            phase: match task {
                TaskView::Catalogs | TaskView::AllSchemas | TaskView::AllTables => Phase::Catalogs,
                TaskView::Schemas { .. } => Phase::Schemas,
                TaskView::Tables { .. } => Phase::Tables,
                _ => Phase::Object,
            },
            catalogs: Seq::empty(),
            schemas: Seq::empty(),
        }
    }

    /// The first command of a run of `task` on `workspace`.
    pub open spec fn opening(task: TaskView, workspace: Seq<char>) -> CommandView {
        match task {
            TaskView::Catalogs | TaskView::AllSchemas | TaskView::AllTables => CommandView::Fetch {
                url: catalogs_address(workspace),
                expect: Expect::CatalogList,
            },
            TaskView::Schemas { catalog_name } => CommandView::Fetch {
                url: schemas_address(workspace, catalog_name, None),
                expect: Expect::SchemaList,
            },
            TaskView::Tables { catalog_name, schema_name } => CommandView::Fetch {
                url: tables_address(workspace, catalog_name, schema_name, None),
                expect: Expect::TableList,
            },
            TaskView::OneCatalog { name } => CommandView::Fetch {
                url: object_address(workspace, SecurableType::Catalog, name),
                expect: Expect::Catalog,
            },
            TaskView::OneSchema { full_name } => CommandView::Fetch {
                url: object_address(workspace, SecurableType::Schema, full_name),
                expect: Expect::Schema,
            },
            TaskView::OneTable { full_name } => CommandView::Fetch {
                url: object_address(workspace, SecurableType::Table, full_name),
                expect: Expect::Table,
            },
        }
    }

    /// A bulk run that waits on a catalog's schemas or tables has that
    /// catalog, and the schema where it needs one, at the head of its lists.
    pub open spec fn well_formed(self) -> bool {
        match (self.task, self.phase) {
            (TaskView::AllSchemas, Phase::Schemas) => self.catalogs.len() > 0,
            (TaskView::AllSchemas, Phase::Write) => self.catalogs.len() > 0,
            (TaskView::AllSchemas, Phase::Pause) => self.catalogs.len() > 0,
            (TaskView::AllTables, Phase::Schemas) => self.catalogs.len() > 0,
            (TaskView::AllTables, Phase::Tables) => self.catalogs.len() > 0 && self.schemas.len()
                > 0,
            (TaskView::AllTables, Phase::Write) => self.catalogs.len() > 0 && self.schemas.len()
                > 0,
            _ => true,
        }
    }

    /// Every catalog still to visit is one that `policy` does not exclude.
    pub open spec fn spares(self, policy: PolicyView) -> bool {
        forall|i: int|
            0 <= i < self.catalogs.len() ==> !policy.excludes_catalog(#[trigger] self.catalogs[i])
    }

    /// The run at an end, with the command that says so.
    pub open spec fn finished(self) -> (RefreshView, CommandView) {
        (RefreshView { phase: Phase::Done, ..self }, CommandView::Done)
    }

    /// The run given up, with the command that says so.
    pub open spec fn given_up(self) -> (RefreshView, CommandView) {
        (RefreshView { phase: Phase::Failed, ..self }, CommandView::Abort)
    }

    /// The run waiting for the mirror to take `command`'s rows.
    pub open spec fn writing(self, command: CommandView) -> (RefreshView, CommandView) {
        (RefreshView { phase: Phase::Write, ..self }, command)
    }

    /// The run waiting for the pacing delay.
    pub open spec fn pausing(self) -> (RefreshView, CommandView) {
        (RefreshView { phase: Phase::Pause, ..self }, CommandView::Pause { seconds: PACING_SECONDS })
    }

    /// Turns to the catalog at the head of the list: asks for its schemas,
    /// or ends the run when no catalog is left.
    pub open spec fn visit_catalog(self, workspace: Seq<char>) -> (RefreshView, CommandView) {
        if self.catalogs.len() > 0 {
            (
                RefreshView { phase: Phase::Schemas, ..self },
                CommandView::Fetch {
                    url: schemas_address(workspace, self.catalogs[0].name@, None),
                    expect: Expect::SchemaList,
                },
            )
        } else {
            self.finished()
        }
    }

    /// Turns to the schema at the head of the list: asks for its tables, or
    /// moves on to the next catalog when no schema is left.
    pub open spec fn visit_schema(self, workspace: Seq<char>) -> (RefreshView, CommandView) {
        if self.schemas.len() > 0 {
            (
                RefreshView { phase: Phase::Tables, ..self },
                CommandView::Fetch {
                    url: tables_address(
                        workspace,
                        self.catalogs[0].name@,
                        self.schemas[0].name@,
                        None,
                    ),
                    expect: Expect::TableList,
                },
            )
        } else {
            (RefreshView { catalogs: self.catalogs.drop_first(), ..self }).visit_catalog(workspace)
        }
    }

    /// The run after `event`, and the command it issues. An event that the
    /// run did not wait for, like a failure, ends it; a run that is over
    /// repeats its last word.
    pub open spec fn step(self, workspace: Seq<char>, policy: PolicyView, event: EventView) -> (
        RefreshView,
        CommandView,
    ) {
        match (self.phase, event) {
            (Phase::Done, _) => self.finished(),
            (Phase::Catalogs, EventView::Catalogs(listed)) => match self.task {
                TaskView::Catalogs => self.writing(CommandView::WriteCatalogs(policy.kept(listed))),
                TaskView::AllSchemas | TaskView::AllTables => (RefreshView {
                    catalogs: policy.kept(listed),
                    ..self
                }).visit_catalog(workspace),
                _ => self.given_up(),
            },
            (Phase::Schemas, EventView::Schemas(listed)) => match self.task {
                TaskView::AllSchemas => match listed {
                    Some(items) => self.writing(CommandView::WriteSchemas(items)),
                    None => self.pausing(),
                },
                TaskView::AllTables => (RefreshView {
                    schemas: match listed {
                        Some(items) => items,
                        None => Seq::empty(),
                    },
                    ..self
                }).visit_schema(workspace),
                TaskView::Schemas { .. } => match listed {
                    Some(items) => self.writing(CommandView::WriteSchemas(items)),
                    None => self.finished(),
                },
                _ => self.given_up(),
            },
            (Phase::Tables, EventView::Tables(listed)) => match self.task {
                TaskView::AllTables => match listed {
                    Some(items) => self.writing(CommandView::WriteTables(items)),
                    None => (RefreshView {
                        schemas: self.schemas.drop_first(),
                        ..self
                    }).visit_schema(workspace),
                },
                TaskView::Tables { .. } => match listed {
                    Some(items) => self.writing(CommandView::WriteTables(items)),
                    None => self.finished(),
                },
                _ => self.given_up(),
            },
            (Phase::Object, EventView::Catalog(catalog)) => match self.task {
                TaskView::OneCatalog { .. } => if policy.excludes_catalog(catalog) {
                    self.finished()
                } else {
                    self.writing(CommandView::WriteCatalogs(seq![catalog]))
                },
                _ => self.given_up(),
            },
            (Phase::Object, EventView::Schema(schema)) => match self.task {
                TaskView::OneSchema { .. } => self.writing(CommandView::WriteSchemas(seq![schema])),
                _ => self.given_up(),
            },
            (Phase::Object, EventView::Table(table)) => match self.task {
                TaskView::OneTable { .. } => self.writing(CommandView::WriteTables(seq![table])),
                _ => self.given_up(),
            },
            (Phase::Write, EventView::Written) => match self.task {
                TaskView::AllSchemas => self.pausing(),
                TaskView::AllTables => (RefreshView {
                    schemas: self.schemas.drop_first(),
                    ..self
                }).visit_schema(workspace),
                _ => self.finished(),
            },
            (Phase::Pause, EventView::Paused) => match self.task {
                TaskView::AllSchemas => (RefreshView {
                    catalogs: self.catalogs.drop_first(),
                    ..self
                }).visit_catalog(workspace),
                _ => self.given_up(),
            },
            _ => self.given_up(),
        }
    }
}

/// A run that has not begun holds no catalog yet: it is well formed and
/// spares whatever the policy excludes.
pub proof fn lemma_begun_spares(task: TaskView, policy: PolicyView)
    ensures
        RefreshView::begun(task).well_formed(),
        RefreshView::begun(task).spares(policy),
{
}

/// A bulk refresh never turns to an excluded catalog and never hands one to
/// the mirror, although the authority lists them: after any event, the
/// catalogs still to visit are all spared by the policy, the catalogs of a
/// catalog write are exactly the listed ones that the policy spares, and a
/// request for a catalog's schemas or tables is made for the spared catalog
/// at the head of the list.
pub proof fn lemma_refresh_spares_excluded(
    run: RefreshView,
    workspace: Seq<char>,
    policy: PolicyView,
    event: EventView,
)
    requires
        run.well_formed(),
        run.spares(policy),
    ensures
        run.step(workspace, policy, event).0.well_formed(),
        run.step(workspace, policy, event).0.spares(policy),
        run.step(workspace, policy, event).1 matches CommandView::WriteCatalogs(written)
            ==> forall|i: int|
            0 <= i < written.len() ==> !policy.excludes_catalog(#[trigger] written[i]),
        (run.task is AllSchemas || run.task is AllTables) && run.step(
            workspace,
            policy,
            event,
        ).0.phase == Phase::Schemas ==> {
            let next = run.step(workspace, policy, event).0;
            &&& next.catalogs.len() > 0
            &&& !policy.excludes_catalog(next.catalogs[0])
            &&& run.step(workspace, policy, event).1 == CommandView::Fetch {
                url: schemas_address(workspace, next.catalogs[0].name@, None),
                expect: Expect::SchemaList,
            }
        },
        run.task is AllTables && run.step(workspace, policy, event).0.phase == Phase::Tables ==> {
            let next = run.step(workspace, policy, event).0;
            &&& next.catalogs.len() > 0
            &&& next.schemas.len() > 0
            &&& !policy.excludes_catalog(next.catalogs[0])
            &&& run.step(workspace, policy, event).1 == CommandView::Fetch {
                url: tables_address(
                    workspace,
                    next.catalogs[0].name@,
                    next.schemas[0].name@,
                    None,
                ),
                expect: Expect::TableList,
            }
        },
{
    let (next, command) = run.step(workspace, policy, event);
    if let EventView::Catalogs(listed) = event {
        lemma_kept_is_the_rest(policy, listed);
    }
    assert forall|i: int| 0 <= i < next.catalogs.len() implies !policy.excludes_catalog(
        #[trigger] next.catalogs[i],
    ) by {
        if run.catalogs.len() > 0 && next.catalogs == run.catalogs.drop_first() {
            assert(next.catalogs[i] == run.catalogs[i + 1]);
        }
    }
}

/// The commands that a run issues as `events` come in, one per event.
pub open spec fn commands_issued(
    run: RefreshView,
    workspace: Seq<char>,
    policy: PolicyView,
    events: Seq<EventView>,
) -> Seq<CommandView>
    decreases events.len(),
{
    if events.len() == 0 {
        Seq::empty()
    } else {
        seq![run.step(workspace, policy, events[0]).1] + commands_issued(
            run.step(workspace, policy, events[0]).0,
            workspace,
            policy,
            events.drop_first(),
        )
    }
}

/// The catalogs that a command hands to the mirror; none unless it is a
/// catalog write.
pub open spec fn catalogs_written(command: CommandView) -> Seq<Catalog> {
    match command {
        CommandView::WriteCatalogs(written) => written,
        _ => Seq::empty(),
    }
}

/// Whatever the authority lists and whatever else happens, no run ever
/// hands an excluded catalog to the mirror.
pub proof fn lemma_excluded_catalogs_are_never_written(
    run: RefreshView,
    workspace: Seq<char>,
    policy: PolicyView,
    events: Seq<EventView>,
)
    requires
        run.well_formed(),
        run.spares(policy),
    ensures
        commands_issued(run, workspace, policy, events).len() == events.len(),
        forall|i: int, k: int|
            0 <= i < events.len() && 0 <= k < catalogs_written(
                commands_issued(run, workspace, policy, events)[i],
            ).len() ==> !policy.excludes_catalog(
                #[trigger] catalogs_written(commands_issued(run, workspace, policy, events)[i])[k],
            ),
    decreases events.len(),
{
    if events.len() > 0 {
        let (next, command) = run.step(workspace, policy, events[0]);
        let rest = events.drop_first();
        lemma_refresh_spares_excluded(run, workspace, policy, events[0]);
        lemma_excluded_catalogs_are_never_written(next, workspace, policy, rest);
        let all = commands_issued(run, workspace, policy, events);
        let later = commands_issued(next, workspace, policy, rest);
        assert forall|i: int, k: int|
            0 <= i < events.len() && 0 <= k < catalogs_written(
                all[i],
            ).len() implies !policy.excludes_catalog(#[trigger] catalogs_written(all[i])[k]) by {
            if i > 0 {
                assert(all[i] == later[i - 1]);
            } else {
                assert(all[0] == command);
            }
        }
    }
}

/// A run of a synchronization task.
#[derive(Debug)]
pub struct Refresh {
    task: Task,
    phase: Phase,
    catalogs: Vec<Catalog>,
    catalog_at: usize,
    schemas: Vec<Schema>,
    schema_at: usize,
}

impl View for Refresh {
    type V = RefreshView;

    closed spec fn view(&self) -> RefreshView {
        RefreshView {
            task: self.task@,
            phase: self.phase,
            catalogs: self.catalogs@.skip(self.catalog_at as int),
            schemas: self.schemas@.skip(self.schema_at as int),
        }
    }
}

impl Refresh {
    #[verifier::type_invariant]
    spec fn holds_together(self) -> bool {
        &&& self.catalog_at <= self.catalogs.len()
        &&& self.schema_at <= self.schemas.len()
        &&& self@.well_formed()
    }

    fn begin(task: Task) -> (run: Refresh)
        ensures
            run@ == RefreshView::begun(task@),
    {
        let phase = match &task {
            Task::Catalogs => Phase::Catalogs,
            Task::AllSchemas => Phase::Catalogs,
            Task::AllTables => Phase::Catalogs,
            Task::Schemas { .. } => Phase::Schemas,
            Task::Tables { .. } => Phase::Tables,
            Task::OneCatalog { .. } => Phase::Object,
            Task::OneSchema { .. } => Phase::Object,
            Task::OneTable { .. } => Phase::Object,
        };
        let run = Refresh {
            task,
            phase,
            catalogs: Vec::new(),
            catalog_at: 0,
            schemas: Vec::new(),
            schema_at: 0,
        };
        assert(run@.catalogs =~= Seq::<Catalog>::empty());
        assert(run@.schemas =~= Seq::<Schema>::empty());
        run
    }

    /// What the run waits for.
    pub fn phase(&self) -> (phase: Phase)
        ensures
            phase == self@.phase,
    {
        self.phase
    }

    /// Whether the run is over, complete or given up.
    pub fn is_over(&self) -> (over: bool)
        ensures
            over == (self@.phase == Phase::Done || self@.phase == Phase::Failed),
    {
        match self.phase {
            Phase::Done => true,
            Phase::Failed => true,
            _ => false,
        }
    }
}

/// Client of the authority's listing and lookup endpoints, with the planner
/// of the mirror's statements.
#[derive(Debug, Clone)]
pub struct MetastoreClient {
    pub api_client: APIClient,
    pub sql_client: SqlClient,
    pub policy: ExclusionPolicy,
}

impl MetastoreClient {
    /// A client for one workspace under one token, mirroring into the
    /// database at `database_url`, with the standard exclusions.
    pub fn new(workspace_name: String, db_token: String, database_url: String) -> (client: Self)
        ensures
            client.api_client.workspace_name == workspace_name,
            client.api_client.db_token == db_token,
            client.sql_client.database_path == database_url,
            client.policy@ == PolicyView::standard(),
    {
        MetastoreClient {
            api_client: APIClient { db_token, workspace_name },
            sql_client: SqlClient { database_path: database_url },
            policy: ExclusionPolicy::standard(),
        }
    }

    fn open(&self, task: Task) -> (started: (Refresh, Command))
        ensures
            started.0@ == RefreshView::begun(task@),
            started.1@ == RefreshView::opening(task@, self.api_client.workspace_name@),
    {
        let command = match &task {
            Task::Catalogs => Command::Fetch {
                url: self.api_client.catalogs_url(),
                expect: Expect::CatalogList,
            },
            Task::AllSchemas => Command::Fetch {
                url: self.api_client.catalogs_url(),
                expect: Expect::CatalogList,
            },
            Task::AllTables => Command::Fetch {
                url: self.api_client.catalogs_url(),
                expect: Expect::CatalogList,
            },
            Task::Schemas { catalog_name } => Command::Fetch {
                url: self.api_client.schemas_url(catalog_name.as_str(), None),
                expect: Expect::SchemaList,
            },
            Task::Tables { catalog_name, schema_name } => Command::Fetch {
                url: self.api_client.tables_url(catalog_name.as_str(), schema_name.as_str(), None),
                expect: Expect::TableList,
            },
            Task::OneCatalog { name } => Command::Fetch {
                url: self.api_client.object_url(SecurableType::Catalog, name.as_str()),
                expect: Expect::Catalog,
            },
            Task::OneSchema { full_name } => Command::Fetch {
                url: self.api_client.object_url(SecurableType::Schema, full_name.as_str()),
                expect: Expect::Schema,
            },
            Task::OneTable { full_name } => Command::Fetch {
                url: self.api_client.object_url(SecurableType::Table, full_name.as_str()),
                expect: Expect::Table,
            },
        };
        (Refresh::begin(task), command)
    }

    /// Begins fetching one table and mirroring it.
    pub fn get_table(&self, full_table_name: &str) -> (started: (Refresh, Command))
        ensures
            started.0@ == RefreshView::begun(TaskView::OneTable { full_name: full_table_name@ }),
            started.1@ == RefreshView::opening(
                TaskView::OneTable { full_name: full_table_name@ },
                self.api_client.workspace_name@,
            ),
    {
        self.open(Task::OneTable { full_name: String::from_str(full_table_name) })
    }

    /// Begins fetching one schema and mirroring it.
    pub fn get_schema(&self, full_schema_name: String) -> (started: (Refresh, Command))
        ensures
            started.0@ == RefreshView::begun(TaskView::OneSchema { full_name: full_schema_name@ }),
            started.1@ == RefreshView::opening(
                TaskView::OneSchema { full_name: full_schema_name@ },
                self.api_client.workspace_name@,
            ),
    {
        self.open(Task::OneSchema { full_name: full_schema_name })
    }

    /// Begins fetching one catalog and mirroring it, unless it is excluded.
    pub fn get_catalog(&self, name: String) -> (started: (Refresh, Command))
        ensures
            started.0@ == RefreshView::begun(TaskView::OneCatalog { name: name@ }),
            started.1@ == RefreshView::opening(
                TaskView::OneCatalog { name: name@ },
                self.api_client.workspace_name@,
            ),
    {
        self.open(Task::OneCatalog { name })
    }

    /// Begins mirroring every catalog that is not excluded.
    pub fn refresh_catalogs(&self) -> (started: (Refresh, Command))
        ensures
            started.0@ == RefreshView::begun(TaskView::Catalogs),
            started.1@ == RefreshView::opening(TaskView::Catalogs, self.api_client.workspace_name@),
    {
        self.open(Task::Catalogs)
    }

    /// Begins mirroring the schemas of every catalog that is not excluded,
    /// with a pause after each catalog.
    pub fn refresh_all_schemas(&self) -> (started: (Refresh, Command))
        ensures
            started.0@ == RefreshView::begun(TaskView::AllSchemas),
            started.1@ == RefreshView::opening(
                TaskView::AllSchemas,
                self.api_client.workspace_name@,
            ),
    {
        self.open(Task::AllSchemas)
    }

    /// Begins mirroring the tables of every schema of every catalog that is
    /// not excluded.
    pub fn refresh_all_tables(&self) -> (started: (Refresh, Command))
        ensures
            started.0@ == RefreshView::begun(TaskView::AllTables),
            started.1@ == RefreshView::opening(
                TaskView::AllTables,
                self.api_client.workspace_name@,
            ),
    {
        self.open(Task::AllTables)
    }

    /// Begins mirroring the tables of one schema.
    pub fn refresh_tables(&self, catalog_name: String, schema_name: String) -> (started: (
        Refresh,
        Command,
    ))
        ensures
            started.0@ == RefreshView::begun(
                TaskView::Tables { catalog_name: catalog_name@, schema_name: schema_name@ },
            ),
            started.1@ == RefreshView::opening(
                TaskView::Tables { catalog_name: catalog_name@, schema_name: schema_name@ },
                self.api_client.workspace_name@,
            ),
    {
        self.open(Task::Tables { catalog_name, schema_name })
    }

    /// Begins mirroring the schemas of one catalog.
    pub fn refresh_schemas(&self, catalog_name: String) -> (started: (Refresh, Command))
        ensures
            started.0@ == RefreshView::begun(TaskView::Schemas { catalog_name: catalog_name@ }),
            started.1@ == RefreshView::opening(
                TaskView::Schemas { catalog_name: catalog_name@ },
                self.api_client.workspace_name@,
            ),
    {
        self.open(Task::Schemas { catalog_name })
    }

    fn visit_catalog(
        &self,
        task: Task,
        catalogs: Vec<Catalog>,
        catalog_at: usize,
        schemas: Vec<Schema>,
        schema_at: usize,
    ) -> (next: (Refresh, Command))
        requires
            task@ is AllSchemas || task@ is AllTables,
            catalog_at <= catalogs.len(),
            schema_at <= schemas.len(),
        ensures
            (next.0@, next.1@) == (RefreshView {
                task: task@,
                phase: Phase::Catalogs,
                catalogs: catalogs@.skip(catalog_at as int),
                schemas: schemas@.skip(schema_at as int),
            }).visit_catalog(self.api_client.workspace_name@),
    {
        if catalog_at < catalogs.len() {
            let url = self.api_client.schemas_url(catalogs[catalog_at].name.as_str(), None);
            let run = Refresh {
                task,
                phase: Phase::Schemas,
                catalogs,
                catalog_at,
                schemas,
                schema_at,
            };
            (run, Command::Fetch { url, expect: Expect::SchemaList })
        } else {
            let run = Refresh { task, phase: Phase::Done, catalogs, catalog_at, schemas, schema_at };
            (run, Command::Done)
        }
    }

    fn visit_schema(
        &self,
        task: Task,
        catalogs: Vec<Catalog>,
        catalog_at: usize,
        schemas: Vec<Schema>,
        schema_at: usize,
    ) -> (next: (Refresh, Command))
        requires
            task@ is AllTables,
            catalog_at < catalogs.len(),
            schema_at <= schemas.len(),
        ensures
            (next.0@, next.1@) == (RefreshView {
                task: task@,
                phase: Phase::Catalogs,
                catalogs: catalogs@.skip(catalog_at as int),
                schemas: schemas@.skip(schema_at as int),
            }).visit_schema(self.api_client.workspace_name@),
    {
        if schema_at < schemas.len() {
            let url = self.api_client.tables_url(
                catalogs[catalog_at].name.as_str(),
                schemas[schema_at].name.as_str(),
                None,
            );
            let run = Refresh {
                task,
                phase: Phase::Tables,
                catalogs,
                catalog_at,
                schemas,
                schema_at,
            };
            (run, Command::Fetch { url, expect: Expect::TableList })
        } else {
            assert(catalogs@.skip(catalog_at as int).drop_first() =~= catalogs@.skip(
                catalog_at + 1,
            ));
            self.visit_catalog(task, catalogs, catalog_at + 1, schemas, schema_at)
        }
    }

    /// Takes what came of the last command and issues the next one.
    pub fn advance(&self, run: Refresh, event: Event) -> (next: (Refresh, Command))
        ensures
            (next.0@, next.1@) == run@.step(
                self.api_client.workspace_name@,
                self.policy@,
                event@,
            ),
    {
        proof {
            use_type_invariant(&run);
        }
        let Refresh { task, phase, catalogs, catalog_at, schemas, schema_at } = run;
        match phase {
            Phase::Done => (
                Refresh { task, phase: Phase::Done, catalogs, catalog_at, schemas, schema_at },
                Command::Done,
            ),
            Phase::Catalogs => match event {
                Event::Catalogs(listed) => match task {
                    Task::Catalogs => {
                        let kept = self.policy.keep(listed.catalogs);
                        (
                            Refresh {
                                task,
                                phase: Phase::Write,
                                catalogs,
                                catalog_at,
                                schemas,
                                schema_at,
                            },
                            Command::WriteCatalogs(CatalogResponse::new(kept)),
                        )
                    },
                    Task::AllSchemas | Task::AllTables => {
                        let kept = self.policy.keep(listed.catalogs);
                        assert(kept@.skip(0) =~= kept@);
                        self.visit_catalog(task, kept, 0, schemas, schema_at)
                    },
                    _ => (
                        Refresh {
                            task,
                            phase: Phase::Failed,
                            catalogs,
                            catalog_at,
                            schemas,
                            schema_at,
                        },
                        Command::Abort,
                    ),
                },
                _ => (
                    Refresh {
                        task,
                        phase: Phase::Failed,
                        catalogs,
                        catalog_at,
                        schemas,
                        schema_at,
                    },
                    Command::Abort,
                ),
            },
            Phase::Schemas => match event {
                Event::Schemas(listed) => match task {
                    Task::AllSchemas => match listed.schemas {
                        Some(items) => (
                            Refresh {
                                task,
                                phase: Phase::Write,
                                catalogs,
                                catalog_at,
                                schemas,
                                schema_at,
                            },
                            Command::WriteSchemas(SchemaResponse::new(items)),
                        ),
                        None => (
                            Refresh {
                                task,
                                phase: Phase::Pause,
                                catalogs,
                                catalog_at,
                                schemas,
                                schema_at,
                            },
                            Command::Pause { seconds: PACING_SECONDS },
                        ),
                    },
                    Task::AllTables => {
                        let found = match listed.schemas {
                            Some(items) => items,
                            None => Vec::new(),
                        };
                        assert(found@.skip(0) =~= found@);
                        self.visit_schema(task, catalogs, catalog_at, found, 0)
                    },
                    Task::Schemas { .. } => match listed.schemas {
                        Some(items) => (
                            Refresh {
                                task,
                                phase: Phase::Write,
                                catalogs,
                                catalog_at,
                                schemas,
                                schema_at,
                            },
                            Command::WriteSchemas(SchemaResponse::new(items)),
                        ),
                        None => (
                            Refresh {
                                task,
                                phase: Phase::Done,
                                catalogs,
                                catalog_at,
                                schemas,
                                schema_at,
                            },
                            Command::Done,
                        ),
                    },
                    _ => (
                        Refresh {
                            task,
                            phase: Phase::Failed,
                            catalogs,
                            catalog_at,
                            schemas,
                            schema_at,
                        },
                        Command::Abort,
                    ),
                },
                _ => (
                    Refresh {
                        task,
                        phase: Phase::Failed,
                        catalogs,
                        catalog_at,
                        schemas,
                        schema_at,
                    },
                    Command::Abort,
                ),
            },
            Phase::Tables => match event {
                Event::Tables(listed) => match task {
                    Task::AllTables => match listed.tables {
                        Some(items) => (
                            Refresh {
                                task,
                                phase: Phase::Write,
                                catalogs,
                                catalog_at,
                                schemas,
                                schema_at,
                            },
                            Command::WriteTables(TableResponse::new(items)),
                        ),
                        None => {
                            assert(schemas@.skip(schema_at as int).drop_first() =~= schemas@.skip(
                                schema_at + 1,
                            ));
                            self.visit_schema(task, catalogs, catalog_at, schemas, schema_at + 1)
                        },
                    },
                    Task::Tables { .. } => match listed.tables {
                        Some(items) => (
                            Refresh {
                                task,
                                phase: Phase::Write,
                                catalogs,
                                catalog_at,
                                schemas,
                                schema_at,
                            },
                            Command::WriteTables(TableResponse::new(items)),
                        ),
                        None => (
                            Refresh {
                                task,
                                phase: Phase::Done,
                                catalogs,
                                catalog_at,
                                schemas,
                                schema_at,
                            },
                            Command::Done,
                        ),
                    },
                    _ => (
                        Refresh {
                            task,
                            phase: Phase::Failed,
                            catalogs,
                            catalog_at,
                            schemas,
                            schema_at,
                        },
                        Command::Abort,
                    ),
                },
                _ => (
                    Refresh {
                        task,
                        phase: Phase::Failed,
                        catalogs,
                        catalog_at,
                        schemas,
                        schema_at,
                    },
                    Command::Abort,
                ),
            },
            Phase::Object => match (event, &task) {
                (Event::Catalog(catalog), Task::OneCatalog { .. }) => {
                    if self.policy.excludes(&catalog) {
                        (
                            Refresh {
                                task,
                                phase: Phase::Done,
                                catalogs,
                                catalog_at,
                                schemas,
                                schema_at,
                            },
                            Command::Done,
                        )
                    } else {
                        let mut one: Vec<Catalog> = Vec::new();
                        one.push(catalog);
                        (
                            Refresh {
                                task,
                                phase: Phase::Write,
                                catalogs,
                                catalog_at,
                                schemas,
                                schema_at,
                            },
                            Command::WriteCatalogs(CatalogResponse::new(one)),
                        )
                    }
                },
                (Event::Schema(schema), Task::OneSchema { .. }) => {
                    let mut one: Vec<Schema> = Vec::new();
                    one.push(schema);
                    (
                        Refresh {
                            task,
                            phase: Phase::Write,
                            catalogs,
                            catalog_at,
                            schemas,
                            schema_at,
                        },
                        Command::WriteSchemas(SchemaResponse::new(one)),
                    )
                },
                (Event::Table(table), Task::OneTable { .. }) => {
                    let mut one: Vec<Table> = Vec::new();
                    one.push(table);
                    (
                        Refresh {
                            task,
                            phase: Phase::Write,
                            catalogs,
                            catalog_at,
                            schemas,
                            schema_at,
                        },
                        Command::WriteTables(TableResponse::new(one)),
                    )
                },
                _ => (
                    Refresh {
                        task,
                        phase: Phase::Failed,
                        catalogs,
                        catalog_at,
                        schemas,
                        schema_at,
                    },
                    Command::Abort,
                ),
            },
            Phase::Write => match event {
                Event::Written => match task {
                    Task::AllSchemas => (
                        Refresh {
                            task,
                            phase: Phase::Pause,
                            catalogs,
                            catalog_at,
                            schemas,
                            schema_at,
                        },
                        Command::Pause { seconds: PACING_SECONDS },
                    ),
                    Task::AllTables => {
                        assert(schemas@.skip(schema_at as int).drop_first() =~= schemas@.skip(
                            schema_at + 1,
                        ));
                        self.visit_schema(task, catalogs, catalog_at, schemas, schema_at + 1)
                    },
                    _ => (
                        Refresh {
                            task,
                            phase: Phase::Done,
                            catalogs,
                            catalog_at,
                            schemas,
                            schema_at,
                        },
                        Command::Done,
                    ),
                },
                _ => (
                    Refresh {
                        task,
                        phase: Phase::Failed,
                        catalogs,
                        catalog_at,
                        schemas,
                        schema_at,
                    },
                    Command::Abort,
                ),
            },
            Phase::Pause => match event {
                Event::Paused => match task {
                    Task::AllSchemas => {
                        assert(catalogs@.skip(catalog_at as int).drop_first() =~= catalogs@.skip(
                            catalog_at + 1,
                        ));
                        self.visit_catalog(task, catalogs, catalog_at + 1, schemas, schema_at)
                    },
                    _ => (
                        Refresh {
                            task,
                            phase: Phase::Failed,
                            catalogs,
                            catalog_at,
                            schemas,
                            schema_at,
                        },
                        Command::Abort,
                    ),
                },
                _ => (
                    Refresh {
                        task,
                        phase: Phase::Failed,
                        catalogs,
                        catalog_at,
                        schemas,
                        schema_at,
                    },
                    Command::Abort,
                ),
            },
            Phase::Failed => (
                Refresh { task, phase: Phase::Failed, catalogs, catalog_at, schemas, schema_at },
                Command::Abort,
            ),
        }
    }
}

} // verus!
