//! The permission gate in front of a table's files.
//!
//! A [`Materialization`] is one request for one table. It issues a
//! [`LoadCommand`], is told what came of it by a [`LoadEvent`], and issues the
//! next. The table's location is resolved first, the principal's permission
//! is asked once, and the object store is touched only after the answer was
//! yes. A denial is no failure: the request is served with a dataset
//! without rows. Parsing a file's bytes is the driver's part; the request
//! takes the batch parsed from each file, or the word that it could not be
//! parsed, and unites them.
use crate::delta::{accumulate, file_names, file_names_of, Materialized};
use crate::metastore::Table;
use crate::permissions::{AzureDataLakeGen2Options, Permissions};
use crate::sync::MetastoreClient;
use polars::prelude::DataFrame;
use vstd::prelude::*;
use vstd::string::*;

verus! {

/// What a request is to bring.
#[derive(Debug, Clone, Copy, PartialEq, Eq, Structural)]
pub enum Goal {
    /// The table's rows as one dataframe, the files fetched one after the
    /// other or all at once.
    Frame { parallel: bool },
    /// Leave to open the table for a query engine.
    Query,
}

/// What a request waits for.
#[derive(Debug, Clone, Copy, PartialEq, Eq, Structural)]
pub enum LoadPhase {
    /// The table's row, with its storage location.
    Locating,
    /// The answer to "may this principal read this table?".
    Authorizing,
    /// The table's file listing.
    Listing,
    /// The batches parsed from the files.
    Fetching,
    /// Nothing: the request was served.
    Done,
    /// Nothing: the request was given up.
    Failed,
}

/// What the request asks its driver to do next.
pub enum LoadCommand {
    /// Fetch the table's row from the authority and mirror it.
    Locate { full_name: String },
    /// Find out whether `principal` may read the table.
    Authorize { full_name: String, principal: String },
    /// List the files of the table stored at `location`.
    ListFiles { location: String },
    /// Fetch one file by name and parse it.
    FetchFile { name: String },
    /// Fetch these files at once, parse them, and hand the batches over
    /// together once every fetch has ended; one failed fetch fails them all.
    FetchFiles { names: Vec<String> },
    /// The request is served: here is the dataframe.
    Deliver(Materialized),
    /// The request is served: the table at `location` may be opened.
    Open { location: String },
    /// The request is served: the principal may not read the table, and the
    /// dataset to hand out is one without rows.
    Empty,
    /// Nothing is left to do.
    Stop,
    /// The request failed.
    Abort,
}

/// Mathematical value of a [`LoadCommand`]; a delivery stands without its
/// dataframe.
pub enum LoadCommandView {
    Locate { full_name: Seq<char> },
    Authorize { full_name: Seq<char>, principal: Seq<char> },
    ListFiles { location: Seq<char> },
    FetchFile { name: Seq<char> },
    FetchFiles { names: Seq<Seq<char>> },
    Deliver,
    Open { location: Seq<char> },
    Empty,
    Stop,
    Abort,
}

impl View for LoadCommand {
    type V = LoadCommandView;

    open spec fn view(&self) -> LoadCommandView {
        match self {
            LoadCommand::Locate { full_name } => LoadCommandView::Locate { full_name: full_name@ },
            LoadCommand::Authorize { full_name, principal } => LoadCommandView::Authorize {
                full_name: full_name@,
                principal: principal@,
            },
            LoadCommand::ListFiles { location } => LoadCommandView::ListFiles {
                location: location@,
            },
            LoadCommand::FetchFile { name } => LoadCommandView::FetchFile { name: name@ },
            LoadCommand::FetchFiles { names } => LoadCommandView::FetchFiles {
                names: names.deep_view(),
            },
            LoadCommand::Deliver(_) => LoadCommandView::Deliver,
            LoadCommand::Open { location } => LoadCommandView::Open { location: location@ },
            LoadCommand::Empty => LoadCommandView::Empty,
            LoadCommand::Stop => LoadCommandView::Stop,
            LoadCommand::Abort => LoadCommandView::Abort,
        }
    }
}

impl LoadCommandView {
    /// Whether the command reaches into the object store.
    pub open spec fn touches_storage(self) -> bool {
        self is ListFiles || self is FetchFile || self is FetchFiles || self is Open
    }
}

/// What came of the last command.
#[derive(Debug, Clone)]
pub enum LoadEvent {
    /// The table's row.
    Located(Table),
    /// Whether the principal may read the table.
    Permission(bool),
    /// The addresses of the table's files, in listing order.
    Listed(Vec<String>),
    /// The batch parsed from the file asked for; nothing where its bytes
    /// could not be parsed.
    File(Option<DataFrame>),
    /// The batches parsed from all files asked for, one per file, in the
    /// order they were collected.
    Files(Vec<Option<DataFrame>>),
    /// The authority or the object store failed.
    Failed,
}

/// Mathematical value of a [`LoadEvent`].
pub enum LoadEventView {
    Located { storage_location: Option<Seq<char>> },
    Permission(bool),
    Listed(Seq<Seq<char>>),
    File(Option<DataFrame>),
    Files(Seq<Option<DataFrame>>),
    Failed,
}

impl View for LoadEvent {
    type V = LoadEventView;

    open spec fn view(&self) -> LoadEventView {
        match self {
            LoadEvent::Located(table) => LoadEventView::Located {
                storage_location: table.storage_location.deep_view(),
            },
            LoadEvent::Permission(allowed) => LoadEventView::Permission(*allowed),
            LoadEvent::Listed(uris) => LoadEventView::Listed(uris.deep_view()),
            LoadEvent::File(parsed) => LoadEventView::File(*parsed),
            LoadEvent::Files(all) => LoadEventView::Files(all@),
            LoadEvent::Failed => LoadEventView::Failed,
        }
    }
}

/// Mathematical value of a [`Materialization`].
pub struct LoadView {
    pub table_name: Seq<char>,
    pub principal: Seq<char>,
    pub goal: Goal,
    pub phase: LoadPhase,
    /// Where the table's files lie; empty until located, and where the
    /// table's row names no location.
    pub location: Seq<char>,
    /// Names of the table's files, in listing order.
    pub files: Seq<Seq<char>>,
    /// Batches fetched so far, in listing order.
    pub buffers: Seq<Option<DataFrame>>,
}

impl LoadView {
    /// A request that has not heard from anyone yet.
    pub open spec fn begun(table_name: Seq<char>, principal: Seq<char>, goal: Goal) -> LoadView {
        LoadView {
            table_name,
            principal,
            goal,
            phase: LoadPhase::Locating,
            location: Seq::empty(),
            files: Seq::empty(),
            buffers: Seq::empty(),
        }
    }

    /// The first command of a request.
    pub open spec fn opening(table_name: Seq<char>) -> LoadCommandView {
        LoadCommandView::Locate { full_name: table_name }
    }

    /// While files are fetched one by one, one more is always outstanding.
    pub open spec fn well_formed(self) -> bool {
        self.phase == LoadPhase::Fetching && self.goal == (Goal::Frame { parallel: false })
            ==> self.buffers.len() < self.files.len()
    }

    /// The request served, with `command` as its last word.
    pub open spec fn served(self, command: LoadCommandView) -> (LoadView, LoadCommandView) {
        (LoadView { phase: LoadPhase::Done, buffers: Seq::empty(), ..self }, command)
    }

    /// The request given up.
    pub open spec fn given_up(self) -> (LoadView, LoadCommandView) {
        (LoadView { phase: LoadPhase::Failed, buffers: Seq::empty(), ..self }, LoadCommandView::Abort)
    }

    /// The request after `event`, and the command it issues. An event that
    /// the request did not wait for, like a failure, ends it.
    pub open spec fn step(self, event: LoadEventView) -> (LoadView, LoadCommandView) {
        match (self.phase, event) {
            (LoadPhase::Done, _) => (self, LoadCommandView::Stop),
            (LoadPhase::Locating, LoadEventView::Located { storage_location }) => (
                LoadView {
                    phase: LoadPhase::Authorizing,
                    location: match storage_location {
                        Some(location) => location,
                        None => Seq::empty(),
                    },
                    ..self
                },
                LoadCommandView::Authorize {
                    full_name: self.table_name,
                    principal: self.principal,
                },
            ),
            (LoadPhase::Authorizing, LoadEventView::Permission(allowed)) => match self.goal {
                Goal::Frame { .. } => if allowed {
                    (
                        LoadView { phase: LoadPhase::Listing, ..self },
                        LoadCommandView::ListFiles { location: self.location },
                    )
                } else {
                    self.served(LoadCommandView::Deliver)
                },
                Goal::Query => if allowed {
                    self.served(LoadCommandView::Open { location: self.location })
                } else {
                    self.served(LoadCommandView::Empty)
                },
            },
            (LoadPhase::Listing, LoadEventView::Listed(uris)) => match self.goal {
                Goal::Frame { parallel } => {
                    let names = file_names(uris);
                    if names.len() == 0 {
                        (LoadView { files: names, ..self }).served(LoadCommandView::Deliver)
                    } else if parallel {
                        (
                            LoadView {
                                phase: LoadPhase::Fetching,
                                files: names,
                                buffers: Seq::empty(),
                                ..self
                            },
                            LoadCommandView::FetchFiles { names },
                        )
                    } else {
                        (
                            LoadView {
                                phase: LoadPhase::Fetching,
                                files: names,
                                buffers: Seq::empty(),
                                ..self
                            },
                            LoadCommandView::FetchFile { name: names[0] },
                        )
                    }
                },
                Goal::Query => self.given_up(),
            },
            (LoadPhase::Fetching, LoadEventView::File(bytes)) => {
                if self.goal == (Goal::Frame { parallel: false }) {
                    let fetched = self.buffers.push(bytes);
                    if fetched.len() < self.files.len() {
                        (
                            LoadView { buffers: fetched, ..self },
                            LoadCommandView::FetchFile { name: self.files[fetched.len() as int] },
                        )
                    } else {
                        self.served(LoadCommandView::Deliver)
                    }
                } else {
                    self.given_up()
                }
            },
            (LoadPhase::Fetching, LoadEventView::Files(all)) => {
                if self.goal == (Goal::Frame { parallel: true }) && all.len() == self.files.len() {
                    self.served(LoadCommandView::Deliver)
                } else {
                    self.given_up()
                }
            },
            _ => self.given_up(),
        }
    }

    /// The files whose accumulation a delivery after `event` holds: none
    /// after a denial or an empty listing, else all that were fetched.
    pub open spec fn gathered(self, event: LoadEventView) -> Seq<Option<DataFrame>> {
        match (self.phase, event) {
            (LoadPhase::Fetching, LoadEventView::File(bytes)) => self.buffers.push(bytes),
            (LoadPhase::Fetching, LoadEventView::Files(all)) => all,
            _ => Seq::empty(),
        }
    }

    /// The commands that the request issues as `events` come in, one per
    /// event.
    pub open spec fn commands(self, events: Seq<LoadEventView>) -> Seq<LoadCommandView>
        decreases events.len(),
    {
        if events.len() == 0 {
            Seq::empty()
        } else {
            seq![self.step(events[0]).1] + self.step(events[0]).0.commands(events.drop_first())
        }
    }
}

/// The object store is touched only after the principal was allowed to read:
/// whatever else comes in, a request that is never told "permission granted"
/// issues no command that lists, fetches or opens anything.
pub proof fn lemma_no_storage_access_without_permission(
    request: LoadView,
    events: Seq<LoadEventView>,
)
    requires
        request.phase is Locating || request.phase is Authorizing || request.phase is Done
            || request.phase is Failed,
        forall|i: int| 0 <= i < events.len() ==> events[i] != LoadEventView::Permission(true),
    ensures
        request.commands(events).len() == events.len(),
        forall|i: int|
            0 <= i < events.len() ==> !(#[trigger] request.commands(events)[i]).touches_storage(),
    decreases events.len(),
{
    if events.len() > 0 {
        let (next, command) = request.step(events[0]);
        let rest = events.drop_first();
        assert(events[0] != LoadEventView::Permission(true));
        assert forall|i: int| 0 <= i < rest.len() implies rest[i] != LoadEventView::Permission(
            true,
        ) by {
            assert(rest[i] == events[i + 1]);
        }
        lemma_no_storage_access_without_permission(next, rest);
        let all = request.commands(events);
        assert forall|i: int| 0 <= i < events.len() implies !(#[trigger] all[i]).touches_storage() by {
            if i > 0 {
                assert(all[i] == next.commands(rest)[i - 1]);
            }
        }
    }
}

/// A denial serves the request at once and is no failure: a dataframe
/// request delivers the accumulation of no file, a query request is served
/// with the empty dataset, and nothing is fetched for either.
pub proof fn lemma_denial_ends_the_request(request: LoadView)
    requires
        request.phase is Authorizing,
    ensures
        request.step(LoadEventView::Permission(false)).0.phase == LoadPhase::Done,
        request.goal is Frame ==> request.step(LoadEventView::Permission(false)).1
            == LoadCommandView::Deliver,
        request.goal is Query ==> request.step(LoadEventView::Permission(false)).1
            == LoadCommandView::Empty,
        request.gathered(LoadEventView::Permission(false)).len() == 0,
{
}

/// Fetching one by one asks for the files in listing order: while the
/// request waits in well-formed state for a file, the next file asked for is
/// the one after those already fetched.
pub proof fn lemma_serial_fetch_follows_listing(request: LoadView, bytes: Option<DataFrame>)
    requires
        request.well_formed(),
        request.phase is Fetching,
        request.goal == (Goal::Frame { parallel: false }),
    ensures
        request.step(LoadEventView::File(bytes)).0.well_formed(),
        request.buffers.len() + 1 < request.files.len() ==> request.step(
            LoadEventView::File(bytes),
        ).1 == (LoadCommandView::FetchFile { name: request.files[(request.buffers.len() + 1) as int] }),
        request.buffers.len() + 1 == request.files.len() ==> request.step(
            LoadEventView::File(bytes),
        ).1 == LoadCommandView::Deliver && request.gathered(LoadEventView::File(bytes))
            == request.buffers.push(bytes),
{
}

/// One request for one table.
pub struct Materialization {
    table_name: String,
    principal: String,
    goal: Goal,
    phase: LoadPhase,
    location: String,
    files: Vec<String>,
    buffers: Vec<Option<DataFrame>>,
}

impl View for Materialization {
    type V = LoadView;

    closed spec fn view(&self) -> LoadView {
        LoadView {
            table_name: self.table_name@,
            principal: self.principal@,
            goal: self.goal,
            phase: self.phase,
            location: self.location@,
            files: self.files.deep_view(),
            buffers: self.buffers@,
        }
    }
}

impl Materialization {
    #[verifier::type_invariant]
    spec fn holds_together(self) -> bool {
        self@.well_formed()
    }

    fn begin(table_name: &str, principal: &str, goal: Goal) -> (started: (
        Materialization,
        LoadCommand,
    ))
        ensures
            started.0@ == LoadView::begun(table_name@, principal@, goal),
            started.1@ == LoadView::opening(table_name@),
    {
        let request = Materialization {
            table_name: String::from_str(table_name),
            principal: String::from_str(principal),
            goal,
            phase: LoadPhase::Locating,
            location: String::new(),
            files: Vec::new(),
            buffers: Vec::new(),
        };
        assert(request@.files =~= Seq::<Seq<char>>::empty());
        assert(request@.buffers =~= Seq::<Option<DataFrame>>::empty());
        (request, LoadCommand::Locate { full_name: String::from_str(table_name) })
    }

    /// What the request waits for.
    pub fn phase(&self) -> (phase: LoadPhase)
        ensures
            phase == self@.phase,
    {
        self.phase
    }

    /// Takes what came of the last command and issues the next one. A
    /// delivery holds the accumulation of the files fetched.
    pub fn step(self, event: LoadEvent) -> (next: (Materialization, LoadCommand))
        ensures
            (next.0@, next.1@) == self@.step(event@),
            next.1 matches LoadCommand::Deliver(delivered) ==> delivered.describes(
                self@.gathered(event@),
            ),
    {
        proof {
            use_type_invariant(&self);
        }
        let Materialization { table_name, principal, goal, phase, location, files, buffers } = self;
        match phase {
            LoadPhase::Done => (
                Materialization { table_name, principal, goal, phase, location, files, buffers },
                LoadCommand::Stop,
            ),
            LoadPhase::Locating => match event {
                LoadEvent::Located(table) => {
                    let found = match table.storage_location {
                        Some(place) => place,
                        None => String::new(),
                    };
                    let command = LoadCommand::Authorize {
                        full_name: table_name.clone(),
                        principal: principal.clone(),
                    };
                    (
                        Materialization {
                            table_name,
                            principal,
                            goal,
                            phase: LoadPhase::Authorizing,
                            location: found,
                            files,
                            buffers,
                        },
                        command,
                    )
                },
                _ => Self::fail(table_name, principal, goal, location, files),
            },
            LoadPhase::Authorizing => match event {
                LoadEvent::Permission(allowed) => match goal {
                    Goal::Frame { .. } => {
                        if allowed {
                            let command = LoadCommand::ListFiles { location: location.clone() };
                            (
                                Materialization {
                                    table_name,
                                    principal,
                                    goal,
                                    phase: LoadPhase::Listing,
                                    location,
                                    files,
                                    buffers,
                                },
                                command,
                            )
                        } else {
                            let nothing: Vec<Option<DataFrame>> = Vec::new();
                            let delivered = accumulate(nothing);
                            Self::serve(
                                table_name,
                                principal,
                                goal,
                                location,
                                files,
                                LoadCommand::Deliver(delivered),
                            )
                        }
                    },
                    Goal::Query => {
                        if allowed {
                            let command = LoadCommand::Open { location: location.clone() };
                            Self::serve(table_name, principal, goal, location, files, command)
                        } else {
                            Self::serve(
                                table_name,
                                principal,
                                goal,
                                location,
                                files,
                                LoadCommand::Empty,
                            )
                        }
                    },
                },
                _ => Self::fail(table_name, principal, goal, location, files),
            },
            LoadPhase::Listing => match event {
                LoadEvent::Listed(uris) => match goal {
                    Goal::Frame { parallel } => {
                        let names = file_names_of(&uris);
                        if names.len() == 0 {
                            let nothing: Vec<Option<DataFrame>> = Vec::new();
                            let delivered = accumulate(nothing);
                            Self::serve(
                                table_name,
                                principal,
                                goal,
                                location,
                                names,
                                LoadCommand::Deliver(delivered),
                            )
                        } else if parallel {
                            let command = LoadCommand::FetchFiles { names: names.clone() };
                            proof {
                                vstd::std_specs::vec::vec_clone_deep_view_proof(
                                    names,
                                    command->FetchFiles_names,
                                );
                            }
                            let fresh: Vec<Option<DataFrame>> = Vec::new();
                            (
                                Materialization {
                                    table_name,
                                    principal,
                                    goal,
                                    phase: LoadPhase::Fetching,
                                    location,
                                    files: names,
                                    buffers: fresh,
                                },
                                command,
                            )
                        } else {
                            let command = LoadCommand::FetchFile { name: names[0].clone() };
                            let fresh: Vec<Option<DataFrame>> = Vec::new();
                            (
                                Materialization {
                                    table_name,
                                    principal,
                                    goal,
                                    phase: LoadPhase::Fetching,
                                    location,
                                    files: names,
                                    buffers: fresh,
                                },
                                command,
                            )
                        }
                    },
                    Goal::Query => Self::fail(table_name, principal, goal, location, files),
                },
                _ => Self::fail(table_name, principal, goal, location, files),
            },
            LoadPhase::Fetching => match event {
                LoadEvent::File(bytes) => match goal {
                    Goal::Frame { parallel: false } => {
                        let mut buffers = buffers;
                        let ghost held = buffers@;
                        buffers.push(bytes);
                        if buffers.len() < files.len() {
                            let command = LoadCommand::FetchFile {
                                name: files[buffers.len()].clone(),
                            };
                            (
                                Materialization {
                                    table_name,
                                    principal,
                                    goal,
                                    phase: LoadPhase::Fetching,
                                    location,
                                    files,
                                    buffers,
                                },
                                command,
                            )
                        } else {
                            let delivered = accumulate(buffers);
                            Self::serve(
                                table_name,
                                principal,
                                goal,
                                location,
                                files,
                                LoadCommand::Deliver(delivered),
                            )
                        }
                    },
                    _ => Self::fail(table_name, principal, goal, location, files),
                },
                LoadEvent::Files(all) => match goal {
                    Goal::Frame { parallel: true } => {
                        if all.len() == files.len() {
                            let delivered = accumulate(all);
                            Self::serve(
                                table_name,
                                principal,
                                goal,
                                location,
                                files,
                                LoadCommand::Deliver(delivered),
                            )
                        } else {
                            Self::fail(table_name, principal, goal, location, files)
                        }
                    },
                    _ => Self::fail(table_name, principal, goal, location, files),
                },
                _ => Self::fail(table_name, principal, goal, location, files),
            },
            LoadPhase::Failed => Self::fail(table_name, principal, goal, location, files),
        }
    }

    fn serve(
        table_name: String,
        principal: String,
        goal: Goal,
        location: String,
        files: Vec<String>,
        command: LoadCommand,
    ) -> (next: (Materialization, LoadCommand))
        ensures
            next.0@ == (LoadView {
                table_name: table_name@,
                principal: principal@,
                goal,
                phase: LoadPhase::Done,
                location: location@,
                files: files.deep_view(),
                buffers: Seq::empty(),
            }),
            next.1 == command,
    {
        let request = Materialization {
            table_name,
            principal,
            goal,
            phase: LoadPhase::Done,
            location,
            files,
            buffers: Vec::new(),
        };
        assert(request@.buffers =~= Seq::<Option<DataFrame>>::empty());
        (request, command)
    }

    fn fail(
        table_name: String,
        principal: String,
        goal: Goal,
        location: String,
        files: Vec<String>,
    ) -> (next: (Materialization, LoadCommand))
        ensures
            next.0@ == (LoadView {
                table_name: table_name@,
                principal: principal@,
                goal,
                phase: LoadPhase::Failed,
                location: location@,
                files: files.deep_view(),
                buffers: Seq::empty(),
            }),
            next.1@ == LoadCommandView::Abort,
    {
        let request = Materialization {
            table_name,
            principal,
            goal,
            phase: LoadPhase::Failed,
            location,
            files,
            buffers: Vec::new(),
        };
        assert(request@.buffers =~= Seq::<Option<DataFrame>>::empty());
        (request, LoadCommand::Abort)
    }
}

/// Reader of tables on behalf of one principal.
pub struct DeltaLakeReader {
    pub storage_credentials: AzureDataLakeGen2Options,
    pub permissions_client: Permissions,
    pub metastore_client: MetastoreClient,
    pub principal: String,
}

impl DeltaLakeReader {
    /// A reader that acts for `principal`.
    pub fn new(
        storage_credentials: AzureDataLakeGen2Options,
        permissions_client: Permissions,
        metastore_client: MetastoreClient,
        principal: String,
    ) -> (reader: Self)
        ensures
            reader.storage_credentials == storage_credentials,
            reader.permissions_client == permissions_client,
            reader.metastore_client == metastore_client,
            reader.principal == principal,
    {
        DeltaLakeReader { storage_credentials, permissions_client, metastore_client, principal }
    }

    /// Begins bringing the table `table_name` into one dataframe, its files
    /// fetched all at once if `parallel_read`, else one after the other.
    pub fn read_delta_table_as_polars(&self, table_name: &str, parallel_read: bool) -> (started: (
        Materialization,
        LoadCommand,
    ))
        ensures
            started.0@ == LoadView::begun(
                table_name@,
                self.principal@,
                Goal::Frame { parallel: parallel_read },
            ),
            started.1@ == LoadView::opening(table_name@),
    {
        Materialization::begin(
            table_name,
            self.principal.as_str(),
            Goal::Frame { parallel: parallel_read },
        )
    }

    /// Begins asking leave to open the table `table_name` for a query
    /// engine; a denial refuses the request.
    pub fn read_delta_table_as_datafusion(&self, table_name: &str) -> (started: (
        Materialization,
        LoadCommand,
    ))
        ensures
            started.0@ == LoadView::begun(table_name@, self.principal@, Goal::Query),
            started.1@ == LoadView::opening(table_name@),
    {
        Materialization::begin(table_name, self.principal.as_str(), Goal::Query)
    }
}

} // verus!
