//! The authorization resolver: which questions to put to the authority, in
//! which order, and what follows from its answers.
//!
//! A [`PermissionCheck`] never talks to the authority itself. It names the
//! next query, takes the reply, and moves on, until the check is decided.
//! Ownership is asked first, from the object up to its catalog; only when no
//! level is owned by the principal are the grants of every level collected
//! and searched. Anything short of ownership or a matching grant is a denial.
use crate::api_client::{object_address, permissions_address};
use crate::names::{SecurableName, SecurableNameView};
use crate::permissions::{
    any_grant_holds, append_tagged, grants_any, read_privileges, tag_all, write_privileges,
    AssignmentView, ObjectOwnerResponse, Permissions, PrivilegeAssignment,
    PrivilegeAssignmentsResponse,
};
use crate::securable::SecurableType;
use vstd::prelude::*;
use vstd::string::*;

verus! {

/// A level of the hierarchy.
#[derive(Debug, Clone, Copy, PartialEq, Eq, Structural)]
pub enum Level {
    Catalog,
    Schema,
    Table,
}

/// Where a check stands.
#[derive(Debug, Clone, Copy, PartialEq, Eq, Structural)]
pub enum Stage {
    /// Waiting to learn who owns the object at this level.
    Owner(Level),
    /// Waiting for the grants made at this level.
    Grants(Level),
    /// The check is over: allowed or denied.
    Decided(bool),
    /// The grants of every level were collected; no decision was asked for.
    Collected,
    /// The authority could not be reached or understood.
    Failed,
}

/// What a query asks for.
#[derive(Debug, Clone, Copy, PartialEq, Eq, Structural)]
pub enum Ask {
    Owner,
    Grants,
}

/// A question for the authority, with the address that answers it.
#[derive(Debug, Clone)]
pub struct Query {
    pub ask: Ask,
    pub securable_type: SecurableType,
    pub full_name: String,
    pub url: String,
}

/// Mathematical value of a [`Query`], without its address.
pub struct QueryView {
    pub ask: Ask,
    pub securable_type: SecurableType,
    pub full_name: Seq<char>,
}

impl View for Query {
    type V = QueryView;

    open spec fn view(&self) -> QueryView {
        QueryView {
            ask: self.ask,
            securable_type: self.securable_type,
            full_name: self.full_name@,
        }
    }
}

impl QueryView {
    /// The address that answers this query for `principal` on `workspace`.
    pub open spec fn address(self, workspace: Seq<char>, principal: Seq<char>) -> Seq<char> {
        match self.ask {
            Ask::Owner => object_address(workspace, self.securable_type, self.full_name),
            Ask::Grants => permissions_address(
                workspace,
                self.securable_type,
                self.full_name,
                principal,
            ),
        }
    }
}

/// What came back from the authority.
#[derive(Debug, Clone)]
pub enum Reply {
    Owner(ObjectOwnerResponse),
    Grants(PrivilegeAssignmentsResponse),
    /// The request failed, or its body could not be read.
    Failed,
}

/// Mathematical value of a [`Reply`].
pub enum ReplyView {
    Owner(Seq<char>),
    Grants(Option<Seq<AssignmentView>>),
    Failed,
}

impl View for Reply {
    type V = ReplyView;

    open spec fn view(&self) -> ReplyView {
        match self {
            Reply::Owner(response) => ReplyView::Owner(response.owner@),
            Reply::Grants(response) => ReplyView::Grants(response@),
            Reply::Failed => ReplyView::Failed,
        }
    }
}

/// Mathematical value of a [`PermissionCheck`].
pub struct CheckView {
    pub name: SecurableNameView,
    /// Kind under which the object itself is queried at table level.
    pub securable_type: SecurableType,
    pub principal: Seq<char>,
    /// Privileges that allow the access; absent when only the grants are wanted.
    pub allow: Option<Seq<Seq<char>>>,
    pub stage: Stage,
    /// Grants collected so far, each tagged with the object it was made on.
    pub collected: Seq<AssignmentView>,
}

/// Whether `name` reaches `level`.
pub open spec fn present(name: SecurableNameView, level: Level) -> bool {
    match level {
        Level::Catalog => true,
        Level::Schema => name.schema is Some,
        Level::Table => name.table is Some,
    }
}

/// The name by which the authority knows the object at `level`.
pub open spec fn scope(name: SecurableNameView, level: Level) -> Seq<char> {
    match level {
        Level::Catalog => name.catalog,
        Level::Schema => name.schema->0,
        Level::Table => name.table->0,
    }
}

/// The level whose owner is asked first: the innermost one.
pub open spec fn first_owner_level(name: SecurableNameView) -> Level {
    if name.table is Some {
        Level::Table
    } else if name.schema is Some {
        Level::Schema
    } else {
        Level::Catalog
    }
}

/// The level whose owner is asked after `level`: its parent.
pub open spec fn owner_level_after(name: SecurableNameView, level: Level) -> Option<Level> {
    match level {
        Level::Table => Some(
            if name.schema is Some {
                Level::Schema
            } else {
                Level::Catalog
            },
        ),
        Level::Schema => Some(Level::Catalog),
        Level::Catalog => None,
    }
}

/// The level whose grants are asked after `level`: the next one inward.
pub open spec fn grants_level_after(name: SecurableNameView, level: Level) -> Option<Level> {
    match level {
        Level::Catalog => if name.schema is Some {
            Some(Level::Schema)
        } else if name.table is Some {
            Some(Level::Table)
        } else {
            None
        },
        Level::Schema => if name.table is Some {
            Some(Level::Table)
        } else {
            None
        },
        Level::Table => None,
    }
}

/// The kind recorded on grants collected at `level`.
pub open spec fn level_kind(level: Level) -> SecurableType {
    match level {
        Level::Catalog => SecurableType::Catalog,
        Level::Schema => SecurableType::Schema,
        Level::Table => SecurableType::Table,
    }
}

impl CheckView {
    /// The kind under which the object at `level` is queried.
    pub open spec fn query_kind(self, level: Level) -> SecurableType {
        match level {
            Level::Table => self.securable_type,
            _ => level_kind(level),
        }
    }

    /// A check stands at a level only if the name reaches it.
    pub open spec fn well_formed(self) -> bool {
        &&& self.name.well_formed()
        &&& match self.stage {
            Stage::Owner(level) => present(self.name, level) && self.allow is Some,
            Stage::Grants(level) => present(self.name, level),
            Stage::Decided(_) => self.allow is Some,
            Stage::Collected => self.allow is None,
            Stage::Failed => true,
        }
    }

    /// A check of whether `principal` holds one of `allow` on `name`.
    pub open spec fn deciding(
        name: SecurableNameView,
        securable_type: SecurableType,
        principal: Seq<char>,
        allow: Seq<Seq<char>>,
    ) -> CheckView {
        CheckView {
            name,
            securable_type,
            principal,
            allow: Some(allow),
            stage: Stage::Owner(first_owner_level(name)),
            collected: Seq::empty(),
        }
    }

    /// A run that only collects what `principal` was granted along `name`.
    pub open spec fn collecting(
        name: SecurableNameView,
        securable_type: SecurableType,
        principal: Seq<char>,
    ) -> CheckView {
        CheckView {
            name,
            securable_type,
            principal,
            allow: None,
            stage: Stage::Grants(Level::Catalog),
            collected: Seq::empty(),
        }
    }

    /// The query this check waits on, if it is not over.
    pub open spec fn pending(self) -> Option<QueryView> {
        match self.stage {
            Stage::Owner(level) => Some(
                QueryView {
                    ask: Ask::Owner,
                    securable_type: self.query_kind(level),
                    full_name: scope(self.name, level),
                },
            ),
            Stage::Grants(level) => Some(
                QueryView {
                    ask: Ask::Grants,
                    securable_type: self.query_kind(level),
                    full_name: scope(self.name, level),
                },
            ),
            _ => None,
        }
    }

    /// The check with its stage replaced.
    pub open spec fn at(self, stage: Stage) -> CheckView {
        CheckView { stage, ..self }
    }

    /// The stage reached once the grants of the last level are in.
    pub open spec fn closing_stage(self, collected: Seq<AssignmentView>) -> Stage {
        match self.allow {
            Some(allow) => Stage::Decided(grants_any(collected, allow)),
            None => Stage::Collected,
        }
    }

    /// The check after `reply` to its pending query. A reply of the wrong
    /// sort, like a failure, fails the check; a finished check stays as it is.
    pub open spec fn step(self, reply: ReplyView) -> CheckView {
        match (self.stage, reply) {
            (Stage::Owner(level), ReplyView::Owner(owner)) => {
                if owner == self.principal {
                    self.at(Stage::Decided(true))
                } else {
                    match owner_level_after(self.name, level) {
                        Some(parent) => self.at(Stage::Owner(parent)),
                        None => self.at(Stage::Grants(Level::Catalog)),
                    }
                }
            },
            (Stage::Grants(level), ReplyView::Grants(reported)) => {
                let collected = match reported {
                    Some(grants) => self.collected + tag_all(
                        grants,
                        scope(self.name, level),
                        level_kind(level),
                    ),
                    None => self.collected,
                };
                let stage = match grants_level_after(self.name, level) {
                    Some(inner) => Stage::Grants(inner),
                    None => self.closing_stage(collected),
                };
                CheckView { stage, collected, ..self }
            },
            (Stage::Owner(_), _) => self.at(Stage::Failed),
            (Stage::Grants(_), _) => self.at(Stage::Failed),
            _ => self,
        }
    }
}

/// The authority as the resolver sees it: who owns each object, and what a
/// principal was granted on it. The grants are those of the principal asked
/// about, group memberships included.
pub struct Authority {
    pub owner_of: spec_fn(SecurableType, Seq<char>) -> Seq<char>,
    pub grants_on: spec_fn(SecurableType, Seq<char>, Seq<char>) -> Option<Seq<AssignmentView>>,
}

impl Authority {
    /// The authority's reply to `query` about `principal`.
    pub open spec fn answer(self, query: QueryView, principal: Seq<char>) -> ReplyView {
        match query.ask {
            Ask::Owner => ReplyView::Owner((self.owner_of)(query.securable_type, query.full_name)),
            Ask::Grants => ReplyView::Grants(
                (self.grants_on)(query.securable_type, query.full_name, principal),
            ),
        }
    }

    /// Whether the check's principal owns the object at `level`.
    pub open spec fn owns(self, check: CheckView, level: Level) -> bool {
        present(check.name, level) && (self.owner_of)(
            check.query_kind(level),
            scope(check.name, level),
        ) == check.principal
    }

    /// Whether the check's principal owns the object or one of its ancestors.
    pub open spec fn owns_any(self, check: CheckView) -> bool {
        self.owns(check, Level::Table) || self.owns(check, Level::Schema) || self.owns(
            check,
            Level::Catalog,
        )
    }

    /// The grants reported at `level`, tagged with the object at that level.
    pub open spec fn grants_at(self, check: CheckView, level: Level) -> Seq<AssignmentView> {
        if present(check.name, level) {
            match (self.grants_on)(
                check.query_kind(level),
                scope(check.name, level),
                check.principal,
            ) {
                Some(grants) => tag_all(grants, scope(check.name, level), level_kind(level)),
                None => Seq::empty(),
            }
        } else {
            Seq::empty()
        }
    }

    /// The grants of every level present, outermost first.
    pub open spec fn grants_along(self, check: CheckView) -> Seq<AssignmentView> {
        self.grants_at(check, Level::Catalog) + self.grants_at(check, Level::Schema)
            + self.grants_at(check, Level::Table)
    }

    /// The check after the authority answered up to `rounds` of its queries.
    pub open spec fn run(self, check: CheckView, rounds: nat) -> CheckView
        decreases rounds,
    {
        if rounds == 0 {
            check
        } else {
            match check.pending() {
                Some(query) => self.run(
                    check.step(self.answer(query, check.principal)),
                    (rounds - 1) as nat,
                ),
                None => check,
            }
        }
    }
}

/// Six rounds are enough for any check: three owners and three lists of grants.
pub open spec fn enough_rounds() -> nat {
    6
}

/// The resolver computes what its rules say: run against an authority, a
/// check ends allowed exactly if the principal owns the object or one of its
/// ancestors, or holds an allowed privilege among the grants of the levels
/// present. Without ownership the grants collected are those of every level
/// present, outermost first.
pub proof fn lemma_check_decides(
    authority: Authority,
    name: SecurableNameView,
    securable_type: SecurableType,
    principal: Seq<char>,
    allow: Seq<Seq<char>>,
)
    ensures
        ({
            let start = CheckView::deciding(name, securable_type, principal, allow);
            let end = authority.run(start, enough_rounds());
            &&& end.stage == Stage::Decided(
                authority.owns_any(start) || grants_any(authority.grants_along(start), allow),
            )
            &&& !authority.owns_any(start) ==> end.collected == authority.grants_along(start)
        }),
{
    reveal_with_fuel(Authority::run, 7);
    let start = CheckView::deciding(name, securable_type, principal, allow);
    let end = authority.run(start, enough_rounds());
    if !authority.owns_any(start) {
        assert(end.collected =~= authority.grants_along(start));
    }
}

/// Running some rounds and then some more is running them all at once.
pub proof fn lemma_run_composes(authority: Authority, check: CheckView, first: nat, then: nat)
    ensures
        authority.run(authority.run(check, first), then) == authority.run(check, first + then),
    decreases first,
{
    if first > 0 {
        match check.pending() {
            Some(query) => {
                lemma_run_composes(
                    authority,
                    check.step(authority.answer(query, check.principal)),
                    (first - 1) as nat,
                    then,
                );
            },
            None => {
                lemma_run_settles(authority, check, then);
                lemma_run_settles(authority, check, first + then);
            },
        }
    }
}

/// A check that waits on nothing stays as it is, however long it is run.
pub proof fn lemma_run_settles(authority: Authority, check: CheckView, rounds: nat)
    requires
        check.pending() is None,
    ensures
        authority.run(check, rounds) == check,
{
}

/// A decision once reached stands: more rounds than needed change nothing.
pub proof fn lemma_more_rounds_change_nothing(
    authority: Authority,
    name: SecurableNameView,
    securable_type: SecurableType,
    principal: Seq<char>,
    allow: Seq<Seq<char>>,
    rounds: nat,
)
    requires
        rounds >= enough_rounds(),
    ensures
        authority.run(CheckView::deciding(name, securable_type, principal, allow), rounds)
            == authority.run(
            CheckView::deciding(name, securable_type, principal, allow),
            enough_rounds(),
        ),
{
    let start = CheckView::deciding(name, securable_type, principal, allow);
    lemma_check_decides(authority, name, securable_type, principal, allow);
    lemma_run_composes(authority, start, enough_rounds(), (rounds - enough_rounds()) as nat);
    lemma_run_settles(
        authority,
        authority.run(start, enough_rounds()),
        (rounds - enough_rounds()) as nat,
    );
}

/// Ownership at any level allows the access, whatever was or was not granted.
pub proof fn lemma_owner_is_allowed(
    authority: Authority,
    name: SecurableNameView,
    securable_type: SecurableType,
    principal: Seq<char>,
    allow: Seq<Seq<char>>,
    level: Level,
)
    requires
        authority.owns(CheckView::deciding(name, securable_type, principal, allow), level),
    ensures
        authority.run(
            CheckView::deciding(name, securable_type, principal, allow),
            enough_rounds(),
        ).stage == Stage::Decided(true),
{
    lemma_check_decides(authority, name, securable_type, principal, allow);
}

/// Without ownership, the access is allowed exactly if some grant collected
/// along the name holds an allowed privilege; otherwise it is denied.
pub proof fn lemma_grants_decide_without_owner(
    authority: Authority,
    name: SecurableNameView,
    securable_type: SecurableType,
    principal: Seq<char>,
    allow: Seq<Seq<char>>,
)
    requires
        !authority.owns_any(CheckView::deciding(name, securable_type, principal, allow)),
    ensures
        authority.run(
            CheckView::deciding(name, securable_type, principal, allow),
            enough_rounds(),
        ).stage == Stage::Decided(
            grants_any(
                authority.grants_along(
                    CheckView::deciding(name, securable_type, principal, allow),
                ),
                allow,
            ),
        ),
{
    lemma_check_decides(authority, name, securable_type, principal, allow);
}

/// With no owner and no grant anywhere, the access is denied.
pub proof fn lemma_denied_by_default(
    authority: Authority,
    name: SecurableNameView,
    securable_type: SecurableType,
    principal: Seq<char>,
    allow: Seq<Seq<char>>,
)
    requires
        !authority.owns_any(CheckView::deciding(name, securable_type, principal, allow)),
        authority.grants_along(CheckView::deciding(name, securable_type, principal, allow)).len()
            == 0,
    ensures
        authority.run(
            CheckView::deciding(name, securable_type, principal, allow),
            enough_rounds(),
        ).stage == Stage::Decided(false),
{
    lemma_check_decides(authority, name, securable_type, principal, allow);
}

/// A run that only collects ends with the grants of every level present,
/// outermost first, each tagged with the object it was made on.
pub proof fn lemma_collecting_gathers(
    authority: Authority,
    name: SecurableNameView,
    securable_type: SecurableType,
    principal: Seq<char>,
)
    ensures
        ({
            let start = CheckView::collecting(name, securable_type, principal);
            let end = authority.run(start, enough_rounds());
            &&& end.stage == Stage::Collected
            &&& end.collected == authority.grants_along(start)
        }),
{
    reveal_with_fuel(Authority::run, 7);
    let start = CheckView::collecting(name, securable_type, principal);
    let end = authority.run(start, enough_rounds());
    assert(end.collected =~= authority.grants_along(start));
}

/// A finished check ignores every further reply, and a check that is not
/// finished always has a query pending.
pub proof fn lemma_finished_checks_stay(check: CheckView, reply: ReplyView)
    ensures
        check.pending() is None ==> check.step(reply) == check,
        check.pending() is None <==> (check.stage is Decided || check.stage is Collected
            || check.stage is Failed),
{
}

/// A step keeps a check well formed.
pub proof fn lemma_step_keeps_well_formed(check: CheckView, reply: ReplyView)
    requires
        check.well_formed(),
    ensures
        check.step(reply).well_formed(),
{
}

/// A check in progress.
#[derive(Debug)]
pub struct PermissionCheck {
    name: SecurableName,
    securable_type: SecurableType,
    principal: String,
    allow: Option<Vec<String>>,
    stage: Stage,
    collected: Vec<PrivilegeAssignment>,
}

impl View for PermissionCheck {
    type V = CheckView;

    closed spec fn view(&self) -> CheckView {
        CheckView {
            name: self.name@,
            securable_type: self.securable_type,
            principal: self.principal@,
            allow: self.allow.deep_view(),
            stage: self.stage,
            collected: self.collected.deep_view(),
        }
    }
}

impl PermissionCheck {
    #[verifier::type_invariant]
    spec fn holds_together(self) -> bool {
        self@.well_formed()
    }

    fn deciding(
        full_name: &str,
        securable_type: SecurableType,
        principal: &str,
        allow: Vec<String>,
    ) -> (check: PermissionCheck)
        ensures
            check@ == CheckView::deciding(
                SecurableNameView::of(full_name@),
                securable_type,
                principal@,
                allow.deep_view(),
            ),
    {
        let name = SecurableName::parse(full_name);
        let stage = if name.table.is_some() {
            Stage::Owner(Level::Table)
        } else if name.schema.is_some() {
            Stage::Owner(Level::Schema)
        } else {
            Stage::Owner(Level::Catalog)
        };
        let check = PermissionCheck {
            name,
            securable_type,
            principal: String::from_str(principal),
            allow: Some(allow),
            stage,
            collected: Vec::new(),
        };
        assert(check@.collected =~= Seq::<AssignmentView>::empty());
        check
    }

    fn collecting(full_name: &str, securable_type: SecurableType, principal: &str) -> (check:
        PermissionCheck)
        ensures
            check@ == CheckView::collecting(
                SecurableNameView::of(full_name@),
                securable_type,
                principal@,
            ),
    {
        let check = PermissionCheck {
            name: SecurableName::parse(full_name),
            securable_type,
            principal: String::from_str(principal),
            allow: None,
            stage: Stage::Grants(Level::Catalog),
            collected: Vec::new(),
        };
        assert(check@.collected =~= Seq::<AssignmentView>::empty());
        check
    }

    /// Where the check stands.
    pub fn stage(&self) -> (stage: Stage)
        ensures
            stage == self@.stage,
    {
        self.stage
    }

    /// The verdict, once there is one.
    pub fn decision(&self) -> (verdict: Option<bool>)
        ensures
            verdict == match self@.stage {
                Stage::Decided(allowed) => Some(allowed),
                _ => None::<bool>,
            },
    {
        match self.stage {
            Stage::Decided(allowed) => Some(allowed),
            _ => None,
        }
    }

    /// The grants of a run that collected them all, as one response; nothing
    /// from a run that is unfinished, failed, or was asked for a decision.
    pub fn into_grants(self) -> (response: Option<PrivilegeAssignmentsResponse>)
        ensures
            response is Some <==> self@.stage is Collected,
            response matches Some(grants) ==> grants@ == Some(self@.collected),
    {
        match self.stage {
            Stage::Collected => Some(
                PrivilegeAssignmentsResponse { privilege_assignments: Some(self.collected) },
            ),
            _ => None,
        }
    }

    fn scope_text(&self, level: Level) -> (text: &str)
        requires
            present(self@.name, level),
        ensures
            text@ == scope(self@.name, level),
    {
        match level {
            Level::Catalog => self.name.catalog.as_str(),
            Level::Schema => match &self.name.schema {
                Some(schema) => schema.as_str(),
                None => self.name.catalog.as_str(),
            },
            Level::Table => match &self.name.table {
                Some(table) => table.as_str(),
                None => self.name.catalog.as_str(),
            },
        }
    }

    fn kind_for_query(&self, level: Level) -> (kind: SecurableType)
        ensures
            kind == self@.query_kind(level),
    {
        match level {
            Level::Catalog => SecurableType::Catalog,
            Level::Schema => SecurableType::Schema,
            Level::Table => self.securable_type,
        }
    }

    /// Takes the authority's reply to the pending query.
    pub fn step(self, reply: Reply) -> (next: PermissionCheck)
        ensures
            next@ == self@.step(reply@),
    {
        proof {
            use_type_invariant(&self);
        }
        let PermissionCheck { name, securable_type, principal, allow, stage, collected } = self;
        match stage {
            Stage::Owner(level) => match reply {
                Reply::Owner(response) => {
                    let next_stage = if response.owner == principal {
                        Stage::Decided(true)
                    } else {
                        match level {
                            Level::Table => if name.schema.is_some() {
                                Stage::Owner(Level::Schema)
                            } else {
                                Stage::Owner(Level::Catalog)
                            },
                            Level::Schema => Stage::Owner(Level::Catalog),
                            Level::Catalog => Stage::Grants(Level::Catalog),
                        }
                    };
                    PermissionCheck {
                        name,
                        securable_type,
                        principal,
                        allow,
                        stage: next_stage,
                        collected,
                    }
                },
                _ => PermissionCheck {
                    name,
                    securable_type,
                    principal,
                    allow,
                    stage: Stage::Failed,
                    collected,
                },
            },
            Stage::Grants(level) => match reply {
                Reply::Grants(response) => {
                    let mut collected = collected;
                    match response.privilege_assignments {
                        Some(reported) => {
                            let kind = match level {
                                Level::Catalog => SecurableType::Catalog,
                                Level::Schema => SecurableType::Schema,
                                Level::Table => SecurableType::Table,
                            };
                            let tag = match level {
                                Level::Catalog => name.catalog.as_str(),
                                Level::Schema => match &name.schema {
                                    Some(schema) => schema.as_str(),
                                    None => name.catalog.as_str(),
                                },
                                Level::Table => match &name.table {
                                    Some(table) => table.as_str(),
                                    None => name.catalog.as_str(),
                                },
                            };
                            append_tagged(&mut collected, reported, tag, kind);
                        },
                        None => {},
                    }
                    let inner = match level {
                        Level::Catalog => if name.schema.is_some() {
                            Some(Level::Schema)
                        } else if name.table.is_some() {
                            Some(Level::Table)
                        } else {
                            None
                        },
                        Level::Schema => if name.table.is_some() {
                            Some(Level::Table)
                        } else {
                            None
                        },
                        Level::Table => None,
                    };
                    let next_stage = match inner {
                        Some(inner_level) => Stage::Grants(inner_level),
                        None => match &allow {
                            Some(allowed) => Stage::Decided(any_grant_holds(&collected, allowed)),
                            None => Stage::Collected,
                        },
                    };
                    PermissionCheck {
                        name,
                        securable_type,
                        principal,
                        allow,
                        stage: next_stage,
                        collected,
                    }
                },
                _ => PermissionCheck {
                    name,
                    securable_type,
                    principal,
                    allow,
                    stage: Stage::Failed,
                    collected,
                },
            },
            _ => PermissionCheck { name, securable_type, principal, allow, stage, collected },
        }
    }
}

fn allow_list(first: &str, second: &str) -> (allow: Vec<String>)
    ensures
        allow.deep_view() == seq![first@, second@],
{
    let mut allow: Vec<String> = Vec::new();
    allow.push(String::from_str(first));
    allow.push(String::from_str(second));
    allow
}

impl Permissions {
    /// Begins a check of whether `principal` may read the table `full_name`.
    pub fn can_read(&self, full_name: &str, principal: &str) -> (check: PermissionCheck)
        ensures
            check@ == CheckView::deciding(
                SecurableNameView::of(full_name@),
                SecurableType::Table,
                principal@,
                read_privileges(),
            ),
    {
        PermissionCheck::deciding(
            full_name,
            SecurableType::Table,
            principal,
            allow_list("SELECT", "ALL_PRIVILEGES"),
        )
    }

    /// Begins a check of whether `principal` may write the table `full_name`.
    pub fn can_write(&self, full_name: &str, principal: &str) -> (check: PermissionCheck)
        ensures
            check@ == CheckView::deciding(
                SecurableNameView::of(full_name@),
                SecurableType::Table,
                principal@,
                write_privileges(),
            ),
    {
        PermissionCheck::deciding(
            full_name,
            SecurableType::Table,
            principal,
            allow_list("MODIFY", "ALL_PRIVILEGES"),
        )
    }

    /// Begins a check of whether `principal` holds one of `permissions` on
    /// `full_name`, or owns it or one of its ancestors.
    pub fn check_permissions(
        &self,
        securable_type: SecurableType,
        full_name: &str,
        principal: &str,
        permissions: Vec<String>,
    ) -> (check: PermissionCheck)
        ensures
            check@ == CheckView::deciding(
                SecurableNameView::of(full_name@),
                securable_type,
                principal@,
                permissions.deep_view(),
            ),
    {
        PermissionCheck::deciding(full_name, securable_type, principal, permissions)
    }

    /// Begins collecting what `principal` was granted on `full_name` and on
    /// each of its ancestors.
    pub fn fetch_permissions(
        &self,
        securable_type: SecurableType,
        full_name: &str,
        principal: &str,
    ) -> (check: PermissionCheck)
        ensures
            check@ == CheckView::collecting(
                SecurableNameView::of(full_name@),
                securable_type,
                principal@,
            ),
    {
        PermissionCheck::collecting(full_name, securable_type, principal)
    }

    /// The query for the owner of one object.
    pub fn get_object_owner(&self, securable_type: SecurableType, full_name: &str) -> (query: Query)
        ensures
            query@ == (QueryView { ask: Ask::Owner, securable_type, full_name: full_name@ }),
            query.url@ == object_address(
                self.api_client.workspace_name@,
                securable_type,
                full_name@,
            ),
    {
        Query {
            ask: Ask::Owner,
            securable_type,
            full_name: String::from_str(full_name),
            url: self.api_client.object_url(securable_type, full_name),
        }
    }

    /// The query that `check` waits on, with its address on this workspace;
    /// none once the check is over.
    pub fn next_query(&self, check: &PermissionCheck) -> (query: Option<Query>)
        ensures
            query.is_some() == check@.pending().is_some(),
            query matches Some(q) ==> q@ == check@.pending()->0 && q.url@ == q@.address(
                self.api_client.workspace_name@,
                check@.principal,
            ),
    {
        proof {
            use_type_invariant(check);
        }
        match check.stage {
            Stage::Owner(level) => {
                let kind = check.kind_for_query(level);
                let scope_name = check.scope_text(level);
                Some(
                    Query {
                        ask: Ask::Owner,
                        securable_type: kind,
                        full_name: String::from_str(scope_name),
                        url: self.api_client.object_url(kind, scope_name),
                    },
                )
            },
            Stage::Grants(level) => {
                let kind = check.kind_for_query(level);
                let scope_name = check.scope_text(level);
                Some(
                    Query {
                        ask: Ask::Grants,
                        securable_type: kind,
                        full_name: String::from_str(scope_name),
                        url: self.api_client.permissions_url(
                            kind,
                            scope_name,
                            check.principal.as_str(),
                        ),
                    },
                )
            },
            _ => None,
        }
    }
}

} // verus!
