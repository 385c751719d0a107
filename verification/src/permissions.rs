//! What the authority reports about ownership and privileges, and the
//! credentials handed out once a principal's identity was looked up.
use crate::api_client::APIClient;
use crate::securable::SecurableType;
use crate::text::{is_listed, same_text};
use vstd::hash_map::StringHashMap;
use vstd::prelude::*;
use vstd::string::*;

verus! {

/// A grant record: the privileges one principal holds on one securable.
#[derive(Debug, Clone)]
pub struct PrivilegeAssignment {
    pub object_name: String,
    pub object_type: Option<SecurableType>,
    pub principal: Option<String>,
    pub privileges: Option<Vec<String>>,
}

/// Mathematical value of a [`PrivilegeAssignment`].
pub struct AssignmentView {
    pub object_name: Seq<char>,
    pub object_type: Option<SecurableType>,
    pub principal: Option<Seq<char>>,
    pub privileges: Option<Seq<Seq<char>>>,
}

impl DeepView for PrivilegeAssignment {
    type V = AssignmentView;

    open spec fn deep_view(&self) -> AssignmentView {
        AssignmentView {
            object_name: self.object_name@,
            object_type: self.object_type,
            principal: self.principal.deep_view(),
            privileges: self.privileges.deep_view(),
        }
    }
}

impl View for PrivilegeAssignment {
    type V = AssignmentView;

    open spec fn view(&self) -> AssignmentView {
        self.deep_view()
    }
}

impl AssignmentView {
    /// The same grant, recorded as made on `object_name` of kind `object_type`.
    pub open spec fn tagged(self, object_name: Seq<char>, object_type: SecurableType) -> Self {
        AssignmentView {
            object_name,
            object_type: Some(object_type),
            principal: self.principal,
            privileges: self.privileges,
        }
    }

    /// Whether this grant holds one of the privileges in `allow`.
    pub open spec fn holds_any(self, allow: Seq<Seq<char>>) -> bool {
        match self.privileges {
            Some(held) => any_allowed(held, allow),
            None => false,
        }
    }
}

/// Every grant of `grants`, recorded as made on `object_name`.
pub open spec fn tag_all(
    grants: Seq<AssignmentView>,
    object_name: Seq<char>,
    object_type: SecurableType,
) -> Seq<AssignmentView> {
    Seq::new(grants.len(), |i: int| grants[i].tagged(object_name, object_type))
}

/// `mine` extended by what the authority reported for one object. An absent
/// list on either side leaves `mine` as it is.
pub open spec fn merged(
    mine: Option<Seq<AssignmentView>>,
    reported: Option<Seq<AssignmentView>>,
    object_name: Seq<char>,
    object_type: SecurableType,
) -> Option<Seq<AssignmentView>> {
    match (mine, reported) {
        (Some(m), Some(r)) => Some(m + tag_all(r, object_name, object_type)),
        _ => mine,
    }
}

/// Whether some grant of `grants` holds one of the privileges in `allow`.
pub open spec fn grants_any(grants: Seq<AssignmentView>, allow: Seq<Seq<char>>) -> bool {
    exists|i: int| 0 <= i < grants.len() && (#[trigger] grants[i]).holds_any(allow)
}

/// Privileges that let a principal read: full select, or everything.
pub open spec fn read_privileges() -> Seq<Seq<char>> {
    seq!["SELECT"@, "ALL_PRIVILEGES"@]
}

/// Privileges that let a principal write: modify, or everything.
pub open spec fn write_privileges() -> Seq<Seq<char>> {
    seq!["MODIFY"@, "ALL_PRIVILEGES"@]
}

/// Reading is allowed by a grant exactly if the grant holds the full-select
/// privilege or all privileges; writing, if it holds the modify privilege or
/// all privileges.
pub proof fn lemma_read_and_write_classes(grant: AssignmentView)
    ensures
        grant.holds_any(read_privileges()) <==> grant.privileges is Some && (
            grant.privileges->0.contains("SELECT"@) || grant.privileges->0.contains(
                "ALL_PRIVILEGES"@,
            )),
        grant.holds_any(write_privileges()) <==> grant.privileges is Some && (
            grant.privileges->0.contains("MODIFY"@) || grant.privileges->0.contains(
                "ALL_PRIVILEGES"@,
            )),
{
    if grant.privileges is Some {
        let held = grant.privileges->0;
        let reads = read_privileges();
        let writes = write_privileges();
        assert(reads[0] == "SELECT"@ && reads[1] == "ALL_PRIVILEGES"@);
        assert(writes[0] == "MODIFY"@ && writes[1] == "ALL_PRIVILEGES"@);
        if any_allowed(held, reads) {
            let j = choose|j: int| 0 <= j < held.len() && #[trigger] reads.contains(held[j]);
            assert(held.contains(held[j]));
        }
        if any_allowed(held, writes) {
            let j = choose|j: int| 0 <= j < held.len() && #[trigger] writes.contains(held[j]);
            assert(held.contains(held[j]));
        }
        if held.contains("SELECT"@) || held.contains("ALL_PRIVILEGES"@) {
            let wanted = if held.contains("SELECT"@) {
                "SELECT"@
            } else {
                "ALL_PRIVILEGES"@
            };
            let j = choose|j: int| 0 <= j < held.len() && held[j] == wanted;
            assert(reads.contains(held[j]));
        }
        if held.contains("MODIFY"@) || held.contains("ALL_PRIVILEGES"@) {
            let wanted = if held.contains("MODIFY"@) {
                "MODIFY"@
            } else {
                "ALL_PRIVILEGES"@
            };
            let j = choose|j: int| 0 <= j < held.len() && held[j] == wanted;
            assert(writes.contains(held[j]));
        }
    }
}

/// The privileges a principal holds on an object, as the authority lists them.
#[derive(Debug, Clone)]
pub struct PrivilegeAssignmentsResponse {
    pub privilege_assignments: Option<Vec<PrivilegeAssignment>>,
}

impl DeepView for PrivilegeAssignmentsResponse {
    type V = Option<Seq<AssignmentView>>;

    open spec fn deep_view(&self) -> Option<Seq<AssignmentView>> {
        self.privilege_assignments.deep_view()
    }
}

impl View for PrivilegeAssignmentsResponse {
    type V = Option<Seq<AssignmentView>>;

    open spec fn view(&self) -> Option<Seq<AssignmentView>> {
        self.deep_view()
    }
}

/// Appends the grants of `reported` to `collected`, each tagged with the
/// object they were reported for.
pub fn append_tagged(
    collected: &mut Vec<PrivilegeAssignment>,
    reported: Vec<PrivilegeAssignment>,
    object_name: &str,
    object_type: SecurableType,
)
    ensures
        final(collected).deep_view() == old(collected).deep_view() + tag_all(
            reported.deep_view(),
            object_name@,
            object_type,
        ),
{
    let ghost before = collected.deep_view();
    let ghost incoming = reported.deep_view();
    let ghost target = tag_all(incoming, object_name@, object_type);
    for grant in it: reported
        invariant
            it.seq() == reported@,
            incoming == reported.deep_view(),
            target == tag_all(incoming, object_name@, object_type),
            collected.deep_view() == before + target.take(it.index()),
    {
        let ghost so_far = collected.deep_view();
        let ghost at = it.index();
        let tagged = PrivilegeAssignment {
            object_name: String::from_str(object_name),
            object_type: Some(object_type),
            principal: grant.principal,
            privileges: grant.privileges,
        };
        collected.push(tagged);
        assert(collected.deep_view() =~= so_far.push(target[at]));
    }
}

/// Whether one of the privileges in `held` is among those in `allow`.
pub open spec fn any_allowed(held: Seq<Seq<char>>, allow: Seq<Seq<char>>) -> bool {
    exists|j: int| 0 <= j < held.len() && #[trigger] allow.contains(held[j])
}

/// Whether one of the privileges in `held` is among those in `allow`.
pub fn holds_allowed(held: &Vec<String>, allow: &Vec<String>) -> (found: bool)
    ensures
        found == any_allowed(held.deep_view(), allow.deep_view()),
{
    let mut j: usize = 0;
    while j < held.len()
        invariant
            j <= held.len(),
            forall|a: int|
                0 <= a < j ==> !#[trigger] allow.deep_view().contains(held.deep_view()[a]),
        decreases held.len() - j,
    {
        assert(held.deep_view()[j as int] == held[j as int]@);
        if is_listed(&held[j], allow) {
            return true;
        }
        j += 1;
    }
    false
}

/// Whether `grant` holds one of the privileges in `allow`.
pub fn grant_holds_any(grant: &PrivilegeAssignment, allow: &Vec<String>) -> (held: bool)
    ensures
        held == grant@.holds_any(allow.deep_view()),
{
    match &grant.privileges {
        None => false,
        Some(privileges) => holds_allowed(privileges, allow),
    }
}

/// Whether some grant of `grants` holds one of the privileges in `allow`.
pub fn any_grant_holds(grants: &Vec<PrivilegeAssignment>, allow: &Vec<String>) -> (held: bool)
    ensures
        held == grants_any(grants.deep_view(), allow.deep_view()),
{
    let mut i: usize = 0;
    while i < grants.len()
        invariant
            i <= grants.len(),
            forall|a: int| 0 <= a < i ==> !(#[trigger] grants.deep_view()[a]).holds_any(
                allow.deep_view(),
            ),
        decreases grants.len() - i,
    {
        if grant_holds_any(&grants[i], allow) {
            assert(grants.deep_view()[i as int] == grants[i as int]@);
            return true;
        }
        i += 1;
    }
    false
}

impl PrivilegeAssignmentsResponse {
    /// A response that lists no grants.
    pub fn new() -> (response: Self)
        ensures
            response@ == Some(Seq::<AssignmentView>::empty()),
    {
        let response = PrivilegeAssignmentsResponse { privilege_assignments: Some(Vec::new()) };
        response
    }

    /// Extends this list by the grants of `privilege_assignments`, each
    /// recorded as made on `object_name` of kind `object_type`. Where either
    /// list is absent, nothing changes.
    pub fn add_assignment(
        &mut self,
        privilege_assignments: PrivilegeAssignmentsResponse,
        object_name: &str,
        object_type: SecurableType,
    )
        ensures
            final(self)@ == merged(old(self)@, privilege_assignments@, object_name@, object_type),
    {
        match self.privilege_assignments.take() {
            Some(mut mine) => {
                match privilege_assignments.privilege_assignments {
                    Some(reported) => {
                        append_tagged(&mut mine, reported, object_name, object_type);
                    },
                    None => {},
                }
                self.privilege_assignments = Some(mine);
            },
            None => {},
        }
    }
}

/// Who owns an object, as the authority reports it.
#[derive(Debug, Clone)]
pub struct ObjectOwnerResponse {
    pub full_name: String,
    pub owner: String,
}

/// The identity behind a token, as the authority reports it.
#[derive(Debug, Clone)]
pub struct User {
    pub id: String,
    pub user_name: String,
    pub display_name: String,
    pub active: bool,
}

/// Authentication parameters of the object store, resolved once per session.
#[derive(Debug, Clone)]
pub struct AzureDataLakeGen2Options {
    azure_storage_account_name: String,
    azure_client_id: String,
    azure_client_secret: String,
    azure_tenant_id: String,
}

/// Mathematical value of [`AzureDataLakeGen2Options`].
pub struct StorageOptionsView {
    pub account_name: Seq<char>,
    pub client_id: Seq<char>,
    pub client_secret: Seq<char>,
    pub tenant_id: Seq<char>,
}

impl View for AzureDataLakeGen2Options {
    type V = StorageOptionsView;

    closed spec fn view(&self) -> StorageOptionsView {
        StorageOptionsView {
            account_name: self.azure_storage_account_name@,
            client_id: self.azure_client_id@,
            client_secret: self.azure_client_secret@,
            tenant_id: self.azure_tenant_id@,
        }
    }
}

impl StorageOptionsView {
    /// The four options under the keys by which the object store knows them.
    pub open spec fn entries(self) -> Map<Seq<char>, Seq<char>> {
        Map::<Seq<char>, Seq<char>>::empty().insert(
            "azure_storage_account_name"@,
            self.account_name,
        ).insert("azure_client_id"@, self.client_id).insert(
            "azure_client_secret"@,
            self.client_secret,
        ).insert("azure_tenant_id"@, self.tenant_id)
    }
}

impl AzureDataLakeGen2Options {
    /// Bundles the four parameters.
    pub fn new(
        azure_storage_account_name: String,
        azure_client_id: String,
        azure_client_secret: String,
        azure_tenant_id: String,
    ) -> (options: Self)
        ensures
            options@ == (StorageOptionsView {
                account_name: azure_storage_account_name@,
                client_id: azure_client_id@,
                client_secret: azure_client_secret@,
                tenant_id: azure_tenant_id@,
            }),
    {
        AzureDataLakeGen2Options {
            azure_storage_account_name,
            azure_client_id,
            azure_client_secret,
            azure_tenant_id,
        }
    }

    /// The options as pairs of key and value: account, client, secret,
    /// tenant.
    pub fn entries(&self) -> (pairs: Vec<(String, String)>)
        ensures
            pairs.len() == 4,
            pairs[0].0@ == "azure_storage_account_name"@ && pairs[0].1@ == self@.account_name,
            pairs[1].0@ == "azure_client_id"@ && pairs[1].1@ == self@.client_id,
            pairs[2].0@ == "azure_client_secret"@ && pairs[2].1@ == self@.client_secret,
            pairs[3].0@ == "azure_tenant_id"@ && pairs[3].1@ == self@.tenant_id,
    {
        let mut pairs: Vec<(String, String)> = Vec::new();
        pairs.push(
            (
                String::from_str("azure_storage_account_name"),
                self.azure_storage_account_name.clone(),
            ),
        );
        pairs.push((String::from_str("azure_client_id"), self.azure_client_id.clone()));
        pairs.push((String::from_str("azure_client_secret"), self.azure_client_secret.clone()));
        pairs.push((String::from_str("azure_tenant_id"), self.azure_tenant_id.clone()));
        pairs
    }

    /// The options keyed as the object store expects them.
    pub fn to_hash_map(&self) -> (map: StringHashMap<String>)
        ensures
            map@.dom() == self@.entries().dom(),
            forall|key: Seq<char>| #[trigger]
                map@.dom().contains(key) ==> map@[key]@ == self@.entries()[key],
    {
        let mut map: StringHashMap<String> = StringHashMap::new();
        map.insert(
            String::from_str("azure_storage_account_name"),
            self.azure_storage_account_name.clone(),
        );
        map.insert(String::from_str("azure_client_id"), self.azure_client_id.clone());
        map.insert(String::from_str("azure_client_secret"), self.azure_client_secret.clone());
        map.insert(String::from_str("azure_tenant_id"), self.azure_tenant_id.clone());
        proof {
            lemma_option_keys_differ();
        }
        map
    }
}

/// The four option keys are pairwise different.
pub proof fn lemma_option_keys_differ()
    ensures
        "azure_storage_account_name"@ != "azure_client_id"@,
        "azure_storage_account_name"@ != "azure_client_secret"@,
        "azure_storage_account_name"@ != "azure_tenant_id"@,
        "azure_client_id"@ != "azure_client_secret"@,
        "azure_client_id"@ != "azure_tenant_id"@,
        "azure_client_secret"@ != "azure_tenant_id"@,
{
    reveal_strlit("azure_storage_account_name");
    reveal_strlit("azure_client_id");
    reveal_strlit("azure_client_secret");
    reveal_strlit("azure_tenant_id");
    assert("azure_storage_account_name"@.len() == 26);
    assert("azure_client_id"@.len() == 15);
    assert("azure_client_secret"@.len() == 19);
    assert("azure_tenant_id"@.len() == 15);
    assert("azure_client_id"@[6] != "azure_tenant_id"@[6]);
}

/// What establishing a session yields: the storage credentials, and whether
/// the authority confirmed the principal's identity.
#[derive(Debug, Clone)]
pub struct Session {
    pub storage_options: AzureDataLakeGen2Options,
    pub confirmed: bool,
}

/// Client of the authority's ownership and privilege endpoints.
#[derive(Debug, Clone)]
pub struct Permissions {
    pub api_client: APIClient,
}

impl Permissions {
    /// A client for one workspace, acting under one token.
    pub fn new(workspace_name: String, db_token: String) -> (client: Self)
        ensures
            client.api_client.workspace_name == workspace_name,
            client.api_client.db_token == db_token,
    {
        Permissions { api_client: APIClient { db_token, workspace_name } }
    }

    /// Closes the identity lookup made for `user_name`. `succeeded` says
    /// whether the authority answered with a success status, `user` is the
    /// identity it reported. The credentials are the operator's own and are
    /// issued in every case; `confirmed` tells whether the lookup succeeded
    /// and named the expected user.
    pub fn authenticate_user(
        &self,
        user_name: &str,
        succeeded: bool,
        user: &User,
        storage_options: AzureDataLakeGen2Options,
    ) -> (session: Session)
        ensures
            session.storage_options == storage_options,
            session.confirmed == (succeeded && user.user_name@ == user_name@),
    {
        let confirmed = succeeded && same_text(user.user_name.as_str(), user_name);
        Session { storage_options, confirmed }
    }
}

} // verus!
