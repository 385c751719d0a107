use catalog_gate::permissions::{
    ObjectOwnerResponse, Permissions, PrivilegeAssignment, PrivilegeAssignmentsResponse,
};
use catalog_gate::resolver::{Ask, PermissionCheck, Query, Reply, Stage};
use catalog_gate::securable::SecurableType;

struct Authority {
    owners: Vec<(&'static str, &'static str)>,
    grants: Vec<(&'static str, Vec<&'static str>)>,
    unreachable: Vec<&'static str>,
}

fn grant(privileges: &[&str]) -> PrivilegeAssignment {
    PrivilegeAssignment {
        object_name: String::new(),
        object_type: None,
        principal: Some(String::from("someone")),
        privileges: Some(privileges.iter().map(|p| String::from(*p)).collect()),
    }
}

impl Authority {
    fn answer(&self, query: &Query) -> Reply {
        if self.unreachable.iter().any(|name| *name == query.full_name) {
            return Reply::Failed;
        }
        match query.ask {
            Ask::Owner => {
                let owner = self
                    .owners
                    .iter()
                    .find(|(name, _)| *name == query.full_name)
                    .map(|(_, owner)| *owner)
                    .unwrap_or("nobody");
                Reply::Owner(ObjectOwnerResponse {
                    full_name: query.full_name.clone(),
                    owner: String::from(owner),
                })
            }
            Ask::Grants => {
                let found = self.grants.iter().find(|(name, _)| *name == query.full_name);
                Reply::Grants(PrivilegeAssignmentsResponse {
                    privilege_assignments: found.map(|(_, privileges)| vec![grant(privileges)]),
                })
            }
        }
    }
}

fn client() -> Permissions {
    Permissions::new(String::from("ws"), String::from("tok"))
}

fn run(authority: &Authority, mut check: PermissionCheck) -> (PermissionCheck, Vec<String>) {
    let permissions = client();
    let mut asked = Vec::new();
    while let Some(query) = permissions.next_query(&check) {
        asked.push(query.url.clone());
        check = check.step(authority.answer(&query));
    }
    (check, asked)
}

fn hierarchy() -> Authority {
    Authority {
        owners: vec![("c1", "alice"), ("c1.s1", "bob"), ("c1.s1.t1", "erin")],
        grants: vec![("c1.s1.t1", vec!["SELECT"])],
        unreachable: vec![],
    }
}

const BASE: &str = "https://ws/api/2.1/unity-catalog/";

#[test]
fn table_owner_is_allowed_after_one_question() {
    let (check, asked) = run(&hierarchy(), client().can_read("c1.s1.t1", "erin"));
    assert_eq!(check.decision(), Some(true));
    assert_eq!(asked, vec![format!("{BASE}tables/c1.s1.t1")]);
}

#[test]
fn schema_owner_is_allowed_without_any_grant() {
    let authority =
        Authority { owners: hierarchy().owners, grants: vec![], unreachable: vec![] };
    let (check, asked) = run(&authority, client().can_read("c1.s1.t1", "bob"));
    assert_eq!(check.decision(), Some(true));
    assert_eq!(asked, vec![format!("{BASE}tables/c1.s1.t1"), format!("{BASE}schemas/c1.s1")]);
    let (check, _) = run(&authority, client().can_write("c1.s1.t1", "bob"));
    assert_eq!(check.decision(), Some(true));
}

#[test]
fn catalog_owner_is_allowed_for_everything_beneath() {
    let (check, asked) = run(&hierarchy(), client().can_write("c1.s1.t1", "alice"));
    assert_eq!(check.decision(), Some(true));
    assert_eq!(
        asked,
        vec![
            format!("{BASE}tables/c1.s1.t1"),
            format!("{BASE}schemas/c1.s1"),
            format!("{BASE}catalogs/c1"),
        ]
    );
}

#[test]
fn explicit_select_allows_reading_but_not_writing() {
    let (check, asked) = run(&hierarchy(), client().can_read("c1.s1.t1", "carol"));
    assert_eq!(check.decision(), Some(true));
    assert_eq!(
        asked,
        vec![
            format!("{BASE}tables/c1.s1.t1"),
            format!("{BASE}schemas/c1.s1"),
            format!("{BASE}catalogs/c1"),
            format!("{BASE}permissions/catalog/c1?principal=carol"),
            format!("{BASE}permissions/schema/c1.s1?principal=carol"),
            format!("{BASE}permissions/table/c1.s1.t1?principal=carol"),
        ]
    );
    let (check, _) = run(&hierarchy(), client().can_write("c1.s1.t1", "carol"));
    assert_eq!(check.decision(), Some(false));
}

#[test]
fn no_owner_and_no_grant_is_a_denial() {
    let authority =
        Authority { owners: hierarchy().owners, grants: vec![], unreachable: vec![] };
    let (check, asked) = run(&authority, client().can_read("c1.s1.t1", "dave"));
    assert_eq!(check.decision(), Some(false));
    assert_eq!(check.stage(), Stage::Decided(false));
    assert_eq!(asked.len(), 6);
}

#[test]
fn grants_of_every_privilege_class() {
    for (privilege, reads, writes) in [
        ("SELECT", true, false),
        ("MODIFY", false, true),
        ("ALL_PRIVILEGES", true, true),
        ("USE_SCHEMA", false, false),
        ("select", false, false),
    ] {
        let authority = Authority {
            owners: vec![],
            grants: vec![("c1.s1.t1", vec!["USE_CATALOG", privilege])],
            unreachable: vec![],
        };
        let (read, _) = run(&authority, client().can_read("c1.s1.t1", "carol"));
        assert_eq!(read.decision(), Some(reads));
        let (write, _) = run(&authority, client().can_write("c1.s1.t1", "carol"));
        assert_eq!(write.decision(), Some(writes));
    }
}

#[test]
fn a_grant_reported_at_an_ancestor_counts() {
    let authority = Authority {
        owners: vec![],
        grants: vec![("c1", vec!["ALL_PRIVILEGES"])],
        unreachable: vec![],
    };
    let (check, _) = run(&authority, client().can_read("c1.s1.t1", "carol"));
    assert_eq!(check.decision(), Some(true));
}

#[test]
fn a_grant_without_privileges_allows_nothing() {
    let mut check = client().can_read("c1", "carol");
    check = check.step(Reply::Owner(ObjectOwnerResponse {
        full_name: String::from("c1"),
        owner: String::from("alice"),
    }));
    let empty = PrivilegeAssignment {
        object_name: String::new(),
        object_type: None,
        principal: Some(String::from("carol")),
        privileges: None,
    };
    check = check.step(Reply::Grants(PrivilegeAssignmentsResponse {
        privilege_assignments: Some(vec![empty]),
    }));
    assert_eq!(check.decision(), Some(false));
}

#[test]
fn shorter_names_ask_fewer_questions() {
    let (check, asked) = run(&hierarchy(), client().can_read("c1.s1", "dave"));
    assert_eq!(check.decision(), Some(false));
    assert_eq!(
        asked,
        vec![
            format!("{BASE}schemas/c1.s1"),
            format!("{BASE}catalogs/c1"),
            format!("{BASE}permissions/catalog/c1?principal=dave"),
            format!("{BASE}permissions/schema/c1.s1?principal=dave"),
        ]
    );
    let (check, asked) = run(&hierarchy(), client().can_read("c1", "alice"));
    assert_eq!(check.decision(), Some(true));
    assert_eq!(asked, vec![format!("{BASE}catalogs/c1")]);
}

#[test]
fn a_failed_request_fails_the_check() {
    let authority = Authority {
        owners: hierarchy().owners,
        grants: vec![],
        unreachable: vec!["c1.s1"],
    };
    let (check, asked) = run(&authority, client().can_read("c1.s1.t1", "dave"));
    assert_eq!(check.stage(), Stage::Failed);
    assert_eq!(check.decision(), None);
    assert_eq!(asked.len(), 2);
}

#[test]
fn a_reply_of_the_wrong_sort_fails_the_check() {
    let check = client().can_read("c1.s1.t1", "dave");
    let check = check.step(Reply::Grants(PrivilegeAssignmentsResponse::new()));
    assert_eq!(check.stage(), Stage::Failed);
    let check = check.step(Reply::Owner(ObjectOwnerResponse {
        full_name: String::from("c1"),
        owner: String::from("dave"),
    }));
    assert_eq!(check.stage(), Stage::Failed);
}

#[test]
fn a_decided_check_ignores_further_replies() {
    let (check, _) = run(&hierarchy(), client().can_read("c1.s1.t1", "erin"));
    let check = check.step(Reply::Failed);
    assert_eq!(check.decision(), Some(true));
    assert!(client().next_query(&check).is_none());
}

#[test]
fn collected_grants_are_tagged_with_their_object() {
    let authority = Authority {
        owners: vec![],
        grants: vec![("c1", vec!["USE_CATALOG"]), ("c1.s1.t1", vec!["SELECT", "MODIFY"])],
        unreachable: vec![],
    };
    let start = client().fetch_permissions(SecurableType::Table, "c1.s1.t1", "carol");
    let (check, asked) = run(&authority, start);
    assert_eq!(check.stage(), Stage::Collected);
    assert_eq!(check.decision(), None);
    assert_eq!(asked.len(), 3);
    let grants = check.into_grants().unwrap().privilege_assignments.unwrap();
    assert_eq!(grants.len(), 2);
    assert_eq!(grants[0].object_name, "c1");
    assert_eq!(grants[0].object_type, Some(SecurableType::Catalog));
    assert_eq!(grants[0].privileges, Some(vec![String::from("USE_CATALOG")]));
    assert_eq!(grants[1].object_name, "c1.s1.t1");
    assert_eq!(grants[1].object_type, Some(SecurableType::Table));
    assert_eq!(grants[1].principal.as_deref(), Some("someone"));
}

#[test]
fn grants_are_handed_out_only_by_a_run_that_collected_them() {
    let start = client().fetch_permissions(SecurableType::Table, "c1.s1.t1", "carol");
    assert!(start.into_grants().is_none());
    let started = client().fetch_permissions(SecurableType::Table, "c1", "carol");
    let failed = started.step(Reply::Failed);
    assert_eq!(failed.stage(), Stage::Failed);
    assert!(failed.into_grants().is_none());
    let (decided, _) = run(&hierarchy(), client().can_read("c1.s1.t1", "carol"));
    assert!(decided.into_grants().is_none());
    let (collected, _) =
        run(&hierarchy(), client().fetch_permissions(SecurableType::Table, "c1", "carol"));
    assert_eq!(collected.into_grants().unwrap().privilege_assignments.map(|g| g.len()), Some(0));
}

#[test]
fn custom_allow_list_and_kind() {
    let authority = Authority {
        owners: vec![],
        grants: vec![("c1.s1.f1", vec!["EXECUTE"])],
        unreachable: vec![],
    };
    let start = client().check_permissions(
        SecurableType::Function,
        "c1.s1.f1",
        "carol",
        vec![String::from("EXECUTE")],
    );
    let (check, asked) = run(&authority, start);
    assert_eq!(check.decision(), Some(true));
    assert_eq!(asked[0], format!("{BASE}functions/c1.s1.f1"));
    assert_eq!(asked[5], format!("{BASE}permissions/function/c1.s1.f1?principal=carol"));
}

#[test]
fn owner_query_names_its_object() {
    let query = client().get_object_owner(SecurableType::Schema, "c1.s1");
    assert_eq!(query.ask, Ask::Owner);
    assert_eq!(query.securable_type, SecurableType::Schema);
    assert_eq!(query.full_name, "c1.s1");
    assert_eq!(query.url, format!("{BASE}schemas/c1.s1"));
}

#[test]
fn add_assignment_retags_and_appends() {
    let mut mine = PrivilegeAssignmentsResponse::new();
    assert_eq!(mine.privilege_assignments.as_ref().map(Vec::len), Some(0));
    let reported = PrivilegeAssignmentsResponse {
        privilege_assignments: Some(vec![grant(&["SELECT"]), grant(&["MODIFY"])]),
    };
    mine.add_assignment(reported, "c1.s1", SecurableType::Schema);
    mine.add_assignment(
        PrivilegeAssignmentsResponse { privilege_assignments: None },
        "c1",
        SecurableType::Catalog,
    );
    let held = mine.privilege_assignments.unwrap();
    assert_eq!(held.len(), 2);
    assert_eq!(held[0].object_name, "c1.s1");
    assert_eq!(held[1].object_type, Some(SecurableType::Schema));
    assert_eq!(held[1].privileges, Some(vec![String::from("MODIFY")]));

    let mut absent = PrivilegeAssignmentsResponse { privilege_assignments: None };
    absent.add_assignment(
        PrivilegeAssignmentsResponse { privilege_assignments: Some(vec![grant(&["SELECT"])]) },
        "c1",
        SecurableType::Catalog,
    );
    assert!(absent.privilege_assignments.is_none());
}
