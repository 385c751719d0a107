use catalog_gate::metastore::Table;
use catalog_gate::permissions::{
    AzureDataLakeGen2Options, ObjectOwnerResponse, Permissions, PrivilegeAssignment,
    PrivilegeAssignmentsResponse,
};
use catalog_gate::reader::{DeltaLakeReader, LoadCommand, LoadEvent};
use catalog_gate::resolver::{Ask, Reply};
use catalog_gate::sync::MetastoreClient;
use polars::prelude::{Column, DataFrame};

fn owner_of(full_name: &str) -> &'static str {
    match full_name {
        "c1" => "alice",
        "c1.s1" => "bob",
        _ => "erin",
    }
}

fn allowed_to_read(principal: &str) -> bool {
    let permissions = Permissions::new(String::from("ws"), String::from("tok"));
    let mut check = permissions.can_read("c1.s1.t1", principal);
    while let Some(query) = permissions.next_query(&check) {
        let reply = match query.ask {
            Ask::Owner => Reply::Owner(ObjectOwnerResponse {
                full_name: query.full_name.clone(),
                owner: String::from(owner_of(&query.full_name)),
            }),
            Ask::Grants => {
                let granted = principal == "carol" && query.full_name == "c1.s1.t1";
                let grants = if granted {
                    vec![PrivilegeAssignment {
                        object_name: String::new(),
                        object_type: None,
                        principal: Some(String::from("carol")),
                        privileges: Some(vec![String::from("SELECT")]),
                    }]
                } else {
                    vec![]
                };
                Reply::Grants(PrivilegeAssignmentsResponse { privilege_assignments: Some(grants) })
            }
        };
        check = check.step(reply);
    }
    check.decision().unwrap()
}

fn the_table() -> Table {
    Table {
        name: String::from("t1"),
        catalog_name: String::from("c1"),
        schema_name: String::from("s1"),
        table_type: String::from("MANAGED"),
        data_source_format: Some(String::from("DELTA")),
        storage_location: Some(String::from("abfss://lake/c1/s1/t1")),
        view_definition: None,
        sql_path: None,
        owner: String::from("erin"),
        comment: None,
        storage_credential_name: None,
        enable_predictive_optimization: None,
        metastore_id: None,
        full_name: String::from("c1.s1.t1"),
        data_access_configuration_id: None,
        created_at: 0,
        created_by: String::from("admin"),
        updated_at: None,
        updated_by: None,
        deleted_at: None,
        table_id: String::from("tid"),
        access_point: None,
        pipeline_id: None,
        browse_only: None,
    }
}

fn materialize(principal: &str) -> (DataFrame, usize) {
    let reader = DeltaLakeReader::new(
        AzureDataLakeGen2Options::new(
            String::from("account"),
            String::from("client"),
            String::from("secret"),
            String::from("tenant"),
        ),
        Permissions::new(String::from("ws"), String::from("tok")),
        MetastoreClient::new(String::from("ws"), String::from("tok"), String::from("sqlite://mirror.db")),
        String::from(principal),
    );
    let rows = DataFrame::new(2, vec![Column::new("id".into(), &[1i64, 2])]).unwrap();
    let mut storage_calls = 0;
    let (mut request, mut command) = reader.read_delta_table_as_polars("c1.s1.t1", false);
    loop {
        let event = match command {
            LoadCommand::Locate { .. } => LoadEvent::Located(the_table()),
            LoadCommand::Authorize { full_name, principal } => {
                assert_eq!(full_name, "c1.s1.t1");
                LoadEvent::Permission(allowed_to_read(&principal))
            }
            LoadCommand::ListFiles { .. } => {
                storage_calls += 1;
                LoadEvent::Listed(vec![String::from("abfss://lake/c1/s1/t1/part-0.parquet")])
            }
            LoadCommand::FetchFile { name } => {
                assert_eq!(name, "part-0.parquet");
                storage_calls += 1;
                LoadEvent::File(Some(rows.clone()))
            }
            LoadCommand::Deliver(result) => return (result.frame, storage_calls),
            _ => panic!("the request went wrong"),
        };
        let next = request.step(event);
        request = next.0;
        command = next.1;
    }
}

#[test]
fn bob_reads_as_owner_of_the_schema() {
    assert!(allowed_to_read("bob"));
    let (frame, storage_calls) = materialize("bob");
    assert_eq!(frame.height(), 2);
    assert_eq!(storage_calls, 2);
}

#[test]
fn carol_reads_by_her_grant_on_the_table() {
    assert!(allowed_to_read("carol"));
    let (frame, _) = materialize("carol");
    assert_eq!(frame.height(), 2);
}

#[test]
fn dave_is_denied_and_sees_nothing() {
    assert!(!allowed_to_read("dave"));
    let (frame, storage_calls) = materialize("dave");
    assert_eq!(frame.height(), 0);
    assert_eq!(frame.width(), 0);
    assert_eq!(storage_calls, 0);
}

#[test]
fn alice_reads_as_owner_of_the_catalog() {
    assert!(allowed_to_read("alice"));
}
