use catalog_gate::api_client::APIClient;
use catalog_gate::permissions::{AzureDataLakeGen2Options, Permissions, User};
use catalog_gate::securable::SecurableType;

fn client() -> APIClient {
    APIClient { db_token: String::from("tok"), workspace_name: String::from("ws.example.net") }
}

#[test]
fn list_addresses() {
    let api = client();
    assert_eq!(api.catalogs_url(), "https://ws.example.net/api/2.1/unity-catalog/catalogs");
    assert_eq!(
        api.schemas_url("c1", None),
        "https://ws.example.net/api/2.1/unity-catalog/schemas?catalog_name=c1"
    );
    assert_eq!(
        api.schemas_url("c1", Some(25)),
        "https://ws.example.net/api/2.1/unity-catalog/schemas?catalog_name=c1&max_results=25"
    );
    assert_eq!(
        api.tables_url("c1", "s1", None),
        "https://ws.example.net/api/2.1/unity-catalog/tables?catalog_name=c1&schema_name=s1"
    );
    assert_eq!(
        api.tables_url("c1", "s1", Some(0)),
        "https://ws.example.net/api/2.1/unity-catalog/tables?catalog_name=c1&schema_name=s1&max_results=0"
    );
}

#[test]
fn object_and_permission_addresses() {
    let api = client();
    assert_eq!(
        api.object_url(SecurableType::Table, "c1.s1.t1"),
        "https://ws.example.net/api/2.1/unity-catalog/tables/c1.s1.t1"
    );
    assert_eq!(
        api.object_url(SecurableType::Catalog, "c1"),
        "https://ws.example.net/api/2.1/unity-catalog/catalogs/c1"
    );
    assert_eq!(
        api.permissions_url(SecurableType::Schema, "c1.s1", "bob@example.com"),
        "https://ws.example.net/api/2.1/unity-catalog/permissions/schema/c1.s1?principal=bob@example.com"
    );
    assert_eq!(api.identity_url(), "https://ws.example.net/api/2.0/preview/scim/v2/Me");
    assert_eq!(api.authorization(), "Bearer tok");
}

fn user(name: &str) -> User {
    User {
        id: String::from("1"),
        user_name: String::from(name),
        display_name: String::from("Someone"),
        active: true,
    }
}

fn options() -> AzureDataLakeGen2Options {
    AzureDataLakeGen2Options::new(
        String::from("account"),
        String::from("client"),
        String::from("secret"),
        String::from("tenant"),
    )
}

#[test]
fn credentials_are_issued_whatever_the_lookup_says() {
    let permissions = Permissions::new(String::from("ws"), String::from("tok"));
    assert_eq!(permissions.api_client.workspace_name, "ws");
    assert_eq!(permissions.api_client.db_token, "tok");
    let confirmed = permissions.authenticate_user("alice", true, &user("alice"), options());
    assert!(confirmed.confirmed);
    let wrong_user = permissions.authenticate_user("alice", true, &user("mallory"), options());
    assert!(!wrong_user.confirmed);
    let bad_status = permissions.authenticate_user("alice", false, &user("alice"), options());
    assert!(!bad_status.confirmed);
    for session in [confirmed, wrong_user, bad_status] {
        let map = session.storage_options.to_hash_map();
        assert_eq!(map.get("azure_client_secret").map(String::as_str), Some("secret"));
    }
}

#[test]
fn storage_options_have_four_keys() {
    let map = options().to_hash_map();
    assert_eq!(map.len(), 4);
    assert_eq!(map.get("azure_storage_account_name").map(String::as_str), Some("account"));
    assert_eq!(map.get("azure_client_id").map(String::as_str), Some("client"));
    assert_eq!(map.get("azure_client_secret").map(String::as_str), Some("secret"));
    assert_eq!(map.get("azure_tenant_id").map(String::as_str), Some("tenant"));
    assert!(map.get("azure_storage_account_key").is_none());
}
