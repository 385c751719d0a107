//! Addresses of the authority's endpoints and the credentials sent with each
//! request. Issuing the request is left to the caller.
use crate::securable::SecurableType;
use crate::text::{decimal, decimal_seq};
use vstd::prelude::*;
use vstd::string::*;

verus! {

/// Workspace endpoint and bearer token shared by every authority call.
#[derive(Debug, Clone)]
pub struct APIClient {
    pub db_token: String,
    pub workspace_name: String,
}

/// Root of the catalog API on a workspace.
pub open spec fn api_root(workspace: Seq<char>) -> Seq<char> {
    "https://"@ + workspace + "/api/2.1/unity-catalog/"@
}

/// Address of the list of all catalogs.
pub open spec fn catalogs_address(workspace: Seq<char>) -> Seq<char> {
    api_root(workspace) + "catalogs"@
}

/// The `&max_results=` suffix of a list address, empty without a limit.
pub open spec fn limit_suffix(max_results: Option<usize>) -> Seq<char> {
    match max_results {
        Some(n) => "&max_results="@ + decimal_seq(n as nat),
        None => Seq::<char>::empty(),
    }
}

/// Address of the list of schemas of one catalog.
pub open spec fn schemas_address(
    workspace: Seq<char>,
    catalog: Seq<char>,
    max_results: Option<usize>,
) -> Seq<char> {
    api_root(workspace) + "schemas?catalog_name="@ + catalog + limit_suffix(max_results)
}

/// Address of the list of tables of one schema.
pub open spec fn tables_address(
    workspace: Seq<char>,
    catalog: Seq<char>,
    schema: Seq<char>,
    max_results: Option<usize>,
) -> Seq<char> {
    api_root(workspace) + "tables?catalog_name="@ + catalog + "&schema_name="@ + schema
        + limit_suffix(max_results)
}

/// Address of one object: its kind in the plural, then its full name. The
/// same address serves the single-object fetch and the ownership query.
pub open spec fn object_address(
    workspace: Seq<char>,
    kind: SecurableType,
    full_name: Seq<char>,
) -> Seq<char> {
    api_root(workspace) + kind.wire_name() + "s/"@ + full_name
}

/// Address of the privilege assignments of `principal` on one object.
pub open spec fn permissions_address(
    workspace: Seq<char>,
    kind: SecurableType,
    full_name: Seq<char>,
    principal: Seq<char>,
) -> Seq<char> {
    api_root(workspace) + "permissions/"@ + kind.wire_name() + "/"@ + full_name + "?principal="@
        + principal
}

/// Address of the identity endpoint.
pub open spec fn identity_address(workspace: Seq<char>) -> Seq<char> {
    "https://"@ + workspace + "/api/2.0/preview/scim/v2/Me"@
}

impl APIClient {
    fn root(&self) -> (url: String)
        ensures
            url@ == api_root(self.workspace_name@),
    {
        let mut url = String::from_str("https://");
        url.append(self.workspace_name.as_str());
        url.append("/api/2.1/unity-catalog/");
        url
    }

    fn append_limit(url: &mut String, max_results: Option<usize>)
        ensures
            final(url)@ == old(url)@ + limit_suffix(max_results),
    {
        match max_results {
            Some(n) => {
                url.append("&max_results=");
                let digits = decimal(n);
                url.append(digits.as_str());
            },
            None => {},
        }
    }

    /// The value of the `Authorization` header.
    pub fn authorization(&self) -> (value: String)
        ensures
            value@ == "Bearer "@ + self.db_token@,
    {
        let mut value = String::from_str("Bearer ");
        value.append(self.db_token.as_str());
        value
    }

    /// Where to list all catalogs.
    pub fn catalogs_url(&self) -> (url: String)
        ensures
            url@ == catalogs_address(self.workspace_name@),
    {
        let mut url = self.root();
        url.append("catalogs");
        url
    }

    /// Where to list the schemas of `catalog_name`.
    pub fn schemas_url(&self, catalog_name: &str, max_results: Option<usize>) -> (url: String)
        ensures
            url@ == schemas_address(self.workspace_name@, catalog_name@, max_results),
    {
        let mut url = self.root();
        url.append("schemas?catalog_name=");
        url.append(catalog_name);
        Self::append_limit(&mut url, max_results);
        url
    }

    /// Where to list the tables of `schema_name` in `catalog_name`.
    pub fn tables_url(&self, catalog_name: &str, schema_name: &str, max_results: Option<usize>) -> (url: String)
        ensures
            url@ == tables_address(self.workspace_name@, catalog_name@, schema_name@, max_results),
    {
        let mut url = self.root();
        url.append("tables?catalog_name=");
        url.append(catalog_name);
        url.append("&schema_name=");
        url.append(schema_name);
        Self::append_limit(&mut url, max_results);
        url
    }

    /// Where to fetch one object, and who owns it.
    pub fn object_url(&self, securable_type: SecurableType, full_name: &str) -> (url: String)
        ensures
            url@ == object_address(self.workspace_name@, securable_type, full_name@),
    {
        let mut url = self.root();
        url.append(securable_type.as_str());
        url.append("s/");
        url.append(full_name);
        url
    }

    /// Where to fetch what `principal` was granted on one object.
    pub fn permissions_url(
        &self,
        securable_type: SecurableType,
        full_name: &str,
        principal: &str,
    ) -> (url: String)
        ensures
            url@ == permissions_address(
                self.workspace_name@,
                securable_type,
                full_name@,
                principal@,
            ),
    {
        let mut url = self.root();
        url.append("permissions/");
        url.append(securable_type.as_str());
        url.append("/");
        url.append(full_name);
        url.append("?principal=");
        url.append(principal);
        url
    }

    /// Where to ask who the bearer of the token is.
    pub fn identity_url(&self) -> (url: String)
        ensures
            url@ == identity_address(self.workspace_name@),
    {
        let mut url = String::from_str("https://");
        url.append(self.workspace_name.as_str());
        url.append("/api/2.0/preview/scim/v2/Me");
        url
    }
}

} // verus!
