//! The client-side configuration and request-URL construction.
//!
//! The remote service is addressed through three listing endpoints (one per
//! tree level) and one single-table endpoint. This module holds the
//! immutable configuration (workspace host, pacing interval) and builds the
//! full request URLs; issuing the requests is the surrounding process's
//! business.

use vstd::prelude::*;
use crate::text::{decimal_digits, decimal_string};

verus! {

/// The fixed delay between consecutive per-catalog schema fetches, in
/// milliseconds.
pub const DEFAULT_PACING_MILLIS: u64 = 1000;

/// The URL of the catalog listing endpoint.
pub open spec fn spec_catalogs_url(host: Seq<char>) -> Seq<char> {
    "https://"@ + host + "/api/2.1/unity-catalog/catalogs"@
}

/// The URL of the schema listing endpoint for one catalog, with an optional
/// page-size cap.
pub open spec fn spec_schemas_url(
    host: Seq<char>,
    catalog_name: Seq<char>,
    max_results: Option<usize>,
) -> Seq<char> {
    let base = "https://"@ + host + "/api/2.1/unity-catalog/schemas?catalog_name="@
        + catalog_name;
    match max_results {
        None => base,
        Some(m) => base + "&max_results="@ + decimal_digits(m as nat),
    }
}

/// The URL of the table listing endpoint for one schema, with an optional
/// page-size cap.
pub open spec fn spec_tables_url(
    host: Seq<char>,
    catalog_name: Seq<char>,
    schema_name: Seq<char>,
    max_results: Option<usize>,
) -> Seq<char> {
    let base = "https://"@ + host + "/api/2.1/unity-catalog/tables?catalog_name="@ + catalog_name
        + "&schema_name="@ + schema_name;
    match max_results {
        None => base,
        Some(m) => base + "&max_results="@ + decimal_digits(m as nat),
    }
}

/// The URL of the single-table endpoint for one fully qualified table name.
pub open spec fn spec_table_url(host: Seq<char>, full_table_name: Seq<char>) -> Seq<char> {
    "https://"@ + host + "/api/2.1/unity-catalog/tables/"@ + full_table_name
}

/// The immutable client configuration: the workspace host the URLs address
/// and the pacing interval handed to the schema phase.
pub struct MetastoreClient {
    pub workspace_name: String,
    pub pacing_millis: u64,
}

impl MetastoreClient {
    /// A client for one workspace, with the default pacing interval.
    pub fn new(workspace_name: String) -> (c: Self)
        ensures
            c.workspace_name == workspace_name,
            c.pacing_millis == DEFAULT_PACING_MILLIS,
    {
        MetastoreClient { workspace_name, pacing_millis: DEFAULT_PACING_MILLIS }
    }

    /// The catalog listing URL for this workspace.
    pub fn catalogs_url(&self) -> (u: String)
        ensures
            u@ == spec_catalogs_url(self.workspace_name@),
    {
        let mut u = String::new();
        u.append("https://");
        u.append(self.workspace_name.as_str());
        u.append("/api/2.1/unity-catalog/catalogs");
        proof {
            assert(u@ =~= spec_catalogs_url(self.workspace_name@));
        }
        u
    }

    /// The schema listing URL for one catalog.
    pub fn schemas_url(&self, catalog_name: &String, max_results: Option<usize>) -> (u: String)
        ensures
            u@ == spec_schemas_url(self.workspace_name@, catalog_name@, max_results),
    {
        let mut u = String::new();
        u.append("https://");
        u.append(self.workspace_name.as_str());
        u.append("/api/2.1/unity-catalog/schemas?catalog_name=");
        u.append(catalog_name.as_str());
        if let Some(m) = max_results {
            u.append("&max_results=");
            let rendered = decimal_string(m);
            u.append(rendered.as_str());
        }
        proof {
            assert(u@ =~= spec_schemas_url(self.workspace_name@, catalog_name@, max_results));
        }
        u
    }

    /// The table listing URL for one schema.
    pub fn tables_url(
        &self,
        catalog_name: &String,
        schema_name: &String,
        max_results: Option<usize>,
    ) -> (u: String)
        ensures
            u@ == spec_tables_url(self.workspace_name@, catalog_name@, schema_name@, max_results),
    {
        let mut u = String::new();
        u.append("https://");
        u.append(self.workspace_name.as_str());
        u.append("/api/2.1/unity-catalog/tables?catalog_name=");
        u.append(catalog_name.as_str());
        u.append("&schema_name=");
        u.append(schema_name.as_str());
        if let Some(m) = max_results {
            u.append("&max_results=");
            let rendered = decimal_string(m);
            u.append(rendered.as_str());
        }
        proof {
            assert(u@ =~= spec_tables_url(
                self.workspace_name@,
                catalog_name@,
                schema_name@,
                max_results,
            ));
        }
        u
    }

    /// The single-table URL for one fully qualified table name.
    pub fn table_url(&self, full_table_name: &String) -> (u: String)
        ensures
            u@ == spec_table_url(self.workspace_name@, full_table_name@),
    {
        let mut u = String::new();
        u.append("https://");
        u.append(self.workspace_name.as_str());
        u.append("/api/2.1/unity-catalog/tables/");
        u.append(full_table_name.as_str());
        proof {
            assert(u@ =~= spec_table_url(self.workspace_name@, full_table_name@));
        }
        u
    }
}

} // verus!
