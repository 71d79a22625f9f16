//! Flat records mirrored from the remote metadata tree.
//!
//! Each entity is a flat row with a natural key: a catalog is keyed by its
//! name, a schema by (catalog name, name), a table by (catalog name, schema
//! name, name). Nested upstream fields (properties maps, constraint lists,
//! provisioning info) are dropped at ingestion and do not appear here.

use vstd::prelude::*;

verus! {

/// One catalog of the remote metastore.
#[derive(Debug, Clone, PartialEq, Eq)]
pub struct Catalog {
    pub name: String,
    pub owner: String,
    pub comment: Option<String>,
    pub storage_root: Option<String>,
    pub provider_name: Option<String>,
    pub share_name: Option<String>,
    pub enable_predictive_optimization: Option<String>,
    pub metastore_id: String,
    pub created_at: i64,
    pub created_by: String,
    pub updated_at: Option<i64>,
    pub updated_by: Option<String>,
    pub catalog_type: String,
    pub storage_location: Option<String>,
    pub isolation_mode: Option<String>,
    pub connection_name: Option<String>,
    pub full_name: String,
    pub securable_kind: Option<String>,
    pub securable_type: Option<String>,
    pub browse_only: Option<bool>,
}

/// One schema of a catalog.
#[derive(Debug, Clone, PartialEq, Eq)]
pub struct Schema {
    pub name: String,
    pub catalog_name: String,
    pub owner: String,
    pub comment: Option<String>,
    pub storage_root: Option<String>,
    pub enable_predictive_optimization: Option<String>,
    pub metastore_id: String,
    pub full_name: String,
    pub storage_location: Option<String>,
    pub created_at: i64,
    pub created_by: String,
    pub updated_at: Option<i64>,
    pub updated_by: Option<String>,
    pub catalog_type: Option<String>,
    pub browse_only: Option<bool>,
    pub schema_id: String,
}

/// One table of a schema.
#[derive(Debug, Clone, PartialEq, Eq)]
pub struct Table {
    pub name: String,
    pub catalog_name: String,
    pub schema_name: String,
    pub table_type: String,
    pub data_source_format: Option<String>,
    pub storage_location: Option<String>,
    pub view_definition: Option<String>,
    pub sql_path: Option<String>,
    pub owner: String,
    pub comment: Option<String>,
    pub storage_credential_name: Option<String>,
    pub enable_predictive_optimization: Option<String>,
    pub metastore_id: Option<String>,
    pub full_name: String,
    pub data_access_configuration_id: Option<String>,
    pub created_at: i64,
    pub created_by: String,
    pub updated_at: Option<i64>,
    pub updated_by: Option<String>,
    pub deleted_at: Option<i64>,
    pub table_id: String,
    pub access_point: Option<String>,
    pub pipeline_id: Option<String>,
    pub browse_only: Option<bool>,
}

/// The body of the catalog listing endpoint.
#[derive(Debug, Clone, PartialEq, Eq)]
pub struct CatalogResponse {
    pub catalogs: Vec<Catalog>,
}

/// The body of the schema listing endpoint; the array may be absent.
#[derive(Debug, Clone, PartialEq, Eq)]
pub struct SchemaResponse {
    pub schemas: Option<Vec<Schema>>,
}

/// The body of the table listing endpoint; the array may be absent.
#[derive(Debug, Clone, PartialEq, Eq)]
pub struct TableResponse {
    pub tables: Option<Vec<Table>>,
}

/// A record with a natural key: two rows with equal keys denote the same
/// entity, and a later write fully overwrites an earlier one.
pub trait Keyed: Sized {
    type K;

    /// The record's natural key.
    spec fn key(&self) -> Self::K;

    /// Whether two records denote the same entity.
    fn same_key(&self, other: &Self) -> (r: bool)
        ensures
            r == (self.key() == other.key()),
    ;
}

impl Keyed for Catalog {
    type K = Seq<char>;

    open spec fn key(&self) -> Seq<char> {
        self.name@
    }

    fn same_key(&self, other: &Self) -> (r: bool) {
        self.name == other.name
    }
}

impl Keyed for Schema {
    type K = (Seq<char>, Seq<char>);

    open spec fn key(&self) -> (Seq<char>, Seq<char>) {
        (self.catalog_name@, self.name@)
    }

    fn same_key(&self, other: &Self) -> (r: bool) {
        self.catalog_name == other.catalog_name && self.name == other.name
    }
}

impl Keyed for Table {
    type K = (Seq<char>, Seq<char>, Seq<char>);

    open spec fn key(&self) -> (Seq<char>, Seq<char>, Seq<char>) {
        (self.catalog_name@, self.schema_name@, self.name@)
    }

    fn same_key(&self, other: &Self) -> (r: bool) {
        self.catalog_name == other.catalog_name && self.schema_name == other.schema_name
            && self.name == other.name
    }
}

} // verus!
