use catalog_mirror::client::{MetastoreClient, DEFAULT_PACING_MILLIS};
use catalog_mirror::mirror::MirrorStore;
use catalog_mirror::model::{Catalog, CatalogResponse, Schema, SchemaResponse, Table, TableResponse};
use catalog_mirror::sync::{
    FetchError, SchemaAction, SchemaSync, SyncError, TableAction, TableSync,
};
use catalog_mirror::text::decimal_string;

fn catalog(name: &str, catalog_type: &str) -> Catalog {
    Catalog {
        name: name.to_string(),
        owner: "owner".to_string(),
        comment: None,
        storage_root: None,
        provider_name: None,
        share_name: None,
        enable_predictive_optimization: None,
        metastore_id: "m1".to_string(),
        created_at: 1,
        created_by: "creator".to_string(),
        updated_at: None,
        updated_by: None,
        catalog_type: catalog_type.to_string(),
        storage_location: None,
        isolation_mode: None,
        connection_name: None,
        full_name: name.to_string(),
        securable_kind: None,
        securable_type: None,
        browse_only: None,
    }
}

fn schema(catalog_name: &str, name: &str) -> Schema {
    Schema {
        name: name.to_string(),
        catalog_name: catalog_name.to_string(),
        owner: "owner".to_string(),
        comment: None,
        storage_root: None,
        enable_predictive_optimization: None,
        metastore_id: "m1".to_string(),
        full_name: format!("{}.{}", catalog_name, name),
        storage_location: None,
        created_at: 1,
        created_by: "creator".to_string(),
        updated_at: None,
        updated_by: None,
        catalog_type: None,
        browse_only: None,
        schema_id: "s1".to_string(),
    }
}

fn table(catalog_name: &str, schema_name: &str, name: &str) -> Table {
    Table {
        name: name.to_string(),
        catalog_name: catalog_name.to_string(),
        schema_name: schema_name.to_string(),
        table_type: "MANAGED".to_string(),
        data_source_format: None,
        storage_location: None,
        view_definition: None,
        sql_path: None,
        owner: "owner".to_string(),
        comment: None,
        storage_credential_name: None,
        enable_predictive_optimization: None,
        metastore_id: None,
        full_name: format!("{}.{}.{}", catalog_name, schema_name, name),
        data_access_configuration_id: None,
        created_at: 1,
        created_by: "creator".to_string(),
        updated_at: None,
        updated_by: None,
        deleted_at: None,
        table_id: "t1".to_string(),
        access_point: None,
        pipeline_id: None,
        browse_only: None,
    }
}

#[test]
fn schema_sync_paces_between_two_included_catalogs() {
    let mut machine = SchemaSync::new(1000);
    let mut store = MirrorStore::new();
    let first = machine
        .on_catalogs(Ok(CatalogResponse {
            catalogs: vec![catalog("a", "MANAGED_CATALOG"), catalog("c", "MANAGED_CATALOG")],
        }))
        .unwrap();
    assert_eq!(first, SchemaAction::FetchSchemas("a".to_string()));
    let second = machine
        .on_schemas(&mut store, Ok(SchemaResponse { schemas: Some(vec![schema("a", "s1")]) }))
        .unwrap();
    assert_eq!(second, SchemaAction::Pause(1000));
    let third = machine.on_paused();
    assert_eq!(third, SchemaAction::FetchSchemas("c".to_string()));
    let fourth = machine
        .on_schemas(&mut store, Ok(SchemaResponse { schemas: Some(vec![schema("c", "s1")]) }))
        .unwrap();
    assert_eq!(fourth, SchemaAction::Pause(1000));
    let fifth = machine.on_paused();
    assert_eq!(fifth, SchemaAction::Done);
    assert_eq!(store.schemas.len(), 2);
}

#[test]
fn schema_sync_never_fetches_an_excluded_catalog() {
    let mut machine = SchemaSync::new(1000);
    let mut store = MirrorStore::new();
    let mut actions: Vec<SchemaAction> = Vec::new();
    let mut action = machine
        .on_catalogs(Ok(CatalogResponse {
            catalogs: vec![
                catalog("a", "MANAGED_CATALOG"),
                catalog("b", "DELTASHARING_CATALOG"),
                catalog("__databricks_internal", "MANAGED_CATALOG"),
            ],
        }))
        .unwrap();
    loop {
        actions.push(match &action {
            SchemaAction::FetchSchemas(name) => SchemaAction::FetchSchemas(name.clone()),
            SchemaAction::Pause(ms) => SchemaAction::Pause(*ms),
            SchemaAction::Done => SchemaAction::Done,
        });
        action = match action {
            SchemaAction::FetchSchemas(_) => machine
                .on_schemas(&mut store, Ok(SchemaResponse { schemas: None }))
                .unwrap(),
            SchemaAction::Pause(_) => machine.on_paused(),
            SchemaAction::Done => break,
        };
    }
    assert_eq!(
        actions,
        vec![
            SchemaAction::FetchSchemas("a".to_string()),
            SchemaAction::Pause(1000),
            SchemaAction::Done,
        ]
    );
}

#[test]
fn schema_sync_fetch_failure_aborts_the_phase() {
    let mut machine = SchemaSync::new(1000);
    let r = machine.on_catalogs(Err(FetchError::Transport));
    assert_eq!(r, Err(SyncError::Transport));
}

#[test]
fn schema_sync_decode_failure_aborts_and_leaves_store_unchanged() {
    let mut machine = SchemaSync::new(1000);
    let mut store = MirrorStore::new();
    let first = machine
        .on_catalogs(Ok(CatalogResponse { catalogs: vec![catalog("a", "MANAGED_CATALOG")] }))
        .unwrap();
    assert_eq!(first, SchemaAction::FetchSchemas("a".to_string()));
    let r = machine.on_schemas(&mut store, Err(FetchError::Decode));
    assert_eq!(r, Err(SyncError::Decode));
    assert!(store.schemas.is_empty());
}

#[test]
fn table_sync_schema_fetch_failure_aborts_the_phase() {
    let mut machine = TableSync::new();
    machine
        .on_catalogs(Ok(CatalogResponse { catalogs: vec![catalog("a", "MANAGED_CATALOG")] }))
        .unwrap();
    let r = machine.on_schemas(Err(FetchError::Transport));
    assert_eq!(r, Err(SyncError::Transport));
}

#[test]
fn table_sync_walks_only_included_catalogs_depth_first() {
    let mut machine = TableSync::new();
    let mut store = MirrorStore::new();
    let first = machine
        .on_catalogs(Ok(CatalogResponse {
            catalogs: vec![catalog("a", "MANAGED_CATALOG"), catalog("b", "DELTASHARING_CATALOG")],
        }))
        .unwrap();
    assert_eq!(first, TableAction::FetchSchemas("a".to_string()));
    assert_eq!(machine.progress(), (1, 2));
    let second = machine
        .on_schemas(Ok(SchemaResponse { schemas: Some(vec![schema("a", "s1"), schema("a", "s2")]) }))
        .unwrap();
    assert_eq!(second, TableAction::FetchTables("a".to_string(), "s1".to_string()));
    let third = machine
        .on_tables(&mut store, Ok(TableResponse { tables: Some(vec![table("a", "s1", "t1")]) }))
        .unwrap();
    assert_eq!(third, TableAction::FetchTables("a".to_string(), "s2".to_string()));
    let fourth = machine.on_tables(&mut store, Ok(TableResponse { tables: None })).unwrap();
    assert_eq!(fourth, TableAction::Done);
    assert_eq!(machine.progress(), (2, 2));
    assert_eq!(store.tables.len(), 1);
    assert_eq!(store.tables[0].full_name, "a.s1.t1");
}

#[test]
fn table_sync_skips_a_catalog_with_no_schemas() {
    let mut machine = TableSync::new();
    let first = machine
        .on_catalogs(Ok(CatalogResponse {
            catalogs: vec![catalog("a", "MANAGED_CATALOG"), catalog("c", "MANAGED_CATALOG")],
        }))
        .unwrap();
    assert_eq!(first, TableAction::FetchSchemas("a".to_string()));
    let second = machine.on_schemas(Ok(SchemaResponse { schemas: None })).unwrap();
    assert_eq!(second, TableAction::FetchSchemas("c".to_string()));
}

#[test]
fn table_sync_with_no_catalogs_finishes_at_once() {
    let mut machine = TableSync::new();
    let r = machine.on_catalogs(Ok(CatalogResponse { catalogs: vec![] })).unwrap();
    assert_eq!(r, TableAction::Done);
    assert_eq!(machine.progress(), (0, 0));
}

#[test]
fn table_sync_table_fetch_failure_aborts_and_leaves_store_unchanged() {
    let mut machine = TableSync::new();
    let mut store = MirrorStore::new();
    machine
        .on_catalogs(Ok(CatalogResponse { catalogs: vec![catalog("a", "MANAGED_CATALOG")] }))
        .unwrap();
    machine
        .on_schemas(Ok(SchemaResponse { schemas: Some(vec![schema("a", "s1")]) }))
        .unwrap();
    let r = machine.on_tables(&mut store, Err(FetchError::Decode));
    assert_eq!(r, Err(SyncError::Decode));
    assert!(store.tables.is_empty());
}

#[test]
fn client_builds_the_catalog_listing_url() {
    let client = MetastoreClient::new("example.cloud.test".to_string());
    assert_eq!(client.pacing_millis, DEFAULT_PACING_MILLIS);
    assert_eq!(
        client.catalogs_url(),
        "https://example.cloud.test/api/2.1/unity-catalog/catalogs"
    );
}

#[test]
fn client_builds_schema_and_table_listing_urls() {
    let client = MetastoreClient::new("example.cloud.test".to_string());
    assert_eq!(
        client.schemas_url(&"sales".to_string(), None),
        "https://example.cloud.test/api/2.1/unity-catalog/schemas?catalog_name=sales"
    );
    assert_eq!(
        client.schemas_url(&"sales".to_string(), Some(25)),
        "https://example.cloud.test/api/2.1/unity-catalog/schemas?catalog_name=sales&max_results=25"
    );
    assert_eq!(
        client.tables_url(&"sales".to_string(), &"s1".to_string(), None),
        "https://example.cloud.test/api/2.1/unity-catalog/tables?catalog_name=sales&schema_name=s1"
    );
    assert_eq!(
        client.tables_url(&"sales".to_string(), &"s1".to_string(), Some(100)),
        "https://example.cloud.test/api/2.1/unity-catalog/tables?catalog_name=sales&schema_name=s1&max_results=100"
    );
    assert_eq!(
        client.table_url(&"sales.s1.t1".to_string()),
        "https://example.cloud.test/api/2.1/unity-catalog/tables/sales.s1.t1"
    );
}

#[test]
fn decimal_rendering_is_exact() {
    assert_eq!(decimal_string(0), "0");
    assert_eq!(decimal_string(7), "7");
    assert_eq!(decimal_string(42), "42");
    assert_eq!(decimal_string(1000), "1000");
    assert_eq!(decimal_string(987654), "987654");
}
