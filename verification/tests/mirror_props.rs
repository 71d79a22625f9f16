use catalog_mirror::mirror::MirrorStore;
use catalog_mirror::model::{Catalog, CatalogResponse, Schema, SchemaResponse, Table, TableResponse};
use catalog_mirror::policy::include_catalog;
use catalog_mirror::sync::{sync_catalogs, FetchError, SyncError};

fn catalog(name: &str, catalog_type: &str, owner: &str) -> Catalog {
    Catalog {
        name: name.to_string(),
        owner: owner.to_string(),
        comment: None,
        storage_root: None,
        provider_name: None,
        share_name: None,
        enable_predictive_optimization: None,
        metastore_id: "m1".to_string(),
        created_at: 1,
        created_by: "creator".to_string(),
        updated_at: None,
        updated_by: None,
        catalog_type: catalog_type.to_string(),
        storage_location: None,
        isolation_mode: None,
        connection_name: None,
        full_name: name.to_string(),
        securable_kind: None,
        securable_type: None,
        browse_only: None,
    }
}

fn schema(catalog_name: &str, name: &str) -> Schema {
    Schema {
        name: name.to_string(),
        catalog_name: catalog_name.to_string(),
        owner: "owner".to_string(),
        comment: None,
        storage_root: None,
        enable_predictive_optimization: None,
        metastore_id: "m1".to_string(),
        full_name: format!("{}.{}", catalog_name, name),
        storage_location: None,
        created_at: 1,
        created_by: "creator".to_string(),
        updated_at: None,
        updated_by: None,
        catalog_type: None,
        browse_only: None,
        schema_id: "s1".to_string(),
    }
}

fn table(catalog_name: &str, schema_name: &str, name: &str, owner: &str) -> Table {
    Table {
        name: name.to_string(),
        catalog_name: catalog_name.to_string(),
        schema_name: schema_name.to_string(),
        table_type: "MANAGED".to_string(),
        data_source_format: None,
        storage_location: None,
        view_definition: None,
        sql_path: None,
        owner: owner.to_string(),
        comment: None,
        storage_credential_name: None,
        enable_predictive_optimization: None,
        metastore_id: None,
        full_name: format!("{}.{}.{}", catalog_name, schema_name, name),
        data_access_configuration_id: None,
        created_at: 1,
        created_by: "creator".to_string(),
        updated_at: None,
        updated_by: None,
        deleted_at: None,
        table_id: "t1".to_string(),
        access_point: None,
        pipeline_id: None,
        browse_only: None,
    }
}

#[test]
fn policy_excludes_sharing_catalogs_and_reserved_names() {
    assert!(!include_catalog(&catalog("shared", "DELTASHARING_CATALOG", "alice")));
    assert!(!include_catalog(&catalog("__databricks_internal", "MANAGED_CATALOG", "alice")));
    assert!(!include_catalog(&catalog("adrian_hive_test", "MANAGED_CATALOG", "alice")));
}

#[test]
fn policy_fails_open_on_unknown_catalog_types() {
    assert!(include_catalog(&catalog("sales", "MANAGED_CATALOG", "alice")));
    assert!(include_catalog(&catalog("sales", "SOME_FUTURE_TYPE", "alice")));
    assert!(include_catalog(&catalog("sales", "", "alice")));
}

#[test]
fn writing_the_same_catalogs_twice_is_idempotent() {
    let mut store = MirrorStore::new();
    let response = || CatalogResponse {
        catalogs: vec![
            catalog("a", "MANAGED_CATALOG", "alice"),
            catalog("b", "MANAGED_CATALOG", "bob"),
        ],
    };
    store.write_catalogs(response());
    let after_once = store.catalogs.clone();
    store.write_catalogs(response());
    assert_eq!(store.catalogs.len(), 2);
    assert_eq!(store.catalogs, after_once);
}

#[test]
fn writing_the_same_schemas_twice_is_idempotent() {
    let mut store = MirrorStore::new();
    let response = || SchemaResponse {
        schemas: Some(vec![schema("c1", "s1"), schema("c1", "s2"), schema("c2", "s1")]),
    };
    store.write_schemas(response());
    let after_once = store.schemas.clone();
    store.write_schemas(response());
    assert_eq!(store.schemas.len(), 3);
    assert_eq!(store.schemas, after_once);
}

#[test]
fn writing_the_same_tables_twice_is_idempotent() {
    let mut store = MirrorStore::new();
    let response = || TableResponse {
        tables: Some(vec![table("c1", "s1", "t1", "alice"), table("c1", "s1", "t2", "bob")]),
    };
    store.write_tables(response());
    let after_once = store.tables.clone();
    store.write_tables(response());
    assert_eq!(store.tables.len(), 2);
    assert_eq!(store.tables, after_once);
}

#[test]
fn table_write_with_colliding_key_overwrites_the_row() {
    let mut store = MirrorStore::new();
    store.write_tables(TableResponse { tables: Some(vec![table("c1", "s1", "t1", "alice")]) });
    store.write_tables(TableResponse { tables: Some(vec![table("c1", "s1", "t1", "bob")]) });
    assert_eq!(store.tables.len(), 1);
    assert_eq!(store.tables[0].owner, "bob");
}

#[test]
fn catalog_write_filters_excluded_catalogs() {
    let mut store = MirrorStore::new();
    store.write_catalogs(CatalogResponse {
        catalogs: vec![
            catalog("a", "MANAGED_CATALOG", "alice"),
            catalog("shared", "DELTASHARING_CATALOG", "alice"),
            catalog("__databricks_internal", "MANAGED_CATALOG", "alice"),
            catalog("adrian_hive_test", "MANAGED_CATALOG", "alice"),
        ],
    });
    assert_eq!(store.catalogs.len(), 1);
    assert_eq!(store.catalogs[0].name, "a");
}

#[test]
fn empty_responses_write_nothing() {
    let mut store = MirrorStore::new();
    store.write_schemas(SchemaResponse { schemas: None });
    store.write_tables(TableResponse { tables: None });
    store.write_catalogs(CatalogResponse { catalogs: vec![] });
    assert!(store.catalogs.is_empty());
    assert!(store.schemas.is_empty());
    assert!(store.tables.is_empty());
}

#[test]
fn sync_catalogs_decode_error_fails_fast_and_writes_nothing() {
    let mut store = MirrorStore::new();
    let r = sync_catalogs(&mut store, Err(FetchError::Decode));
    assert_eq!(r, Err(SyncError::Decode));
    assert!(store.catalogs.is_empty());
}

#[test]
fn sync_catalogs_transport_error_maps_to_transport() {
    let mut store = MirrorStore::new();
    let r = sync_catalogs(&mut store, Err(FetchError::Transport));
    assert_eq!(r, Err(SyncError::Transport));
    assert!(store.catalogs.is_empty());
}

#[test]
fn sync_catalogs_success_persists_the_filtered_collection() {
    let mut store = MirrorStore::new();
    let r = sync_catalogs(
        &mut store,
        Ok(CatalogResponse {
            catalogs: vec![
                catalog("a", "MANAGED_CATALOG", "alice"),
                catalog("shared", "DELTASHARING_CATALOG", "alice"),
            ],
        }),
    );
    assert_eq!(r, Ok(()));
    assert_eq!(store.catalogs.len(), 1);
    assert_eq!(store.catalogs[0].name, "a");
}

#[test]
fn search_catalogs_returns_all_names_without_a_term() {
    let mut store = MirrorStore::new();
    store.write_catalogs(CatalogResponse {
        catalogs: vec![
            catalog("sales", "MANAGED_CATALOG", "alice"),
            catalog("marketing", "MANAGED_CATALOG", "bob"),
        ],
    });
    let names = store.search_catalogs(None);
    assert_eq!(names, vec!["sales".to_string(), "marketing".to_string()]);
}

#[test]
fn search_catalogs_filters_by_substring() {
    let mut store = MirrorStore::new();
    store.write_catalogs(CatalogResponse {
        catalogs: vec![
            catalog("sales", "MANAGED_CATALOG", "alice"),
            catalog("marketing", "MANAGED_CATALOG", "bob"),
            catalog("resales", "MANAGED_CATALOG", "carol"),
        ],
    });
    let names = store.search_catalogs(Some("sales"));
    assert_eq!(names, vec!["sales".to_string(), "resales".to_string()]);
    let none = store.search_catalogs(Some("finance"));
    assert!(none.is_empty());
    let empty_term = store.search_catalogs(Some(""));
    assert_eq!(empty_term.len(), 3);
}
