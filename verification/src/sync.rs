//! The three sync phases, each as a stepped decision machine.
//!
//! The traversal is depth first and strictly sequential: catalogs first,
//! then per included catalog its schemas, then per schema its tables,
//! children never before their parent has been fetched and found
//! includable. The machines own every decision — exclusion filtering,
//! ordering, pacing, persistence and fail-fast error propagation — while
//! the surrounding driver performs the requests and pauses the machines ask
//! for and feeds the results back in. Any fetch failure aborts the whole
//! phase; nothing is skipped and retried.

use vstd::prelude::*;
use crate::mirror::{retained, schema_rows, table_rows, upserted_all, written, MirrorStore};
use crate::model::{Catalog, CatalogResponse, Schema, SchemaResponse, TableResponse};
use crate::policy::{include_catalog, spec_excluded};

verus! {

/// Why a fetch failed: in the transport, or decoding the body.
#[derive(Debug, Clone, Copy, PartialEq, Eq)]
pub enum FetchError {
    /// The request itself failed (network fault or non-success status).
    Transport,
    /// The response body did not match the expected shape.
    Decode,
}

/// Why a sync phase aborted.
#[derive(Debug, Clone, Copy, PartialEq, Eq)]
pub enum SyncError {
    /// A request failed in the transport.
    Transport,
    /// A response body did not decode.
    Decode,
    /// The storage engine rejected a write.
    Persistence,
}

/// The phase error a fetch failure propagates as.
pub open spec fn fetch_failure(e: FetchError) -> SyncError {
    match e {
        FetchError::Transport => SyncError::Transport,
        FetchError::Decode => SyncError::Decode,
    }
}

fn sync_error_of(e: FetchError) -> (r: SyncError)
    ensures
        r == fetch_failure(e),
{
    match e {
        FetchError::Transport => SyncError::Transport,
        FetchError::Decode => SyncError::Decode,
    }
}

/// The catalogs the policy retains, in order.
fn filter_catalogs(records: Vec<Catalog>) -> (kept: Vec<Catalog>)
    ensures
        kept@ == retained(records@),
{
    let ghost all = records@;
    let mut records = records;
    let mut kept: Vec<Catalog> = Vec::new();
    let ghost done: int = 0;
    while records.len() > 0
        invariant
            0 <= done <= all.len(),
            records@ =~= all.skip(done),
            kept@ == retained(all.take(done)),
        decreases records@.len(),
    {
        let c = records.remove(0);
        proof {
            assert(c == all[done]);
            assert(records@ =~= all.skip(done + 1));
            assert(all.take(done + 1).drop_last() =~= all.take(done));
            assert(all.take(done + 1).last() == all[done]);
        }
        if include_catalog(&c) {
            kept.push(c);
            proof {
                assert(kept@ =~= retained(all.take(done)).push(c));
            }
        }
        proof {
            done = done + 1;
        }
    }
    proof {
        assert(all.take(done) =~= all);
    }
    kept
}

/// The catalog phase: one fetch, one write. A fetched collection is
/// persisted through the exclusion-filtering catalog write; a fetch failure
/// aborts the phase with the corresponding error and leaves the store
/// untouched — no rows are written from a failed fetch.
pub fn sync_catalogs(
    store: &mut MirrorStore,
    fetched: Result<CatalogResponse, FetchError>,
) -> (r: Result<(), SyncError>)
    requires
        old(store).wf(),
    ensures
        final(store).wf(),
        match fetched {
            Result::Err(e) => *final(store) == *old(store) && r == Result::<(), SyncError>::Err(
                fetch_failure(e),
            ),
            Result::Ok(resp) => {
                &&& final(store).catalogs@ == upserted_all(
                    old(store).catalogs@,
                    retained(resp.catalogs@),
                )
                &&& final(store).catalog_map() == written(
                    old(store).catalog_map(),
                    retained(resp.catalogs@),
                )
                &&& final(store).schemas@ == old(store).schemas@
                &&& final(store).tables@ == old(store).tables@
                &&& r == Result::<(), SyncError>::Ok(())
            },
        },
{
    match fetched {
        Result::Err(e) => Result::Err(sync_error_of(e)),
        Result::Ok(resp) => {
            store.write_catalogs(resp);
            Result::Ok(())
        },
    }
}

/// Where the schema phase stands.
#[derive(Debug, Clone, Copy, PartialEq, Eq)]
pub enum SchemaPhase {
    /// Awaiting the catalog listing.
    Catalogs,
    /// Awaiting the schema listing of the current catalog.
    Schemas,
    /// Awaiting the end of the pacing pause after the current catalog.
    Pausing,
    /// The phase is over.
    Finished,
}

/// What the schema phase asks its driver to do next.
#[derive(Debug, PartialEq, Eq)]
pub enum SchemaAction {
    /// Fetch the schema listing of the named catalog, with no page cap.
    FetchSchemas(String),
    /// Wait this many milliseconds before the next request.
    Pause(u64),
    /// The phase is complete.
    Done,
}

/// The schema phase: fetch the catalog listing, then for each included
/// catalog fetch and persist its schemas, pausing for the pacing interval
/// after each catalog's write before the next catalog is touched. A schema
/// fetch is only ever requested for a catalog the policy includes.
pub struct SchemaSync {
    /// The included catalogs, in fetch order.
    pub pending: Vec<Catalog>,
    /// The index of the catalog being worked on.
    pub next: usize,
    /// The delay requested between consecutive per-catalog fetches.
    pub pacing_millis: u64,
    /// Where the phase stands.
    pub phase: SchemaPhase,
}

impl SchemaSync {
    /// No excluded catalog is ever pending, and the index stays in range
    /// while work remains.
    pub open spec fn wf(self) -> bool {
        &&& forall|i: int| 0 <= i < self.pending@.len() ==> !spec_excluded(
            #[trigger] self.pending@[i],
        )
        &&& self.next <= self.pending@.len()
        &&& (self.phase == SchemaPhase::Schemas ==> self.next < self.pending@.len())
        &&& (self.phase == SchemaPhase::Pausing ==> self.next < self.pending@.len())
    }

    /// A fresh phase, awaiting the catalog listing.
    pub fn new(pacing_millis: u64) -> (s: Self)
        ensures
            s.wf(),
            s.phase == SchemaPhase::Catalogs,
            s.pending@.len() == 0,
            s.pacing_millis == pacing_millis,
    {
        SchemaSync { pending: Vec::new(), next: 0, pacing_millis, phase: SchemaPhase::Catalogs }
    }

    /// Feed the catalog listing result. On success the machine fixes the
    /// included catalogs and asks for the first schema fetch — an excluded
    /// catalog is never the subject of one. On failure the phase aborts.
    pub fn on_catalogs(&mut self, fetched: Result<CatalogResponse, FetchError>) -> (r: Result<
        SchemaAction,
        SyncError,
    >)
        requires
            old(self).wf(),
            old(self).phase == SchemaPhase::Catalogs,
        ensures
            final(self).wf(),
            final(self).pacing_millis == old(self).pacing_millis,
            match fetched {
                Result::Err(e) => final(self).phase == SchemaPhase::Finished && r == Result::<
                    SchemaAction,
                    SyncError,
                >::Err(fetch_failure(e)),
                Result::Ok(resp) => {
                    &&& final(self).pending@ == retained(resp.catalogs@)
                    &&& if retained(resp.catalogs@).len() == 0 {
                        final(self).phase == SchemaPhase::Finished && r == Result::<
                            SchemaAction,
                            SyncError,
                        >::Ok(SchemaAction::Done)
                    } else {
                        &&& final(self).phase == SchemaPhase::Schemas
                        &&& final(self).next == 0
                        &&& r == Result::<SchemaAction, SyncError>::Ok(
                            SchemaAction::FetchSchemas(retained(resp.catalogs@)[0].name),
                        )
                    }
                },
            },
    {
        match fetched {
            Result::Err(e) => {
                self.phase = SchemaPhase::Finished;
                Result::Err(sync_error_of(e))
            },
            Result::Ok(resp) => {
                let kept = filter_catalogs(resp.catalogs);
                proof {
                    crate::mirror::lemma_retained_not_excluded(resp.catalogs@);
                }
                self.pending = kept;
                self.next = 0;
                if self.pending.len() == 0 {
                    self.phase = SchemaPhase::Finished;
                    Result::Ok(SchemaAction::Done)
                } else {
                    self.phase = SchemaPhase::Schemas;
                    let name = self.pending[0].name.clone();
                    Result::Ok(SchemaAction::FetchSchemas(name))
                }
            },
        }
    }

    /// Feed the schema listing result for the current catalog. On success
    /// its rows are persisted and the driver is asked to pause for the
    /// pacing interval before anything else happens. On failure the phase
    /// aborts and the store is left untouched.
    pub fn on_schemas(
        &mut self,
        store: &mut MirrorStore,
        fetched: Result<SchemaResponse, FetchError>,
    ) -> (r: Result<SchemaAction, SyncError>)
        requires
            old(self).wf(),
            old(self).phase == SchemaPhase::Schemas,
            old(store).wf(),
        ensures
            final(self).wf(),
            final(store).wf(),
            final(self).pending == old(self).pending,
            final(self).next == old(self).next,
            final(self).pacing_millis == old(self).pacing_millis,
            match fetched {
                Result::Err(e) => {
                    &&& *final(store) == *old(store)
                    &&& final(self).phase == SchemaPhase::Finished
                    &&& r == Result::<SchemaAction, SyncError>::Err(fetch_failure(e))
                },
                Result::Ok(resp) => {
                    &&& final(store).schemas@ == upserted_all(
                        old(store).schemas@,
                        schema_rows(resp),
                    )
                    &&& final(store).schema_map() == written(
                        old(store).schema_map(),
                        schema_rows(resp),
                    )
                    &&& final(store).catalogs@ == old(store).catalogs@
                    &&& final(store).tables@ == old(store).tables@
                    &&& final(self).phase == SchemaPhase::Pausing
                    &&& r == Result::<SchemaAction, SyncError>::Ok(
                        SchemaAction::Pause(old(self).pacing_millis),
                    )
                },
            },
    {
        match fetched {
            Result::Err(e) => {
                self.phase = SchemaPhase::Finished;
                Result::Err(sync_error_of(e))
            },
            Result::Ok(resp) => {
                store.write_schemas(resp);
                self.phase = SchemaPhase::Pausing;
                Result::Ok(SchemaAction::Pause(self.pacing_millis))
            },
        }
    }

    /// The pacing pause ended: ask for the next catalog's schema fetch, or
    /// finish when none remains.
    pub fn on_paused(&mut self) -> (r: SchemaAction)
        requires
            old(self).wf(),
            old(self).phase == SchemaPhase::Pausing,
        ensures
            final(self).wf(),
            final(self).pending == old(self).pending,
            final(self).pacing_millis == old(self).pacing_millis,
            final(self).next == old(self).next + 1,
            if old(self).next + 1 < old(self).pending@.len() {
                final(self).phase == SchemaPhase::Schemas && r == SchemaAction::FetchSchemas(
                    old(self).pending@[old(self).next + 1].name,
                )
            } else {
                final(self).phase == SchemaPhase::Finished && r == SchemaAction::Done
            },
    {
        let remaining = self.pending.len();
        self.next = self.next + 1;
        if self.next < remaining {
            self.phase = SchemaPhase::Schemas;
            let name = self.pending[self.next].name.clone();
            SchemaAction::FetchSchemas(name)
        } else {
            self.phase = SchemaPhase::Finished;
            SchemaAction::Done
        }
    }
}

/// Where the table phase stands.
#[derive(Debug, Clone, Copy, PartialEq, Eq)]
pub enum TablePhase {
    /// Awaiting the catalog listing.
    Catalogs,
    /// Awaiting the schema listing of the current catalog.
    Schemas,
    /// Awaiting the table listing of the current schema.
    Tables,
    /// The phase is over.
    Finished,
}

/// What the table phase asks its driver to do next.
#[derive(Debug, PartialEq, Eq)]
pub enum TableAction {
    /// Fetch the schema listing of the named catalog, with no page cap.
    FetchSchemas(String),
    /// Fetch the table listing of (catalog name, schema name), no page cap.
    FetchTables(String, String),
    /// The phase is complete.
    Done,
}

/// The table phase: fetch the catalog listing, then for each included
/// catalog its schemas, then for each schema its tables, persisting each
/// table collection as it arrives. No pacing pause is inserted at this
/// level — only the schema phase paces. Progress is observable as a count
/// of catalogs processed against the total fetched.
pub struct TableSync {
    /// The included catalogs, in fetch order.
    pub pending: Vec<Catalog>,
    /// The index of the catalog being worked on.
    pub cat_next: usize,
    /// The schemas of the current catalog, in fetch order.
    pub schemas: Vec<Schema>,
    /// The index of the schema being worked on.
    pub schema_next: usize,
    /// How many catalogs the listing held, included or not.
    pub total: usize,
    /// How many of them are dealt with so far.
    pub processed: usize,
    /// Where the phase stands.
    pub phase: TablePhase,
}

impl TableSync {
    /// No excluded catalog is ever pending, the indices stay in range while
    /// work remains, and the progress count tracks the traversal.
    pub open spec fn wf(self) -> bool {
        &&& forall|i: int| 0 <= i < self.pending@.len() ==> !spec_excluded(
            #[trigger] self.pending@[i],
        )
        &&& self.cat_next <= self.pending@.len()
        &&& self.pending@.len() <= self.total
        &&& self.processed == self.total - self.pending@.len() + self.cat_next
        &&& (self.phase == TablePhase::Schemas ==> self.cat_next < self.pending@.len())
        &&& (self.phase == TablePhase::Tables ==> self.cat_next < self.pending@.len()
            && self.schema_next < self.schemas@.len())
    }

    /// A fresh phase, awaiting the catalog listing.
    pub fn new() -> (s: Self)
        ensures
            s.wf(),
            s.phase == TablePhase::Catalogs,
            s.total == 0,
            s.processed == 0,
    {
        TableSync {
            pending: Vec::new(),
            cat_next: 0,
            schemas: Vec::new(),
            schema_next: 0,
            total: 0,
            processed: 0,
            phase: TablePhase::Catalogs,
        }
    }

    /// The running count of catalogs processed versus total fetched.
    pub fn progress(&self) -> (r: (usize, usize))
        requires
            self.wf(),
        ensures
            r.0 == self.processed,
            r.1 == self.total,
            r.0 <= r.1,
    {
        (self.processed, self.total)
    }

    /// Move past the current catalog: ask for the next one's schema fetch,
    /// or finish when none remains.
    fn advance_catalog(&mut self) -> (r: TableAction)
        requires
            old(self).wf(),
            old(self).cat_next < old(self).pending@.len(),
        ensures
            final(self).wf(),
            final(self).pending == old(self).pending,
            final(self).schemas == old(self).schemas,
            final(self).schema_next == old(self).schema_next,
            final(self).total == old(self).total,
            final(self).cat_next == old(self).cat_next + 1,
            final(self).processed == old(self).processed + 1,
            if old(self).cat_next + 1 < old(self).pending@.len() {
                final(self).phase == TablePhase::Schemas && r == TableAction::FetchSchemas(
                    old(self).pending@[old(self).cat_next + 1].name,
                )
            } else {
                final(self).phase == TablePhase::Finished && r == TableAction::Done
            },
    {
        self.processed = self.processed + 1;
        self.cat_next = self.cat_next + 1;
        if self.cat_next < self.pending.len() {
            self.phase = TablePhase::Schemas;
            let name = self.pending[self.cat_next].name.clone();
            TableAction::FetchSchemas(name)
        } else {
            self.phase = TablePhase::Finished;
            TableAction::Done
        }
    }

    /// Feed the catalog listing result. On success the machine fixes the
    /// included catalogs and asks for the first schema fetch — an excluded
    /// catalog is never the subject of one. On failure the phase aborts.
    pub fn on_catalogs(&mut self, fetched: Result<CatalogResponse, FetchError>) -> (r: Result<
        TableAction,
        SyncError,
    >)
        requires
            old(self).wf(),
            old(self).phase == TablePhase::Catalogs,
        ensures
            final(self).wf(),
            match fetched {
                Result::Err(e) => final(self).phase == TablePhase::Finished && r == Result::<
                    TableAction,
                    SyncError,
                >::Err(fetch_failure(e)),
                Result::Ok(resp) => {
                    &&& final(self).pending@ == retained(resp.catalogs@)
                    &&& final(self).total == resp.catalogs@.len()
                    &&& if retained(resp.catalogs@).len() == 0 {
                        final(self).phase == TablePhase::Finished && r == Result::<
                            TableAction,
                            SyncError,
                        >::Ok(TableAction::Done)
                    } else {
                        &&& final(self).phase == TablePhase::Schemas
                        &&& final(self).cat_next == 0
                        &&& r == Result::<TableAction, SyncError>::Ok(
                            TableAction::FetchSchemas(retained(resp.catalogs@)[0].name),
                        )
                    }
                },
            },
    {
        match fetched {
            Result::Err(e) => {
                self.phase = TablePhase::Finished;
                Result::Err(sync_error_of(e))
            },
            Result::Ok(resp) => {
                let total = resp.catalogs.len();
                let kept = filter_catalogs(resp.catalogs);
                proof {
                    crate::mirror::lemma_retained_not_excluded(resp.catalogs@);
                    crate::mirror::lemma_retained_len(resp.catalogs@);
                }
                self.total = total;
                self.pending = kept;
                self.cat_next = 0;
                self.processed = total - self.pending.len();
                if self.pending.len() == 0 {
                    self.phase = TablePhase::Finished;
                    Result::Ok(TableAction::Done)
                } else {
                    self.phase = TablePhase::Schemas;
                    let name = self.pending[0].name.clone();
                    Result::Ok(TableAction::FetchSchemas(name))
                }
            },
        }
    }

    /// Feed the schema listing result for the current catalog. On success
    /// the machine asks for the first schema's table fetch, or moves past a
    /// catalog with no schemas. On failure the phase aborts.
    pub fn on_schemas(&mut self, fetched: Result<SchemaResponse, FetchError>) -> (r: Result<
        TableAction,
        SyncError,
    >)
        requires
            old(self).wf(),
            old(self).phase == TablePhase::Schemas,
        ensures
            final(self).wf(),
            final(self).pending == old(self).pending,
            final(self).total == old(self).total,
            match fetched {
                Result::Err(e) => final(self).phase == TablePhase::Finished && r == Result::<
                    TableAction,
                    SyncError,
                >::Err(fetch_failure(e)),
                Result::Ok(resp) => {
                    &&& final(self).schemas@ == schema_rows(resp)
                    &&& if schema_rows(resp).len() == 0 {
                        &&& final(self).cat_next == old(self).cat_next + 1
                        &&& final(self).processed == old(self).processed + 1
                        &&& if old(self).cat_next + 1 < old(self).pending@.len() {
                            final(self).phase == TablePhase::Schemas && r == Result::<
                                TableAction,
                                SyncError,
                            >::Ok(
                                TableAction::FetchSchemas(
                                    old(self).pending@[old(self).cat_next + 1].name,
                                ),
                            )
                        } else {
                            final(self).phase == TablePhase::Finished && r == Result::<
                                TableAction,
                                SyncError,
                            >::Ok(TableAction::Done)
                        }
                    } else {
                        &&& final(self).phase == TablePhase::Tables
                        &&& final(self).cat_next == old(self).cat_next
                        &&& final(self).schema_next == 0
                        &&& r == Result::<TableAction, SyncError>::Ok(
                            TableAction::FetchTables(
                                old(self).pending@[old(self).cat_next as int].name,
                                schema_rows(resp)[0].name,
                            ),
                        )
                    }
                },
            },
    {
        match fetched {
            Result::Err(e) => {
                self.phase = TablePhase::Finished;
                Result::Err(sync_error_of(e))
            },
            Result::Ok(resp) => {
                let ghost expected = schema_rows(resp);
                let rows = match resp.schemas {
                    Some(rows) => rows,
                    None => Vec::new(),
                };
                proof {
                    assert(rows@ =~= expected);
                }
                self.schemas = rows;
                self.schema_next = 0;
                if self.schemas.len() == 0 {
                    Result::Ok(self.advance_catalog())
                } else {
                    self.phase = TablePhase::Tables;
                    let catalog_name = self.pending[self.cat_next].name.clone();
                    let schema_name = self.schemas[0].name.clone();
                    Result::Ok(TableAction::FetchTables(catalog_name, schema_name))
                }
            },
        }
    }

    /// Feed the table listing result for the current schema. On success the
    /// rows are persisted and the machine asks for the next schema's table
    /// fetch, or moves past the catalog when its schemas are done. On
    /// failure the phase aborts and the store is left untouched.
    pub fn on_tables(
        &mut self,
        store: &mut MirrorStore,
        fetched: Result<TableResponse, FetchError>,
    ) -> (r: Result<TableAction, SyncError>)
        requires
            old(self).wf(),
            old(self).phase == TablePhase::Tables,
            old(store).wf(),
        ensures
            final(self).wf(),
            final(store).wf(),
            final(self).pending == old(self).pending,
            final(self).schemas == old(self).schemas,
            final(self).total == old(self).total,
            match fetched {
                Result::Err(e) => {
                    &&& *final(store) == *old(store)
                    &&& final(self).phase == TablePhase::Finished
                    &&& r == Result::<TableAction, SyncError>::Err(fetch_failure(e))
                },
                Result::Ok(resp) => {
                    &&& final(store).tables@ == upserted_all(
                        old(store).tables@,
                        table_rows(resp),
                    )
                    &&& final(store).table_map() == written(
                        old(store).table_map(),
                        table_rows(resp),
                    )
                    &&& final(store).catalogs@ == old(store).catalogs@
                    &&& final(store).schemas@ == old(store).schemas@
                    &&& if old(self).schema_next + 1 < old(self).schemas@.len() {
                        &&& final(self).phase == TablePhase::Tables
                        &&& final(self).cat_next == old(self).cat_next
                        &&& final(self).schema_next == old(self).schema_next + 1
                        &&& r == Result::<TableAction, SyncError>::Ok(
                            TableAction::FetchTables(
                                old(self).pending@[old(self).cat_next as int].name,
                                old(self).schemas@[old(self).schema_next + 1].name,
                            ),
                        )
                    } else {
                        &&& final(self).cat_next == old(self).cat_next + 1
                        &&& final(self).processed == old(self).processed + 1
                        &&& if old(self).cat_next + 1 < old(self).pending@.len() {
                            final(self).phase == TablePhase::Schemas && r == Result::<
                                TableAction,
                                SyncError,
                            >::Ok(
                                TableAction::FetchSchemas(
                                    old(self).pending@[old(self).cat_next + 1].name,
                                ),
                            )
                        } else {
                            final(self).phase == TablePhase::Finished && r == Result::<
                                TableAction,
                                SyncError,
                            >::Ok(TableAction::Done)
                        }
                    }
                },
            },
    {
        match fetched {
            Result::Err(e) => {
                self.phase = TablePhase::Finished;
                Result::Err(sync_error_of(e))
            },
            Result::Ok(resp) => {
                store.write_tables(resp);
                let remaining = self.schemas.len();
                self.schema_next = self.schema_next + 1;
                if self.schema_next < remaining {
                    self.phase = TablePhase::Tables;
                    let catalog_name = self.pending[self.cat_next].name.clone();
                    let schema_name = self.schemas[self.schema_next].name.clone();
                    Result::Ok(TableAction::FetchTables(catalog_name, schema_name))
                } else {
                    self.phase = TablePhase::Schemas;
                    Result::Ok(self.advance_catalog())
                }
            },
        }
    }
}

} // verus!
