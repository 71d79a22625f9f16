//! The exclusion policy: which catalogs take part in mirroring.
//!
//! A catalog is excluded when it is a cross-account sharing catalog (its
//! `catalog_type` is the sharing discriminator) or when its name is one of
//! two fixed reserved names (the internal system catalog and a legacy test
//! catalog). Everything else, including unknown future catalog types, is
//! included: the policy fails open so that new kinds of catalog stay
//! visible. Schemas and tables have no policy of their own: children of an
//! excluded catalog are simply never fetched.

use vstd::prelude::*;
use crate::model::Catalog;
use crate::text::str_eq;

verus! {

/// The `catalog_type` discriminator of cross-account sharing catalogs.
pub open spec fn sharing_catalog_type() -> Seq<char> {
    "DELTASHARING_CATALOG"@
}

/// The reserved name of the internal system catalog.
pub open spec fn internal_catalog_name() -> Seq<char> {
    "__databricks_internal"@
}

/// The reserved name of the legacy test catalog.
pub open spec fn legacy_test_catalog_name() -> Seq<char> {
    "adrian_hive_test"@
}

/// Whether the policy excludes `c` from mirroring.
pub open spec fn spec_excluded(c: Catalog) -> bool {
    c.catalog_type@ == sharing_catalog_type() || c.name@ == internal_catalog_name()
        || c.name@ == legacy_test_catalog_name()
}

/// Decides whether `c` takes part in downstream traversal and persistence.
/// Pure and total: it never fails, and unknown catalog types are included.
pub fn include_catalog(c: &Catalog) -> (r: bool)
    ensures
        r == !spec_excluded(*c),
{
    !str_eq(&c.catalog_type, "DELTASHARING_CATALOG") && !str_eq(
        &c.name,
        "__databricks_internal",
    ) && !str_eq(&c.name, "adrian_hive_test")
}

} // verus!
