//! Glue for the query-serving layer.
//!
//! The serving layer watches block imports so that cached read views can be
//! refreshed.  The services behind these handles live outside this library;
//! here they are opaque markers, and [`GraphQLBlockImporter`] only pairs
//! them up for the serving layer.

use vstd::prelude::*;

verus! {

/// Handle to the block importer service.
#[derive(Clone, Copy, Debug)]
pub struct BlockImporterAdapter {}

/// Handle to the provider of import results at a given height.
#[derive(Clone, Copy, Debug)]
pub struct ImportResultProvider {}

/// The pair of import-side handles the query-serving layer works with.
#[derive(Clone, Copy, Debug)]
pub struct GraphQLBlockImporter {
    pub block_importer_adapter: BlockImporterAdapter,
    pub import_result_provider_adapter: ImportResultProvider,
}

impl GraphQLBlockImporter {
    pub fn new(
        block_importer_adapter: BlockImporterAdapter,
        import_result_provider_adapter: ImportResultProvider,
    ) -> (r: Self)
        ensures
            r.block_importer_adapter == block_importer_adapter,
            r.import_result_provider_adapter == import_result_provider_adapter,
    {
        Self { block_importer_adapter, import_result_provider_adapter }
    }
}

} // verus!
