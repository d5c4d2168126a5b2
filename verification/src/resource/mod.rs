//! The declarative resource model: the catalog of descriptors, the value
//! extractor and the preparation of fetches.

pub mod fetcher;
pub mod registry;

pub use fetcher::{
    extract_items, extract_json_value, extract_param, fetch_resources, finish_fetch, merge_params,
    ExtractionError, FetchError, FetchRequest, FilterView, ResourceFilter,
};
pub use registry::{
    get_all_resource_keys, get_color_for_value, get_color_map, get_registry, get_resource,
    links_resolve,
    ActionDef, CatalogError, ColorDef, ColumnDef, ConfirmConfig, ResourceConfig, ResourceDef,
    SubResourceDef,
};
