//! Packaging of virtual-tour works for offline viewing: the manifest's asset
//! list, the JSONP encoding of assets, the single-worker job registry and the
//! per-job step policy.
pub mod jsonp;
pub mod work;
pub mod registry;
pub mod pipeline;
pub mod html;
