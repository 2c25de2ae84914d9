//! Resize-on-demand image storage: format inference from identifiers, target
//! dimensions, the storage key scheme, and the cache-aside fetch decisions.

pub mod format;
pub mod dimensions;
pub mod storage;
pub mod codec;
pub mod service;
