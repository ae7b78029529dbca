//! Static checks for blockchain-runtime code: storage iteration safety,
//! required documentation sections and extrinsic dispatch conventions.
use vstd::prelude::*;

pub mod text;
pub mod paths;
pub mod diagnostics;
pub mod tree;
pub mod storage_iter_insert;
pub mod docs;
pub mod markup;
pub mod missing_security_doc;
pub mod extrinsics;
pub mod driver;
pub mod benchmarks;
pub mod cli;
pub mod no_panics;

verus! {

} // verus!
