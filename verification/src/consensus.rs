//! Block production and acceptance: proof of work, proof of authority,
//! and the hybrid that picks one by the size of a block's transfers.

pub mod module;
pub mod poa;
pub mod pow;
