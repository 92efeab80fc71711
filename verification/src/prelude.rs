//! Named re-exports of the chain core's main types.

pub use crate::AppendedData;
pub use crate::InitialSeed;
pub use crate::PoHConfig;
pub use crate::PoHEntry;
pub use crate::PoHUsage;
