//! A geo-location lookup service over a database snapshot that is replaced
//! as a whole: textual addresses, the snapshot store, the refresh pipeline's
//! decisions and its weekly schedule, the service's life cycle and the replies
//! it gives.

pub mod address;
pub mod database;
pub mod lifecycle;
pub mod lookup;
pub mod refresh;
pub mod reply;
pub mod schedule;
pub mod snapshot;
