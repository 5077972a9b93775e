//! Key-value requests and responses of a client for a revisioned key-value
//! store: key ranges, range reads with limits, and deletes with optional
//! capture of the previous values.

mod cast;
pub mod delete;
pub mod error;
pub mod key_range;
pub mod key_value;
pub mod range;

pub use delete::{DeleteRangeRequest, DeleteRangeResponse, EtcdDeleteRequest, EtcdDeleteResponse};
pub use error::KvError;
pub use key_range::KeyRange;
pub use key_value::{EtcdKeyValue, ResponseHeader};
pub use range::{EtcdRangeRequest, EtcdRangeResponse, RangeRequest, RangeResponse};
