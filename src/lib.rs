//! Reply decorators: values that wrap a request-processing unit and set a
//! header on each response it produces, either replacing what the response
//! holds for the name or only filling it in where nothing is held.
pub mod field;
pub mod reply;
pub mod response;

pub use field::{FieldName, FieldValue, HeaderError};
pub use reply::{
    default_header, header, Filter, WithDefaultHeader, WithDefaultHeader_, WithHeader, WithHeader_,
    Wrapped,
};
pub use response::{Response, ResponseView};
