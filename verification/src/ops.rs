//! The construction surface: literal, lookup and comparison nodes.

pub use crate::expression::eq;
pub use crate::expression::get;
pub use crate::expression::gt;
pub use crate::value::bool;
pub use crate::value::bool_array;
pub use crate::value::bool_array_val;
pub use crate::value::bool_val;
pub use crate::value::float;
pub use crate::value::float_array;
pub use crate::value::float_array_val;
pub use crate::value::float_val;
pub use crate::value::integer;
pub use crate::value::int_array;
pub use crate::value::int_array_val;
pub use crate::value::int_val;
pub use crate::value::str;
pub use crate::value::str_array;
pub use crate::value::str_array_val;
pub use crate::value::str_val;
