//! Filters that a host log pipeline loads and drives through a narrow
//! boundary: decoding of packed versions, conversion of null-terminated and
//! length-delimited byte strings to text, field values resolved through
//! interned handles, and the filters themselves with their factory.
use vstd::prelude::*;

pub mod cfg;
pub mod ffi;
pub mod logmsg;
pub mod filter;
pub mod proxy;
pub mod messages;

pub use cfg::GlobalConfig;
pub use ffi::{
    c_str_length, from_c_buf_to_borrowed_str, from_c_str_to_borrowed_str,
    from_c_str_to_owned_string,
};
pub use filter::{split_list, DummyFilter, FilterImpl, InListFilter, RustFilter, RustFilterWrapper};
pub use logmsg::{LogMessage, NVHandle, ValueRegistry};
pub use messages::Msg;
pub use proxy::{
    create_new_impl, rust_filter_proxy_eval, rust_filter_proxy_free, rust_filter_proxy_init,
    rust_filter_proxy_set_option,
};

verus! {

} // verus!
