use vstd::prelude::*;

use crate::cfg::GlobalConfig;
use crate::ffi::{c_str_text, from_c_str_to_borrowed_str, from_c_str_to_owned_string, valid_c_str};
use crate::filter::{DummyFilter, FilterImpl, InListFilter, RustFilter, RustFilterWrapper};
use crate::logmsg::{interned, LogMessage, ValueRegistry};

verus! {

/// The filter that `create_new_impl` builds for the type name `name`:
/// `r` is `None` exactly when the name is unknown, and the table is then
/// left alone.
pub open spec fn created(
    name: Seq<char>,
    r: Option<Box<RustFilterWrapper>>,
    reg_before: ValueRegistry,
    reg_after: ValueRegistry,
) -> bool {
    if name == "dummy"@ {
        &&& r matches Some(w) && w.filter matches FilterImpl::Dummy(d) && d.value == 1
        &&& reg_after == reg_before
    } else if name == "in_list"@ {
        &&& r matches Some(w) && w.filter matches FilterImpl::InList(f) && f.wf()
            && f.raw_list().len() == 0 && f.members().is_empty() && interned(
            reg_before@,
            reg_after@,
            "PROGRAM"@,
            f.field(),
        )
    } else {
        &&& r is None
        &&& reg_after == reg_before
    }
}

/// Builds a fresh filter of the type named by the null-terminated string
/// `filter_name`; an unknown name gives `None`.
pub fn create_new_impl(filter_name: &[u8], registry: &mut ValueRegistry) -> (r: Option<
    Box<RustFilterWrapper>,
>)
    requires
        valid_c_str(filter_name@),
        old(registry).wf(),
        old(registry)@.len() < u32::MAX,
    ensures
        final(registry).wf(),
        created(c_str_text(filter_name@), r, *old(registry), *final(registry)),
{
    let name = from_c_str_to_borrowed_str(filter_name).to_owned();
    proof {
        reveal_strlit("dummy");
        reveal_strlit("in_list");
        assert("dummy"@.len() == 5);
        assert("in_list"@.len() == 7);
    }
    let filter = if name == "dummy".to_owned() {
        Some(FilterImpl::Dummy(DummyFilter::new()))
    } else if name == "in_list".to_owned() {
        Some(FilterImpl::InList(InListFilter::new(registry)))
    } else {
        None
    };
    match filter {
        Some(filter) => Some(Box::new(RustFilterWrapper { filter: filter })),
        None => None,
    }
}

/// Makes the filter ready for evaluation.
pub fn rust_filter_proxy_init(this: &mut RustFilterWrapper, cfg: &GlobalConfig)
    ensures
        old(this).filter.init_done(&final(this).filter),
{
    this.filter.init(cfg)
}

/// Evaluates a record: 1 when the filter admits it, 0 when it rejects it.
pub fn rust_filter_proxy_eval(this: &RustFilterWrapper, msg: &LogMessage) -> (r: i32)
    ensures
        r == if this.filter.admits(msg) {
            1i32
        } else {
            0i32
        },
{
    if this.filter.eval(msg) {
        1
    } else {
        0
    }
}

/// Releases a filter; releasing none does nothing.
pub fn rust_filter_proxy_free(wrapper: Option<Box<RustFilterWrapper>>) {
}

/// Hands the filter an option whose key and value are null-terminated
/// strings; both are copied before the filter sees them.
pub fn rust_filter_proxy_set_option(
    this: &mut RustFilterWrapper,
    key: &[u8],
    value: &[u8],
    registry: &mut ValueRegistry,
)
    requires
        valid_c_str(key@),
        valid_c_str(value@),
        old(registry).wf(),
        old(registry)@.len() < u32::MAX,
    ensures
        final(registry).wf(),
        old(this).filter.option_taken(
            &final(this).filter,
            c_str_text(key@),
            c_str_text(value@),
            *old(registry),
            *final(registry),
        ),
{
    let k = from_c_str_to_owned_string(key);
    let v = from_c_str_to_owned_string(value);
    this.filter.set_option(k, v, registry);
}

} // verus!
