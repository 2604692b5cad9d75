//! The list of interfaces a capture can be asked for.

use vstd::prelude::*;

verus! {

/// The pseudo-interface that stands for every interface at once.
pub const ALL_INTERFACES: &'static str = "all";

/// Relies on pnet::datalink::interfaces: the interfaces the platform
/// reports, of which only the names are kept, in the platform's order.
/// What it returns depends on the machine, so nothing is stated of it.
#[verifier::external_body]
fn platform_interface_names() -> (r: Vec<String>) {
    pnet::datalink::interfaces().into_iter().map(|iface| iface.name).collect()
}

/// `names` followed by the single entry "all".
pub fn with_all_entry(names: Vec<String>) -> (r: Vec<String>)
    ensures
        r@.len() == names@.len() + 1,
        r@.subrange(0, names@.len() as int) == names@,
        r@.last()@ == ALL_INTERFACES@,
{
    let mut r = names;
    let ghost before = r@;
    r.push(String::from_str(ALL_INTERFACES));
    assert(r@.subrange(0, before.len() as int) == before);
    r
}

/// The interfaces the platform reports, in its order, then "all" last.
/// Never fails: with no interface at all the result is just `["all"]`.
pub fn get_interfaces() -> (r: Vec<String>)
    ensures
        r@.len() >= 1,
        r@.last()@ == ALL_INTERFACES@,
{
    with_all_entry(platform_interface_names())
}

} // verus!
