use vstd::prelude::*;
use crate::hex::{PropertyItem, PropertyScope, items_view, items_fit, spec_items, spec_props, pack_properties};
use crate::tools::pack_tool::MAX_REMAINING_LENGTH;

verus! {

/// The CONNECT property block of `data`.
pub fn connect(data: &Vec<PropertyItem>) -> (r: Vec<u8>)
    requires
        items_fit(items_view(data@)),
        spec_items(items_view(data@), PropertyScope::Connect).len() <= MAX_REMAINING_LENGTH,
    ensures
        r@ == spec_props(items_view(data@), PropertyScope::Connect),
{
    pack_properties(data, PropertyScope::Connect)
}

/// The CONNACK property block of `data`.
pub fn connack(data: &Vec<PropertyItem>) -> (r: Vec<u8>)
    requires
        items_fit(items_view(data@)),
        spec_items(items_view(data@), PropertyScope::Connack).len() <= MAX_REMAINING_LENGTH,
    ensures
        r@ == spec_props(items_view(data@), PropertyScope::Connack),
{
    pack_properties(data, PropertyScope::Connack)
}

/// The will property block of `data`.
pub fn will_properties(data: &Vec<PropertyItem>) -> (r: Vec<u8>)
    requires
        items_fit(items_view(data@)),
        spec_items(items_view(data@), PropertyScope::Will).len() <= MAX_REMAINING_LENGTH,
    ensures
        r@ == spec_props(items_view(data@), PropertyScope::Will),
{
    pack_properties(data, PropertyScope::Will)
}

} // verus!
