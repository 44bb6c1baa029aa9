use vstd::prelude::*;
use crate::hex::{PropertyItem, PropertyScope, items_view, spec_parse_props, unpack_properties};

verus! {

/// Decodes a CONNECT property block.
pub fn connect(data: &[u8]) -> (r: Option<(Vec<PropertyItem>, &[u8])>)
    ensures
        r matches Some((v, rest)) ==> spec_parse_props(data@, PropertyScope::Connect) == Some((items_view(v@), rest@)),
        r is None ==> spec_parse_props(data@, PropertyScope::Connect) is None,
{
    unpack_properties(data, PropertyScope::Connect)
}

/// Decodes a CONNACK property block.
pub fn connack(data: &[u8]) -> (r: Option<(Vec<PropertyItem>, &[u8])>)
    ensures
        r matches Some((v, rest)) ==> spec_parse_props(data@, PropertyScope::Connack) == Some((items_view(v@), rest@)),
        r is None ==> spec_parse_props(data@, PropertyScope::Connack) is None,
{
    unpack_properties(data, PropertyScope::Connack)
}

/// Decodes a PUBLISH property block.
pub fn publish(data: &[u8]) -> (r: Option<(Vec<PropertyItem>, &[u8])>)
    ensures
        r matches Some((v, rest)) ==> spec_parse_props(data@, PropertyScope::Publish) == Some((items_view(v@), rest@)),
        r is None ==> spec_parse_props(data@, PropertyScope::Publish) is None,
{
    unpack_properties(data, PropertyScope::Publish)
}

/// Decodes a SUBSCRIBE property block.
pub fn subscribe(data: &[u8]) -> (r: Option<(Vec<PropertyItem>, &[u8])>)
    ensures
        r matches Some((v, rest)) ==> spec_parse_props(data@, PropertyScope::Subscribe) == Some((items_view(v@), rest@)),
        r is None ==> spec_parse_props(data@, PropertyScope::Subscribe) is None,
{
    unpack_properties(data, PropertyScope::Subscribe)
}

/// Decodes a UNSUBSCRIBE property block.
pub fn unsubscribe(data: &[u8]) -> (r: Option<(Vec<PropertyItem>, &[u8])>)
    ensures
        r matches Some((v, rest)) ==> spec_parse_props(data@, PropertyScope::Unsubscribe) == Some((items_view(v@), rest@)),
        r is None ==> spec_parse_props(data@, PropertyScope::Unsubscribe) is None,
{
    unpack_properties(data, PropertyScope::Unsubscribe)
}

/// Decodes a SUBACK property block.
pub fn suback(data: &[u8]) -> (r: Option<(Vec<PropertyItem>, &[u8])>)
    ensures
        r matches Some((v, rest)) ==> spec_parse_props(data@, PropertyScope::PubAndSub) == Some((items_view(v@), rest@)),
        r is None ==> spec_parse_props(data@, PropertyScope::PubAndSub) is None,
{
    unpack_properties(data, PropertyScope::PubAndSub)
}

/// Decodes a UNSUBACK property block.
pub fn unsuback(data: &[u8]) -> (r: Option<(Vec<PropertyItem>, &[u8])>)
    ensures
        r matches Some((v, rest)) ==> spec_parse_props(data@, PropertyScope::PubAndSub) == Some((items_view(v@), rest@)),
        r is None ==> spec_parse_props(data@, PropertyScope::PubAndSub) is None,
{
    unpack_properties(data, PropertyScope::PubAndSub)
}

/// Decodes a PUBACK, PUBREC, PUBREL or PUBCOMP property block.
pub fn pub_and_sub(data: &[u8]) -> (r: Option<(Vec<PropertyItem>, &[u8])>)
    ensures
        r matches Some((v, rest)) ==> spec_parse_props(data@, PropertyScope::PubAndSub) == Some((items_view(v@), rest@)),
        r is None ==> spec_parse_props(data@, PropertyScope::PubAndSub) is None,
{
    unpack_properties(data, PropertyScope::PubAndSub)
}

/// Decodes a DISCONNECT property block.
pub fn disconnect(data: &[u8]) -> (r: Option<(Vec<PropertyItem>, &[u8])>)
    ensures
        r matches Some((v, rest)) ==> spec_parse_props(data@, PropertyScope::Disconnect) == Some((items_view(v@), rest@)),
        r is None ==> spec_parse_props(data@, PropertyScope::Disconnect) is None,
{
    unpack_properties(data, PropertyScope::Disconnect)
}

/// Decodes a AUTH property block.
pub fn auth(data: &[u8]) -> (r: Option<(Vec<PropertyItem>, &[u8])>)
    ensures
        r matches Some((v, rest)) ==> spec_parse_props(data@, PropertyScope::Auth) == Some((items_view(v@), rest@)),
        r is None ==> spec_parse_props(data@, PropertyScope::Auth) is None,
{
    unpack_properties(data, PropertyScope::Auth)
}

/// Decodes a will property block.
pub fn will_properties(data: &[u8]) -> (r: Option<(Vec<PropertyItem>, &[u8])>)
    ensures
        r matches Some((v, rest)) ==> spec_parse_props(data@, PropertyScope::Will) == Some((items_view(v@), rest@)),
        r is None ==> spec_parse_props(data@, PropertyScope::Will) is None,
{
    unpack_properties(data, PropertyScope::Will)
}

} // verus!
