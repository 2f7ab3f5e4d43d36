//! Views of optional strings and optional string maps.

use vstd::prelude::*;
use crate::string_map::StringMap;

verus! {

/// The characters of an optional string.
pub open spec fn text_view(text: Option<String>) -> Option<Seq<char>> {
    match text {
        Some(t) => Some(t@),
        None => None,
    }
}

/// The contents of an optional string map.
pub open spec fn map_view(map: Option<StringMap>) -> Option<Map<Seq<char>, Seq<char>>> {
    match map {
        Some(m) => Some(m@),
        None => None,
    }
}

/// A copy of an optional string.
pub fn clone_text(text: &Option<String>) -> (copy: Option<String>)
    ensures
        text_view(copy) == text_view(*text),
{
    match text {
        Some(t) => Some(t.clone()),
        None => None,
    }
}

/// A copy of an optional string map.
pub fn clone_map(map: &Option<StringMap>) -> (copy: Option<StringMap>)
    ensures
        map_view(copy) == map_view(*map),
{
    match map {
        Some(m) => Some(m.clone()),
        None => None,
    }
}

} // verus!
