//! The display that the window is on, as the window's owner publishes it.

use crate::edid;
use crate::edid::Connector;
use crate::text;
use vstd::prelude::*;

verus! {

/// Some connector of the machine has that name, in any case.
pub open spec fn names_one(entries: Seq<Connector>, name: Seq<char>) -> bool {
    exists|i: int| 0 <= i < entries.len() && edid::is_named(#[trigger] entries[i], name)
}

/// Some connector of the machine shows a display with that key.
pub open spec fn shows_one(entries: Seq<Connector>, want: Seq<char>) -> bool {
    exists|i: int| 0 <= i < entries.len() && edid::has_base(#[trigger] entries[i], want)
}

/// What a published value stands for: the connector it names, or the one whose
/// display it names.
pub open spec fn stands_for(
    value: Seq<char>,
    entries: Seq<Connector>,
    name: Option<Seq<char>>,
) -> bool {
    let v = text::trimmed(value);
    if v.len() == 0 {
        name is None
    } else if names_one(entries, v) {
        name == Some(v)
    } else {
        match name {
            Some(n) => edid::found_as(entries, edid::wanted(v), n),
            None => text::trimmed(v).len() == 0 || !shows_one(entries, edid::wanted(v)),
        }
    }
}

/// Turns a published value into a connector name.  The value is the name of a
/// connector, or the `VENDOR_PRODUCT` key of a display.
pub fn resolve_published_connector(value: &str, entries: &Vec<Connector>) -> (name: Option<String>)
    ensures
        stands_for(value@, entries@, text::string_if_any(name)),
{
    let v: Vec<char> = text::trim(&text::chars_of(value));
    if v.len() == 0 {
        return None;
    }
    let v: String = text::string_of(&v);
    if edid::connector_exists(v.as_str(), entries) {
        return Some(v);
    }
    edid::find_connector_by_base(v.as_str(), entries)
}

/// Where the window is, and where the anchor is.
#[derive(Debug)]
pub struct Target {
    /// The last published value.
    pub published: String,
    /// The connector that the anchor and the timings are for.
    pub connector: Option<String>,
}

impl Target {
    /// Nothing was published yet.
    pub fn new(connector: Option<String>) -> (t: Target)
        ensures
            t.published@.len() == 0,
            t.connector == connector,
    {
        Target { published: String::new(), connector }
    }

    /// Follows the published value.  Returns the connector to move the anchor
    /// to, when the value changed to one that stands for another connector
    /// than the present one, in any case.
    pub fn observe(&mut self, published: &str, entries: &Vec<Connector>) -> (moved: Option<String>)
        ensures
            final(self).published@ == published@,
            final(self).connector == old(self).connector,
            published@ == old(self).published@ ==> moved is None,
            published@ != old(self).published@ ==> exists|name: Option<Seq<char>>|
                #![trigger stands_for(published@, entries@, name)]
                stands_for(published@, entries@, name) && text::string_if_any(moved) == (
                match (name, text::string_if_any(old(self).connector)) {
                    (Some(n), Some(c)) if text::same_letters(c, n) => None,
                    _ => name,
                }),
    {
        if text::same_str(published, self.published.as_str()) {
            return None;
        }
        self.published = published.to_owned();
        match resolve_published_connector(published, entries) {
            None => {
                assert(stands_for(published@, entries@, None));
                None
            },
            Some(name) => {
                assert(stands_for(published@, entries@, Some(name@)));
                match &self.connector {
                    Some(c) => if text::same_ignoring_case(c.as_str(), name.as_str()) {
                        None
                    } else {
                        Some(name)
                    },
                    None => Some(name),
                }
            },
        }
    }

    /// The anchor was opened anew for `wanted`.  The connector is the one it
    /// bound to, and the wanted one when it could not be opened.
    pub fn rebound(&mut self, wanted: String, bound: Option<String>)
        ensures
            final(self).published@ == old(self).published@,
            final(self).connector == (match bound {
                Some(b) => Some(b),
                None => Some(wanted),
            }),
    {
        self.connector = match bound {
            Some(b) => Some(b),
            None => Some(wanted),
        };
    }
}

} // verus!
