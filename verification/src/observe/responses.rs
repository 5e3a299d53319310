//! Response types for observe domain operations.
//!
//! Definition locations are reported one-indexed:
//! `{"uri":"file:///path.rs","line":42,"column":17}`.

use vstd::prelude::*;

use crate::json::{json_quoted, json_string_literal};
use crate::num::{decimal_digits, format_u64};

verus! {

/// A position in a document (zero-indexed, as in the protocol).
#[derive(Debug, Clone, Copy, PartialEq, Eq, Structural)]
pub struct Position {
    pub line: u32,
    pub character: u32,
}

/// A location: a document and the start of a range in it.
#[derive(Debug)]
pub struct Location {
    pub uri: String,
    pub start: Position,
}

/// A location link: the target document and the start of the target's
/// selection range.
#[derive(Debug)]
pub struct LocationLink {
    pub target_uri: String,
    pub target_selection_start: Position,
}

/// A `textDocument/definition` response.
#[derive(Debug)]
pub enum GotoDefinitionResponse {
    Scalar(Location),
    Array(Vec<Location>),
    Link(Vec<LocationLink>),
}

/// A definition location in the response format.
#[derive(Debug)]
pub struct DefinitionLocation {
    /// The document URI containing the definition.
    pub uri: String,
    /// Line number (1-indexed).
    pub line: u32,
    /// Column number (1-indexed).
    pub column: u32,
}

/// `u32::saturating_add(1)`.
pub open spec fn one_indexed(n: u32) -> u32 {
    if n == u32::MAX {
        u32::MAX
    } else {
        (n + 1) as u32
    }
}

/// The reported location of a location.
pub open spec fn location_fields(l: Location) -> (Seq<char>, u32, u32) {
    (l.uri@, one_indexed(l.start.line), one_indexed(l.start.character))
}

/// The reported location of a location link.
pub open spec fn link_fields(l: LocationLink) -> (Seq<char>, u32, u32) {
    (
        l.target_uri@,
        one_indexed(l.target_selection_start.line),
        one_indexed(l.target_selection_start.character),
    )
}

pub open spec fn definition_fields(d: DefinitionLocation) -> (Seq<char>, u32, u32) {
    (d.uri@, d.line, d.column)
}

/// The locations of a response, in order.
pub open spec fn response_locations(r: GotoDefinitionResponse) -> Seq<(Seq<char>, u32, u32)> {
    match r {
        GotoDefinitionResponse::Scalar(l) => seq![location_fields(l)],
        GotoDefinitionResponse::Array(ls) => ls@.map_values(|l: Location| location_fields(l)),
        GotoDefinitionResponse::Link(ls) => ls@.map_values(|l: LocationLink| link_fields(l)),
    }
}

fn saturating_next(n: u32) -> (r: u32)
    ensures
        r == one_indexed(n),
{
    if n == u32::MAX {
        u32::MAX
    } else {
        n + 1
    }
}

impl DefinitionLocation {
    /// Converts a zero-indexed location to the one-indexed report.
    pub fn from_location(loc: &Location) -> (d: Self)
        ensures
            definition_fields(d) == location_fields(*loc),
    {
        DefinitionLocation {
            uri: loc.uri.clone(),
            line: saturating_next(loc.start.line),
            column: saturating_next(loc.start.character),
        }
    }

    /// Converts a location link (by its selection range) to the one-indexed
    /// report.
    pub fn from_link(link: &LocationLink) -> (d: Self)
        ensures
            definition_fields(d) == link_fields(*link),
    {
        DefinitionLocation {
            uri: link.target_uri.clone(),
            line: saturating_next(link.target_selection_start.line),
            column: saturating_next(link.target_selection_start.character),
        }
    }

    /// The location as a JSON object.
    pub fn to_json(&self) -> (s: String)
        ensures
            s@ == "{\"uri\":"@ + json_quoted(self.uri@) + ",\"line\":"@ + decimal_digits(
                self.line as nat,
            ) + ",\"column\":"@ + decimal_digits(self.column as nat) + "}"@,
    {
        let mut s = String::from_str("{\"uri\":");
        let uri = json_string_literal(self.uri.as_str());
        s.append(uri.as_str());
        s.append(",\"line\":");
        let line = format_u64(self.line as u64);
        s.append(line.as_str());
        s.append(",\"column\":");
        let column = format_u64(self.column as u64);
        s.append(column.as_str());
        s.append("}");
        s
    }
}

/// Extracts definition locations from a definition response: the scalar
/// location, each location of an array, or each link's selection start.
pub fn extract_locations(response: GotoDefinitionResponse) -> (v: Vec<DefinitionLocation>)
    ensures
        v@.map_values(|d: DefinitionLocation| definition_fields(d)) == response_locations(response),
{
    match response {
        GotoDefinitionResponse::Scalar(loc) => {
            let mut v = Vec::new();
            v.push(DefinitionLocation::from_location(&loc));
            assert(v@.map_values(|d: DefinitionLocation| definition_fields(d)) =~= seq![
                location_fields(loc),
            ]);
            v
        },
        GotoDefinitionResponse::Array(locs) => {
            let mut v: Vec<DefinitionLocation> = Vec::new();
            let mut i: usize = 0;
            while i < locs.len()
                invariant
                    i <= locs.len(),
                    v@.len() == i,
                    forall|j: int| 0 <= j < i ==> definition_fields(#[trigger] v@[j]) == location_fields(locs@[j]),
                decreases locs.len() - i,
            {
                v.push(DefinitionLocation::from_location(&locs[i]));
                i = i + 1;
            }
            assert(v@.map_values(|d: DefinitionLocation| definition_fields(d)) =~= locs@.map_values(
                |l: Location| location_fields(l),
            ));
            v
        },
        GotoDefinitionResponse::Link(links) => {
            let mut v: Vec<DefinitionLocation> = Vec::new();
            let mut i: usize = 0;
            while i < links.len()
                invariant
                    i <= links.len(),
                    v@.len() == i,
                    forall|j: int| 0 <= j < i ==> definition_fields(#[trigger] v@[j]) == link_fields(links@[j]),
                decreases links.len() - i,
            {
                v.push(DefinitionLocation::from_link(&links[i]));
                i = i + 1;
            }
            assert(v@.map_values(|d: DefinitionLocation| definition_fields(d)) =~= links@.map_values(
                |l: LocationLink| link_fields(l),
            ));
            v
        },
    }
}

} // verus!
