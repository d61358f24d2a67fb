//! The route table of the read-only presentation layer: each endpoint's path
//! pattern and name, written out as verified functions.

use vstd::prelude::*;

verus! {

/// The endpoints the presentation layer serves.
#[derive(Clone, Copy, Debug, PartialEq, Eq, Structural)]
pub enum Endpoint {
    StaticFile,
    Index,
    About,
}

/// A site section an endpoint may belong to; no endpoint is assigned one.
#[derive(Clone, Copy, Debug, PartialEq, Eq, Structural)]
pub struct Section {}

impl Endpoint {
    /// The route pattern the endpoint is served under.
    pub open spec fn path_spec(self) -> Seq<char> {
        match self {
            Endpoint::StaticFile => "/static/{file_name}"@,
            Endpoint::Index => "/"@,
            Endpoint::About => "/about"@,
        }
    }

    pub fn path(&self) -> (r: &'static str)
        ensures
            r@ == self.path_spec(),
    {
        match self {
            Endpoint::StaticFile => "/static/{file_name}",
            Endpoint::Index => "/",
            Endpoint::About => "/about",
        }
    }

    /// The endpoint's name, as its variant is spelled.
    pub open spec fn name_spec(self) -> Seq<char> {
        match self {
            Endpoint::StaticFile => "StaticFile"@,
            Endpoint::Index => "Index"@,
            Endpoint::About => "About"@,
        }
    }

    pub fn name(&self) -> (r: &'static str)
        ensures
            r@ == self.name_spec(),
    {
        match self {
            Endpoint::StaticFile => "StaticFile",
            Endpoint::Index => "Index",
            Endpoint::About => "About",
        }
    }

    /// Whether the endpoint belongs to the given section; no endpoint is
    /// assigned one.
    pub fn is_section(&self, _section: Section) -> (r: bool)
        ensures
            !r,
    {
        false
    }
}

} // verus!
