//! Names that requests and servers go by.
use vstd::prelude::*;
use vstd::string::*;

verus! {

/// The number of a room in which two servers meet over a request.
pub type BootstrapRoom = u64;

/// The name of a request.
#[derive(Debug, PartialEq, Eq)]
pub struct RequestId {
    name: String,
}

impl View for RequestId {
    type V = Seq<char>;

    closed spec fn view(&self) -> Seq<char> {
        self.name@
    }
}

impl RequestId {
    /// The request named `name`.
    pub fn from(name: &str) -> (id: Self)
        ensures
            id@ == name@,
    {
        RequestId { name: name.to_owned() }
    }

    /// The name of the request.
    pub fn as_str(&self) -> (name: &str)
        ensures
            name@ == self@,
    {
        self.name.as_str()
    }
}

impl Clone for RequestId {
    fn clone(&self) -> (copy: Self)
        ensures
            copy@ == self@,
    {
        RequestId { name: self.name.clone() }
    }
}

/// What several requests are named.
pub open spec fn names(ids: Seq<RequestId>) -> Seq<Seq<char>> {
    ids.map_values(|id: RequestId| id@)
}

} // verus!
