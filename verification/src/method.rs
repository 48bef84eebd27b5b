//! The two HTTP methods the exchange accepts.

use vstd::prelude::*;

verus! {

/// HTTP method of a call.
#[derive(Clone, Copy, Debug, PartialEq, Eq, Structural)]
pub enum Method {
    Get,
    Post,
}

impl Method {
    /// The upper-case name that is sent on the wire and signed.
    pub open spec fn text(self) -> Seq<char> {
        match self {
            Method::Get => seq!['G', 'E', 'T'],
            Method::Post => seq!['P', 'O', 'S', 'T'],
        }
    }

    /// Upper-case name of the method.
    pub fn as_str(&self) -> (name: &'static str)
        ensures
            name@ == self.text(),
    {
        match self {
            Method::Get => {
                proof {
                    reveal_strlit("GET");
                }
                assert("GET"@ =~= self.text());
                "GET"
            },
            Method::Post => {
                proof {
                    reveal_strlit("POST");
                }
                assert("POST"@ =~= self.text());
                "POST"
            },
        }
    }
}

} // verus!
