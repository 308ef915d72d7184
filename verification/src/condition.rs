//! Header conditions: a rule matches only if the request carries a header of
//! the configured name (names compared up to ASCII case) and, where a value
//! was configured, that header's value is exactly the configured one.

use crate::message::HttpRequest;
use crate::strutil::{chars_eq_ci, pairs_view, str_eq, str_eq_ci};
use vstd::prelude::*;

verus! {

/// One configured header condition: a required name and an optional exact
/// value; an absent value means that the header's presence suffices.
#[derive(Debug)]
pub struct ConditionHeader {
    pub name: String,
    pub value: Option<String>,
}

/// The value of the first header in `headers` whose name equals `name` up to
/// ASCII case, if any.
pub open spec fn first_header_from(
    headers: Seq<(Seq<char>, Seq<char>)>,
    name: Seq<char>,
    i: int,
) -> Option<Seq<char>>
    decreases headers.len() - i,
{
    if i < 0 || i >= headers.len() {
        None
    } else if chars_eq_ci(headers[i].0, name) {
        Some(headers[i].1)
    } else {
        first_header_from(headers, name, i + 1)
    }
}

/// The value of the first header named `name`, up to ASCII case, if any.
pub open spec fn first_header(headers: Seq<(Seq<char>, Seq<char>)>, name: Seq<char>) -> Option<
    Seq<char>,
> {
    first_header_from(headers, name, 0)
}

/// Whether a header condition holds of a request's headers: the named header
/// is present, and its first value equals the configured one when one was
/// configured.
pub open spec fn condition_matches(
    name: Seq<char>,
    value: Option<Seq<char>>,
    headers: Seq<(Seq<char>, Seq<char>)>,
) -> bool {
    match first_header(headers, name) {
        None => false,
        Some(v) => match value {
            None => true,
            Some(cv) => cv == v,
        },
    }
}

/// The view of a condition's optional configured value.
pub open spec fn opt_str_view(o: Option<String>) -> Option<Seq<char>> {
    match o {
        None => None,
        Some(s) => Some(s@),
    }
}

impl ConditionHeader {
    /// Builds a header condition from a name and an optional exact value.
    pub fn new(name: &str, value: Option<&str>) -> (r: ConditionHeader)
        ensures
            r.name@ == name@,
            opt_str_view(r.value) == match value {
                None => None::<Seq<char>>,
                Some(v) => Some(v@),
            },
    {
        ConditionHeader {
            name: name.to_owned(),
            value: match value {
                None => None,
                Some(v) => Some(v.to_owned()),
            },
        }
    }

    /// Decides whether this condition holds of the request's headers.
    pub fn filter(&self, req: &HttpRequest) -> (r: bool)
        ensures
            r == condition_matches(self.name@, opt_str_view(self.value), pairs_view(req.headers@)),
    {
        let ghost hv = pairs_view(req.headers@);
        let mut i: usize = 0;
        while i < req.headers.len()
            invariant
                i <= req.headers@.len(),
                hv == pairs_view(req.headers@),
                hv.len() == req.headers@.len(),
                first_header_from(hv, self.name@, 0) == first_header_from(hv, self.name@, i as int),
            decreases req.headers@.len() - i,
        {
            assert(hv[i as int] == (req.headers@[i as int].0@, req.headers@[i as int].1@));
            if str_eq_ci(req.headers[i].0.as_str(), self.name.as_str()) {
                return match &self.value {
                    None => true,
                    Some(cv) => str_eq(cv.as_str(), req.headers[i].1.as_str()),
                };
            }
            i += 1;
        }
        false
    }
}

} // verus!
