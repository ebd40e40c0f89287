//! Who may do what: the attributes of a request and the answer to it.
use vstd::prelude::*;
use crate::error::Error;

verus! {

/// What an authorizer is asked about.
#[derive(Debug)]
pub struct RequestAttributes {
    pub verb: String,
    pub resource: String,
    pub api_group: String,
    pub namespace: Option<String>,
    pub name: Option<String>,
    pub subresource: Option<String>,
}

/// The content of [`RequestAttributes`].
pub struct AttributesView {
    pub verb: Seq<char>,
    pub resource: Seq<char>,
    pub api_group: Seq<char>,
    pub namespace: Option<Seq<char>>,
    pub name: Option<Seq<char>>,
    pub subresource: Option<Seq<char>>,
}

impl View for RequestAttributes {
    type V = AttributesView;

    open spec fn view(&self) -> AttributesView {
        AttributesView {
            verb: self.verb@,
            resource: self.resource@,
            api_group: self.api_group@,
            namespace: crate::text::opt_text(self.namespace),
            name: crate::text::opt_text(self.name),
            subresource: crate::text::opt_text(self.subresource),
        }
    }
}

/// The text of an optional reference.
pub open spec fn opt_str(s: Option<&str>) -> Option<Seq<char>> {
    match s {
        Some(t) => Some(t@),
        None => None,
    }
}

/// A copy of an optional reference.
pub fn own(s: Option<&str>) -> (r: Option<String>)
    ensures
        crate::text::opt_text(r) == opt_str(s),
{
    match s {
        Some(t) => Some(t.to_owned()),
        None => None,
    }
}

/// The attributes of a request on a resource.
pub fn attributes(
    verb: &str,
    resource: &str,
    api_group: &str,
    namespace: Option<&str>,
    name: Option<&str>,
    subresource: Option<&str>,
) -> (r: RequestAttributes)
    ensures
        r@ == (AttributesView {
            verb: verb@,
            resource: resource@,
            api_group: api_group@,
            namespace: opt_str(namespace),
            name: opt_str(name),
            subresource: opt_str(subresource),
        }),
{
    RequestAttributes {
        verb: verb.to_owned(),
        resource: resource.to_owned(),
        api_group: api_group.to_owned(),
        namespace: own(namespace),
        name: own(name),
        subresource: own(subresource),
    }
}

/// An authorizer's answer.
pub enum Decision {
    Allow,
    Deny(String),
}

/// What a denial turns into: the request is forbidden, for the reason given.
pub open spec fn verdict(decision: Decision) -> Result<(), Error> {
    match decision {
        Decision::Allow => Ok(()),
        Decision::Deny(reason) => Err(Error::Forbidden(reason)),
    }
}

/// Turns an authorizer's answer into a result.
pub fn require_allowed(decision: Decision) -> (r: Result<(), Error>)
    ensures
        r == verdict(decision),
{
    match decision {
        Decision::Allow => Ok(()),
        Decision::Deny(reason) => Err(Error::Forbidden(reason)),
    }
}

} // verus!
