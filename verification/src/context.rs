//! The context of one request: what every callback receives and returns.

use vstd::prelude::*;
use crate::pairs::{del_vec, get_vec, lookup, put, remove, set_vec, unique_keys, Pairs};
use crate::parse::{method_of, target_of, version_of};
use crate::request::Request;
use crate::response::Response;
use crate::text::{after, before};

verus! {

/// The state of one request on its way through the callbacks.
///
/// A context has one owner at a time: a callback takes it and gives it
/// back.
#[derive(Debug)]
pub struct Context {
    /// Whether the chain goes on after the callback that is running. It is
    /// false when a callback starts; the callback sets it to let the next
    /// one run.
    pub next: bool,
    /// The scratch state that callbacks hand to each other, in the order
    /// in which it was set.
    pub state: Pairs,
    /// The request.
    pub request: Request,
    /// The response.
    pub response: Response,
}

impl Context {
    /// The state value of `key`, in any letter case.
    pub fn get_state(&self, key: &str) -> (r: Option<String>)
        ensures
            match r {
                Some(v) => lookup(self.state@, key@) == Some(v@),
                None => lookup(self.state@, key@) is None,
            },
            unique_keys(self.state@),
    {
        self.state.keys_are_unique();
        get_vec(&self.state, key)
    }

    /// Sets the state `key` to `value`: an earlier entry with the same key,
    /// in any letter case, goes, and the new one is appended.
    pub fn set_state(&mut self, key: &str, value: &str)
        ensures
            final(self).state@ == put(old(self).state@, key@, value@),
            unique_keys(final(self).state@),
            final(self).next == old(self).next,
            final(self).request == old(self).request,
            final(self).response == old(self).response,
    {
        self.state = set_vec(&self.state, key.to_owned(), value.to_owned());
    }

    /// Deletes the state `key`, in any letter case.
    pub fn del_state(&mut self, key: &str)
        ensures
            final(self).state@ == remove(old(self).state@, key@),
            unique_keys(final(self).state@),
            final(self).next == old(self).next,
            final(self).request == old(self).request,
            final(self).response == old(self).response,
    {
        self.state = del_vec(&self.state, key);
    }
}

impl Clone for Context {
    /// A context with the same flag, state, request and response.
    fn clone(&self) -> (r: Context)
        ensures
            r.next == self.next,
            r.state@ == self.state@,
            r.request.address == self.request.address,
            r.request.header == self.request.header,
            r.request.headers() == self.request.headers(),
            r.request.param_store@ == self.request.param_store@,
            r.request.query_parameters() == self.request.query_parameters(),
            r.request.method == self.request.method,
            r.request.url == self.request.url,
            r.request.path == self.request.path,
            r.request.query == self.request.query,
            r.request.http_version == self.request.http_version,
            r.response.header@ == self.response.header@,
            r.response.body == self.response.body,
            r.response.status == self.response.status,
            r.response.content_type == self.response.content_type,
    {
        Context {
            next: self.next,
            state: self.state.clone(),
            request: self.request.clone(),
            response: self.response.clone(),
        }
    }
}

/// The context that the request of `address` with the raw text `header`
/// starts with: the chain may go on, the state is empty, the request is
/// read from `header`, and the response is the default one.
pub fn default_context(address: String, header: String) -> (r: Context)
    ensures
        r.next,
        r.state@ == Seq::<(Seq<char>, Seq<char>)>::empty(),
        r.request.address == address,
        r.request.header == header,
        r.request.method@ == method_of(header@),
        r.request.url@ == target_of(header@),
        r.request.path@ == before(target_of(header@), '?'),
        r.request.query@ == after(target_of(header@), '?'),
        r.request.http_version == version_of(header@),
        r.request.header_store is None,
        r.request.query_store is None,
        r.request.param_store@ == Seq::<(Seq<char>, Seq<char>)>::empty(),
        r.response.header@ == Seq::<(Seq<char>, Seq<char>)>::empty(),
        r.response.body@ == Seq::<char>::empty(),
        r.response.status == 200,
        r.response.content_type@ == "text/html"@,
{
    Context {
        next: true,
        state: Pairs::new(),
        request: Request::new(address, header),
        response: Response::new(),
    }
}

} // verus!
