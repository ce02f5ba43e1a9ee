//! The request side of a context.

use vstd::prelude::*;
use crate::pairs::{get_vec, lookup, unique_keys, Pairs};
use crate::parse::{
    header_entries, method_of, parse, parse_http_version, parse_method, parse_path,
    parse_query, query_entries, target_of, version_of,
};
use crate::text::{after, before};
use crate::version::HttpVersion;

verus! {

/// A request as the server read it.
///
/// The headers and the query parameters are parsed when they are first
/// asked for, and kept: each has a cache that is empty until then and is
/// reused from then on.
#[derive(Debug)]
pub struct Request {
    /// The address of the client, with its port.
    pub address: String,
    /// The raw text of the request line and the header lines.
    pub header: String,
    /// The parsed headers, once they have been asked for.
    pub header_store: Option<Pairs>,
    /// The parameters that the matched route bound.
    pub param_store: Pairs,
    /// The parsed query parameters, once they have been asked for.
    pub query_store: Option<Pairs>,
    /// The method of the request line.
    pub method: String,
    /// The target of the request line.
    pub url: String,
    /// The target up to its first `?`.
    pub path: String,
    /// The target after its first `?`.
    pub query: String,
    /// The version of the request line.
    pub http_version: HttpVersion,
}

impl Request {
    /// The headers that a lookup reads: the cache where it is filled, else
    /// what the raw text gives.
    pub open spec fn headers(&self) -> Seq<(Seq<char>, Seq<char>)> {
        match self.header_store {
            Some(cache) => cache@,
            None => header_entries(self.header@),
        }
    }

    /// The query parameters that a lookup reads: the cache where it is
    /// filled, else what the query string gives.
    pub open spec fn query_parameters(&self) -> Seq<(Seq<char>, Seq<char>)> {
        match self.query_store {
            Some(cache) => cache@,
            None => query_entries(self.query@),
        }
    }

    /// Whether this request is `other` but for the route parameters.
    pub open spec fn same_but_parameters(&self, other: Request) -> bool {
        &&& self.address == other.address
        &&& self.header == other.header
        &&& self.header_store == other.header_store
        &&& self.query_store == other.query_store
        &&& self.method == other.method
        &&& self.url == other.url
        &&& self.path == other.path
        &&& self.query == other.query
        &&& self.http_version == other.http_version
    }

    /// The request that `address` sent as the raw text `header`, with empty
    /// caches and no route parameters.
    pub fn new(address: String, header: String) -> (r: Request)
        ensures
            r.address == address,
            r.header == header,
            r.method@ == method_of(header@),
            r.url@ == target_of(header@),
            r.path@ == before(target_of(header@), '?'),
            r.query@ == after(target_of(header@), '?'),
            r.http_version == version_of(header@),
            r.header_store is None,
            r.query_store is None,
            r.param_store@ == Seq::<(Seq<char>, Seq<char>)>::empty(),
    {
        let method = parse_method(header.as_str());
        let (url, path, query) = parse_path(header.as_str());
        let http_version = parse_http_version(header.as_str());
        Request {
            address,
            header,
            header_store: None,
            param_store: Pairs::new(),
            query_store: None,
            method,
            url,
            path,
            query,
            http_version,
        }
    }

    /// The value of the header `key`, in any letter case.
    ///
    /// The first call parses the raw text and fills the cache; later calls
    /// read the cache.
    pub fn header(&mut self, key: &str) -> (r: Option<String>)
        ensures
            final(self).header_store is Some,
            final(self).header_store->0@ == old(self).headers(),
            final(self).headers() == old(self).headers(),
            match r {
                Some(v) => lookup(old(self).headers(), key@) == Some(v@),
                None => lookup(old(self).headers(), key@) is None,
            },
            unique_keys(old(self).headers()),
            final(self).query_store == old(self).query_store,
            final(self).param_store == old(self).param_store,
            final(self).address == old(self).address,
            final(self).header == old(self).header,
            final(self).method == old(self).method,
            final(self).url == old(self).url,
            final(self).path == old(self).path,
            final(self).query == old(self).query,
            final(self).http_version == old(self).http_version,
    {
        if self.header_store.is_none() {
            let parsed = parse(self.header.as_str());
            self.header_store = Some(parsed);
        }
        match &self.header_store {
            Some(store) => {
                store.keys_are_unique();
                get_vec(store, key)
            },
            None => None,
        }
    }

    /// The value of the route parameter `key`, in any letter case; the empty
    /// text where the route bound no such parameter.
    pub fn param(&self, key: &str) -> (r: String)
        ensures
            r@ == match lookup(self.param_store@, key@) {
                Some(v) => v,
                None => Seq::empty(),
            },
    {
        match get_vec(&self.param_store, key) {
            Some(x) => x,
            None => String::new(),
        }
    }

    /// The value of the query parameter `key`, in any letter case.
    ///
    /// The first call parses the query string and fills the cache; later
    /// calls read the cache.
    pub fn query(&mut self, key: &str) -> (r: Option<String>)
        ensures
            final(self).query_store is Some,
            final(self).query_store->0@ == old(self).query_parameters(),
            final(self).query_parameters() == old(self).query_parameters(),
            match r {
                Some(v) => lookup(old(self).query_parameters(), key@) == Some(v@),
                None => lookup(old(self).query_parameters(), key@) is None,
            },
            unique_keys(old(self).query_parameters()),
            final(self).header_store == old(self).header_store,
            final(self).param_store == old(self).param_store,
            final(self).address == old(self).address,
            final(self).header == old(self).header,
            final(self).method == old(self).method,
            final(self).url == old(self).url,
            final(self).path == old(self).path,
            final(self).query == old(self).query,
            final(self).http_version == old(self).http_version,
    {
        if self.query_store.is_none() {
            let parsed = parse_query(self.query.as_str());
            self.query_store = Some(parsed);
        }
        match &self.query_store {
            Some(store) => {
                store.keys_are_unique();
                get_vec(store, key)
            },
            None => None,
        }
    }
}

impl Clone for Request {
    /// A request with the same texts, caches and route parameters.
    fn clone(&self) -> (r: Request)
        ensures
            r.address == self.address,
            r.header == self.header,
            r.headers() == self.headers(),
            r.header_store is Some <==> self.header_store is Some,
            r.param_store@ == self.param_store@,
            r.query_parameters() == self.query_parameters(),
            r.query_store is Some <==> self.query_store is Some,
            r.method == self.method,
            r.url == self.url,
            r.path == self.path,
            r.query == self.query,
            r.http_version == self.http_version,
    {
        let header_store = match &self.header_store {
            Some(store) => Some(store.clone()),
            None => None,
        };
        let query_store = match &self.query_store {
            Some(store) => Some(store.clone()),
            None => None,
        };
        Request {
            address: self.address.clone(),
            header: self.header.clone(),
            header_store,
            param_store: self.param_store.clone(),
            query_store,
            method: self.method.clone(),
            url: self.url.clone(),
            path: self.path.clone(),
            query: self.query.clone(),
            http_version: self.http_version,
        }
    }
}

} // verus!
