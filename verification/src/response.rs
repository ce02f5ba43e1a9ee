//! The response side of a context.

use vstd::prelude::*;
use crate::pairs::{del_vec, get_vec, lookup, put, remove, set_vec, unique_keys, Pairs};

verus! {

/// Declares `serde_json::Error`, the error of a failed serialization, as an
/// opaque type: values of it are carried, never looked into.
#[verifier::external_type_specification]
#[verifier::external_body]
pub struct ExJsonError(serde_json::Error);

/// The response that a request is answered with.
#[derive(Debug)]
pub struct Response {
    /// The headers, in the order in which they were set.
    pub header: Pairs,
    /// The body.
    pub body: String,
    /// The status code.
    pub status: usize,
    /// The content type.
    pub content_type: String,
}

impl Response {
    /// The response that every request starts with: status 200, content
    /// type `text/html`, no headers and an empty body.
    pub fn new() -> (r: Response)
        ensures
            r.header@ == Seq::<(Seq<char>, Seq<char>)>::empty(),
            r.body@ == Seq::<char>::empty(),
            r.status == 200,
            r.content_type@ == "text/html"@,
    {
        Response {
            header: Pairs::new(),
            body: String::new(),
            status: 200,
            content_type: "text/html".to_owned(),
        }
    }

    /// Makes the body the JSON text `value` and the content type
    /// `application/json`. Where serializing failed, the body is `{}`.
    pub fn json(&mut self, value: Result<String, serde_json::Error>)
        ensures
            final(self).body@ == match value {
                Ok(s) => s@,
                Err(_) => "{}"@,
            },
            final(self).content_type@ == "application/json"@,
            final(self).status == old(self).status,
            final(self).header@ == old(self).header@,
    {
        match value {
            Ok(s) => {
                self.body = s;
            },
            Err(_) => {
                self.body = "{}".to_owned();
            },
        }
        self.content_type = "application/json".to_owned();
    }

    /// The value of the header `key`, in any letter case.
    pub fn get_header(&self, key: &str) -> (r: Option<String>)
        ensures
            match r {
                Some(v) => lookup(self.header@, key@) == Some(v@),
                None => lookup(self.header@, key@) is None,
            },
            unique_keys(self.header@),
    {
        self.header.keys_are_unique();
        get_vec(&self.header, key)
    }

    /// Sets the header `key` to `value`: an earlier header with the same
    /// key, in any letter case, goes, and the new one is appended.
    pub fn set_header(&mut self, key: &str, value: &str)
        ensures
            final(self).header@ == put(old(self).header@, key@, value@),
            unique_keys(final(self).header@),
            final(self).body == old(self).body,
            final(self).status == old(self).status,
            final(self).content_type == old(self).content_type,
    {
        self.header = set_vec(&self.header, key.to_owned(), value.to_owned());
    }

    /// Deletes the header `key`, in any letter case.
    pub fn del_header(&mut self, key: &str)
        ensures
            final(self).header@ == remove(old(self).header@, key@),
            unique_keys(final(self).header@),
            final(self).body == old(self).body,
            final(self).status == old(self).status,
            final(self).content_type == old(self).content_type,
    {
        self.header = del_vec(&self.header, key);
    }
}

impl Clone for Response {
    /// A response with the same headers, body, status and content type.
    fn clone(&self) -> (r: Response)
        ensures
            r.header@ == self.header@,
            r.body == self.body,
            r.status == self.status,
            r.content_type == self.content_type,
    {
        Response {
            header: self.header.clone(),
            body: self.body.clone(),
            status: self.status,
            content_type: self.content_type.clone(),
        }
    }
}

} // verus!
