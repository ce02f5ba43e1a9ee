//! The route table: the entries that an application registers before it
//! serves.

use vstd::prelude::*;
use crate::text::{fields, split_fields, Delimiter};

verus! {

/// What routing reads of a registered entry: its patterns and how many
/// callbacks it has.
pub struct Route {
    /// The method pattern; `*` stands for any method.
    pub method: Seq<char>,
    /// The path pattern; `*` stands for any path.
    pub path: Seq<char>,
    /// The number of callbacks.
    pub callbacks: nat,
}

/// The entries of an application, in the order in which they were added.
///
/// An entry is a method pattern, a path pattern and the callbacks to run, in
/// order, for a request that both patterns match. `C` is the type of a
/// callback; the table stores callbacks and never calls them.
#[derive(Debug)]
pub struct Server<C> {
    /// The entries.
    pub adds: Vec<(String, String, Vec<C>)>,
}

impl<C> Server<C> {
    /// What routing reads of the entries.
    pub open spec fn routes(&self) -> Seq<Route> {
        Seq::new(
            self.adds@.len(),
            |i: int|
                Route {
                    method: self.adds@[i].0@,
                    path: self.adds@[i].1@,
                    callbacks: self.adds@[i].2@.len(),
                },
        )
    }

    /// A table without entries.
    pub fn new() -> (r: Server<C>)
        ensures
            r.adds@.len() == 0,
            r.routes() == Seq::<Route>::empty(),
    {
        let r = Server { adds: Vec::new() };
        assert(r.routes() == Seq::<Route>::empty());
        r
    }

    /// Appends the entry `args`: a method pattern, a path pattern and the
    /// callbacks. Earlier entries stay as they are.
    pub fn add(&mut self, args: (&str, &str, Vec<C>))
        ensures
            final(self).adds@.len() == old(self).adds@.len() + 1,
            final(self).adds@.drop_last() == old(self).adds@,
            final(self).adds@.last().0@ == args.0@,
            final(self).adds@.last().1@ == args.1@,
            final(self).adds@.last().2 == args.2,
            final(self).routes() == old(self).routes().push(
                Route { method: args.0@, path: args.1@, callbacks: args.2@.len() },
            ),
    {
        let method = args.0.to_owned();
        let path = args.1.to_owned();
        self.adds.push((method, path, args.2));
        assert(self.adds@.drop_last() == old(self).adds@);
        assert(self.routes() == old(self).routes().push(
            Route { method: args.0@, path: args.1@, callbacks: args.2@.len() },
        ));
    }

    /// The callback at position `index` of the entry at position `entry`,
    /// if there is one.
    pub fn callback(&self, entry: usize, index: usize) -> (r: Option<&C>)
        ensures
            match r {
                Some(c) => entry < self.adds@.len() && index < self.adds@[entry as int].2@.len()
                    && *c == self.adds@[entry as int].2@[index as int],
                None => !(entry < self.adds@.len() && index < self.routes()[entry as int].callbacks),
            },
    {
        if entry < self.adds.len() {
            let callbacks = &self.adds[entry].2;
            if index < callbacks.len() {
                return Some(&callbacks[index]);
            }
        }
        None
    }
}

/// The token at position `i` of `tokens`, or `*` where there is none.
pub open spec fn pattern_at(tokens: Seq<Seq<char>>, i: int) -> Seq<char> {
    if i < tokens.len() {
        tokens[i]
    } else {
        "*"@
    }
}

/// The method pattern and the path pattern that the text `method_path`
/// registers: its first and second whitespace-separated tokens, each `*`
/// where it is missing. So `get /users` is for GET requests of `/users`,
/// and the empty text is for every request.
pub fn route_patterns(method_path: &str) -> (r: (String, String))
    ensures
        r.0@ == pattern_at(fields(method_path@, Delimiter::Whitespace), 0),
        r.1@ == pattern_at(fields(method_path@, Delimiter::Whitespace), 1),
{
    let tokens = split_fields(method_path, Delimiter::Whitespace);
    let method = if tokens.len() > 0 {
        assert(tokens.deep_view()[0] == tokens@[0]@);
        tokens[0].clone()
    } else {
        "*".to_owned()
    };
    let path = if tokens.len() > 1 {
        assert(tokens.deep_view()[1] == tokens@[1]@);
        tokens[1].clone()
    } else {
        "*".to_owned()
    };
    (method, path)
}

impl<C: Clone> Clone for Server<C> {
    /// A table with the same entries, each with clones of its callbacks.
    fn clone(&self) -> (r: Server<C>)
        ensures
            r.routes() == self.routes(),
    {
        let n: usize = self.adds.len();
        let mut adds: Vec<(String, String, Vec<C>)> = Vec::new();
        let mut i: usize = 0;
        while i < n
            invariant
                n == self.adds@.len(),
                i <= n,
                adds@.len() == i,
                forall|k: int|
                    0 <= k < i ==> (#[trigger] adds@[k]).0@ == self.adds@[k].0@ && adds@[k].1@
                        == self.adds@[k].1@ && adds@[k].2@.len() == self.adds@[k].2@.len(),
            decreases n - i,
        {
            let entry = &self.adds[i];
            adds.push((entry.0.clone(), entry.1.clone(), entry.2.clone()));
            i += 1;
        }
        let r = Server { adds };
        assert(r.routes() == self.routes());
        r
    }
}

impl<C> Default for Server<C> {
    /// A table without entries.
    fn default() -> (r: Server<C>)
        ensures
            r.adds@.len() == 0,
    {
        Server::new()
    }
}

} // verus!
