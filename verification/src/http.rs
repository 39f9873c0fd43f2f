//! Message shapes carried through the framework: connection metadata,
//! requests, and responses, together with the header mapping they share.

use vstd::prelude::*;

verus! {

use vstd::hash_map::StringHashMap;

/// A mapping from header name to header value. Keys are unique; inserting an
/// existing key replaces its value; insertion order is irrelevant. Viewed in
/// specifications as a `Map<Seq<char>, Seq<char>>`.
pub struct Headers {
    entries: StringHashMap<String>,
}

impl View for Headers {
    type V = Map<Seq<char>, Seq<char>>;

    closed spec fn view(&self) -> Map<Seq<char>, Seq<char>> {
        self.entries@.map_values(|v: String| v@)
    }
}

impl Headers {
    /// An empty header mapping.
    pub fn new() -> (r: Headers)
        ensures
            r@ == Map::<Seq<char>, Seq<char>>::empty(),
    {
        let entries = StringHashMap::new();
        proof {
            assert(entries@.map_values(|v: String| v@) =~= Map::<Seq<char>, Seq<char>>::empty());
        }
        Headers { entries }
    }

    /// The number of distinct header names present.
    pub fn len(&self) -> (n: usize)
        ensures
            n == self@.dom().len(),
    {
        proof {
            assert(self.entries@.map_values(|v: String| v@).dom() =~= self.entries@.dom());
        }
        self.entries.len()
    }

    /// Whether no header is present.
    pub fn is_empty(&self) -> (r: bool)
        ensures
            r == self@.is_empty(),
    {
        proof {
            assert(self.entries@.map_values(|v: String| v@).dom() =~= self.entries@.dom());
            assert(self.entries@.is_empty() == self@.is_empty());
        }
        self.entries.is_empty()
    }

    /// Sets the header `name` to `value`, replacing any previous value of the
    /// same name.
    pub fn insert(&mut self, name: String, value: String)
        ensures
            final(self)@ == old(self)@.insert(name@, value@),
    {
        let ghost pre = self.entries@;
        let ghost kn = name@;
        let ghost vv = value@;
        self.entries.insert(name, value);
        proof {
            assert(self.entries@.map_values(|v: String| v@) =~= pre.map_values(
                |v: String| v@,
            ).insert(kn, vv));
        }
    }

    /// Whether a header of the given name is present.
    pub fn contains_key(&self, name: &str) -> (r: bool)
        ensures
            r == self@.contains_key(name@),
    {
        proof {
            assert(self.entries@.map_values(|v: String| v@).dom() =~= self.entries@.dom());
        }
        self.entries.contains_key(name)
    }

    /// The value of the header of the given name, if present.
    pub fn get<'a>(&'a self, name: &str) -> (r: Option<&'a String>)
        ensures
            match r {
                Some(v) => self@.contains_key(name@) && v@ == self@[name@],
                None => !self@.contains_key(name@),
            },
    {
        proof {
            assert(self.entries@.map_values(|v: String| v@).dom() =~= self.entries@.dom());
        }
        self.entries.get(name)
    }
}

/// Metadata describing one accepted connection, fixed once constructed.
pub struct ConnInfo {
    pub host_and_port: String,
}

/// One unit of work for a request service: a path-and-query string, a header
/// mapping, and an opaque byte payload. Owned by the current call until it is
/// consumed into a [`Response`].
pub struct Request {
    pub path_and_query: String,
    pub headers: Headers,
    pub body: Vec<u8>,
}

/// The result of one successful call: a status code, a header mapping, and an
/// opaque byte payload.
pub struct Response {
    pub status: u32,
    pub headers: Headers,
    pub body: Vec<u8>,
}

} // verus!
