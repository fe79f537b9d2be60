//! The headers of one request: a map from name to value.
//!
//! Names are compared byte for byte. A name that is inserted again replaces
//! the value it had.

use crate::number::parse_usize;
use crate::number::usize_value;
use crate::text::contains;
use crate::text::equal;
use crate::text::has_infix;
use vstd::prelude::*;
use vstd::string::StringSliceAdditionalSpecFns;

verus! {

/// The value that `headers` holds for `name`, if any.
pub open spec fn lookup(headers: Map<Seq<u8>, Seq<u8>>, name: Seq<u8>) -> Option<Seq<u8>> {
    if headers.contains_key(name) {
        Some(headers[name])
    } else {
        None
    }
}

/// The body length that a `Content-Length` value declares: the number it
/// holds, and 0 where the header is absent, is no number, or does not fit.
pub open spec fn declared_length(value: Option<Seq<u8>>) -> usize {
    match value {
        Some(text) => match usize_value(text) {
            Some(n) => n,
            None => 0,
        },
        None => 0,
    }
}

/// The body length that the headers declare.
pub open spec fn content_length(headers: Map<Seq<u8>, Seq<u8>>) -> usize {
    declared_length(lookup(headers, "Content-Length".spec_bytes()))
}

/// The client asks for the connection to be closed after this request: the
/// header `Connection` is exactly `close`.
pub open spec fn wants_close(headers: Map<Seq<u8>, Seq<u8>>) -> bool {
    lookup(headers, "Connection".spec_bytes()) == Some("close".spec_bytes())
}

/// The client takes gzip: the header `Accept-Encoding` holds `gzip`
/// somewhere in its value.
pub open spec fn accepts_gzip(headers: Map<Seq<u8>, Seq<u8>>) -> bool {
    match lookup(headers, "Accept-Encoding".spec_bytes()) {
        Some(value) => has_infix(value, "gzip".spec_bytes()),
        None => false,
    }
}

/// One header: its name and its value.
struct Header {
    name: Vec<u8>,
    value: Vec<u8>,
}

/// A map from header name to header value, kept as a list in which no name
/// stands twice.
pub struct Headers {
    entries: Vec<Header>,
}

/// No two entries have the same name.
spec fn names_distinct(entries: Seq<Header>) -> bool {
    forall|i: int, j: int|
        0 <= i < j < entries.len() ==> (#[trigger] entries[i]).name@ != (#[trigger] entries[j]).name@
}

/// The map that a list of entries stands for; of two entries with one name
/// the later one counts.
spec fn entries_map(entries: Seq<Header>) -> Map<Seq<u8>, Seq<u8>>
    decreases entries.len(),
{
    if entries.len() == 0 {
        Map::empty()
    } else {
        entries_map(entries.drop_last()).insert(entries.last().name@, entries.last().value@)
    }
}

/// A name is in the map exactly when an entry has it, and an entry that no
/// later entry shadows gives the name's value.
proof fn lemma_entries_map(entries: Seq<Header>, name: Seq<u8>)
    ensures
        entries_map(entries).contains_key(name) <==> exists|i: int|
            0 <= i < entries.len() && (#[trigger] entries[i]).name@ == name,
        forall|i: int|
            0 <= i < entries.len() && (#[trigger] entries[i]).name@ == name && (forall|j: int|
                i < j < entries.len() ==> (#[trigger] entries[j]).name@ != name) ==> entries_map(
                entries,
            )[name] == entries[i].value@,
    decreases entries.len(),
{
    if entries.len() > 0 {
        let front = entries.drop_last();
        lemma_entries_map(front, name);
        if entries_map(entries).contains_key(name) {
            if entries.last().name@ == name {
                assert(entries[entries.len() - 1].name@ == name);
            } else {
                let i = choose|i: int| 0 <= i < front.len() && (#[trigger] front[i]).name@ == name;
                assert(entries[i].name@ == name);
            }
        }
        if exists|i: int| 0 <= i < entries.len() && (#[trigger] entries[i]).name@ == name {
            let i = choose|i: int| 0 <= i < entries.len() && (#[trigger] entries[i]).name@ == name;
            if i < front.len() {
                assert(front[i].name@ == name);
            }
        }
        assert forall|i: int|
            0 <= i < entries.len() && (#[trigger] entries[i]).name@ == name && (forall|j: int|
                i < j < entries.len() ==> (#[trigger] entries[j]).name@ != name) implies entries_map(
            entries,
        )[name] == entries[i].value@ by {
            if i < front.len() {
                assert(entries[entries.len() - 1].name@ != name);
                assert(front[i].name@ == name);
                assert forall|j: int| i < j < front.len() implies (#[trigger] front[j]).name@
                    != name by {
                    assert(entries[j].name@ != name);
                }
            }
        }
    }
}

/// Replacing the value of an entry replaces the value of its name in the map.
proof fn lemma_replace_value(entries: Seq<Header>, i: int, header: Header)
    requires
        names_distinct(entries),
        0 <= i < entries.len(),
        entries[i].name@ == header.name@,
    ensures
        names_distinct(entries.update(i, header)),
        entries_map(entries.update(i, header)) == entries_map(entries).insert(
            header.name@,
            header.value@,
        ),
    decreases entries.len(),
{
    let after = entries.update(i, header);
    assert forall|a: int, b: int| 0 <= a < b < after.len() implies (#[trigger] after[a]).name@ != (
    #[trigger] after[b]).name@ by {
        assert(entries[a].name@ != entries[b].name@);
    }
    let front = entries.drop_last();
    if i == entries.len() - 1 {
        assert(after.drop_last() == front);
        assert(entries_map(after) =~= entries_map(entries).insert(header.name@, header.value@));
    } else {
        assert forall|a: int, b: int| 0 <= a < b < front.len() implies (#[trigger] front[a]).name@
            != (#[trigger] front[b]).name@ by {
            assert(entries[a].name@ != entries[b].name@);
        }
        lemma_replace_value(front, i, header);
        assert(after.drop_last() == front.update(i, header));
        assert(after.last() == entries.last());
        assert(entries[i].name@ != entries[entries.len() - 1].name@);
        assert(entries_map(after) =~= entries_map(entries).insert(header.name@, header.value@));
    }
}

impl View for Headers {
    type V = Map<Seq<u8>, Seq<u8>>;

    closed spec fn view(&self) -> Map<Seq<u8>, Seq<u8>> {
        entries_map(self.entries@)
    }
}

impl Headers {
    #[verifier::type_invariant]
    spec fn well_formed(self) -> bool {
        names_distinct(self.entries@)
    }

    /// No headers.
    pub fn new() -> (r: Headers)
        ensures
            r@ == Map::<Seq<u8>, Seq<u8>>::empty(),
    {
        Headers { entries: Vec::new() }
    }

    /// The index of the entry named `name`, if there is one.
    fn position(&self, name: &[u8]) -> (r: Option<usize>)
        ensures
            match r {
                Some(i) => i < self.entries@.len() && self.entries@[i as int].name@ == name@,
                None => forall|k: int|
                    0 <= k < self.entries@.len() ==> (#[trigger] self.entries@[k]).name@ != name@,
            },
    {
        let mut i: usize = 0;
        while i < self.entries.len()
            invariant
                i <= self.entries@.len(),
                forall|k: int| 0 <= k < i ==> (#[trigger] self.entries@[k]).name@ != name@,
            decreases self.entries.len() - i,
        {
            if equal(self.entries[i].name.as_slice(), name) {
                return Some(i);
            }
            i += 1;
        }
        None
    }

    /// The value of the header `name`, if the request has one.
    pub fn get(&self, name: &[u8]) -> (r: Option<&Vec<u8>>)
        ensures
            match r {
                Some(value) => self@.contains_key(name@) && value@ == self@[name@],
                None => !self@.contains_key(name@),
            },
    {
        proof {
            use_type_invariant(self);
            lemma_entries_map(self.entries@, name@);
        }
        match self.position(name) {
            Some(i) => Some(&self.entries[i].value),
            None => None,
        }
    }

    /// The body length that the headers declare.
    pub fn content_length(&self) -> (r: usize)
        ensures
            r == content_length(self@),
    {
        match self.get("Content-Length".as_bytes()) {
            Some(text) => match parse_usize(text.as_slice()) {
                Some(n) => n,
                None => 0,
            },
            None => 0,
        }
    }

    /// Whether the client asks for the connection to be closed.
    pub fn wants_close(&self) -> (r: bool)
        ensures
            r == wants_close(self@),
    {
        match self.get("Connection".as_bytes()) {
            Some(value) => equal(value.as_slice(), "close".as_bytes()),
            None => false,
        }
    }

    /// Whether the client takes gzip.
    pub fn accepts_gzip(&self) -> (r: bool)
        ensures
            r == accepts_gzip(self@),
    {
        match self.get("Accept-Encoding".as_bytes()) {
            Some(value) => contains(value.as_slice(), "gzip".as_bytes()),
            None => false,
        }
    }

    /// Sets the header `name` to `value`, whether or not it had one.
    pub fn insert(&mut self, name: Vec<u8>, value: Vec<u8>)
        ensures
            final(self)@ == old(self)@.insert(name@, value@),
    {
        proof {
            use_type_invariant(&*self);
        }
        let header = Header { name, value };
        let found = self.position(header.name.as_slice());
        let mut entries: Vec<Header> = Vec::new();
        core::mem::swap(&mut entries, &mut self.entries);
        let ghost before = entries@;
        match found {
            Some(i) => {
                proof {
                    lemma_replace_value(before, i as int, header);
                }
                entries[i] = header;
            },
            None => {
                proof {
                    let after = before.push(header);
                    assert(after.drop_last() == before);
                    assert forall|a: int, b: int| 0 <= a < b < after.len() implies (
                    #[trigger] after[a]).name@ != (#[trigger] after[b]).name@ by {
                        if b < before.len() {
                            assert(before[a].name@ != before[b].name@);
                        } else {
                            assert(before[a].name@ != header.name@);
                        }
                    }
                }
                entries.push(header);
            },
        }
        core::mem::swap(&mut entries, &mut self.entries);
    }
}

} // verus!
