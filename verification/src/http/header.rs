//! HTTP headers: name-value pairs kept in insertion order, duplicates
//! allowed, looked up without regard to ASCII case.

use vstd::prelude::*;
use crate::text::{eq_ignore_ascii_case, str_eq_ignore_ascii_case, to_owned_str};

verus! {

/// An HTTP header as a name-value pair.
#[derive(Debug)]
pub struct Header {
    pub name: String,
    pub value: String,
}

impl View for Header {
    type V = (Seq<char>, Seq<char>);

    open spec fn view(&self) -> (Seq<char>, Seq<char>) {
        (self.name@, self.value@)
    }
}

impl Clone for Header {
    fn clone(&self) -> (res: Self)
        ensures
            res@ == self@,
    {
        Header { name: self.name.clone(), value: self.value.clone() }
    }
}

impl Header {
    /// A header with the given name and value.
    pub fn new(name: &str, value: &str) -> (res: Self)
        ensures
            res.name@ == name@,
            res.value@ == value@,
    {
        Header { name: to_owned_str(name), value: to_owned_str(value) }
    }
}

/// The headers named `name` (ignoring ASCII case), in order.
pub open spec fn matching(entries: Seq<(Seq<char>, Seq<char>)>, name: Seq<char>) -> Seq<
    (Seq<char>, Seq<char>),
> {
    entries.filter(|h: (Seq<char>, Seq<char>)| eq_ignore_ascii_case(h.0, name))
}

/// The values of the headers named `name` (ignoring ASCII case), in order.
pub open spec fn all_values(entries: Seq<(Seq<char>, Seq<char>)>, name: Seq<char>) -> Seq<Seq<char>> {
    matching(entries, name).map_values(|h: (Seq<char>, Seq<char>)| h.1)
}

/// An ordered collection of HTTP headers.
///
/// Preserves insertion order and supports duplicate header names (e.g.
/// several `Set-Cookie` headers).
#[derive(Debug)]
pub struct HeaderMap {
    entries: Vec<Header>,
}

impl View for HeaderMap {
    type V = Seq<(Seq<char>, Seq<char>)>;

    closed spec fn view(&self) -> Seq<(Seq<char>, Seq<char>)> {
        self.entries@.map_values(|h: Header| h@)
    }
}

impl Clone for HeaderMap {
    fn clone(&self) -> (res: Self)
        ensures
            res@ == self@,
    {
        let mut out: Vec<Header> = Vec::new();
        let mut i: usize = 0;
        while i < self.entries.len()
            invariant
                i <= self.entries@.len(),
                out@.len() == i,
                forall|j: int| 0 <= j < i ==> (#[trigger] out@[j])@ == self.entries@[j]@,
            decreases self.entries@.len() - i,
        {
            out.push(self.entries[i].clone());
            i = i + 1;
        }
        let res = HeaderMap { entries: out };
        proof {
            assert(res@ =~= self@);
        }
        res
    }
}

impl HeaderMap {
    /// An empty header map.
    pub fn new() -> (res: Self)
        ensures
            res@ == Seq::<(Seq<char>, Seq<char>)>::empty(),
    {
        let res = HeaderMap { entries: Vec::new() };
        proof {
            assert(res@ =~= Seq::<(Seq<char>, Seq<char>)>::empty());
        }
        res
    }

    /// A header map holding `headers` in order.
    pub fn from_headers(headers: Vec<Header>) -> (res: Self)
        ensures
            res@ == headers@.map_values(|h: Header| h@),
    {
        HeaderMap { entries: headers }
    }

    /// A header map holding the given name-value pairs in order.
    pub fn from_pairs(pairs: Vec<(String, String)>) -> (res: Self)
        ensures
            res@ == pairs@.map_values(|p: (String, String)| (p.0@, p.1@)),
    {
        let mut out: Vec<Header> = Vec::new();
        let mut i: usize = 0;
        while i < pairs.len()
            invariant
                i <= pairs@.len(),
                out@.len() == i,
                forall|j: int|
                    0 <= j < i ==> (#[trigger] out@[j])@ == (pairs@[j].0@, pairs@[j].1@),
            decreases pairs@.len() - i,
        {
            let p = &pairs[i];
            out.push(Header { name: p.0.clone(), value: p.1.clone() });
            i = i + 1;
        }
        let res = HeaderMap { entries: out };
        proof {
            assert(res@ =~= pairs@.map_values(|p: (String, String)| (p.0@, p.1@)));
        }
        res
    }

    /// Appends a header; earlier headers of the same name are kept.
    pub fn insert(&mut self, name: &str, value: &str)
        ensures
            final(self)@ == old(self)@.push((name@, value@)),
    {
        self.entries.push(Header::new(name, value));
        proof {
            assert(self@ =~= old(self)@.push((name@, value@)));
        }
    }

    /// The value of the first header named `name`, ignoring ASCII case.
    pub fn get(&self, name: &str) -> (res: Option<&str>)
        ensures
            match res {
                Some(v) => matching(self@, name@).len() > 0 && v@ == matching(self@, name@)[0].1,
                None => matching(self@, name@).len() == 0,
            },
    {
        let mut i: usize = 0;
        while i < self.entries.len()
            invariant
                i <= self.entries@.len(),
                matching(self@.take(i as int), name@).len() == 0,
            decreases self.entries@.len() - i,
        {
            let h = &self.entries[i];
            proof {
                assert(self@.take(i + 1) =~= self@.take(i as int).push(h@));
                self@.take(i as int).lemma_filter_push(
                    h@,
                    |h: (Seq<char>, Seq<char>)| eq_ignore_ascii_case(h.0, name@),
                );
            }
            if str_eq_ignore_ascii_case(h.name.as_str(), name) {
                proof {
                    assert(matching(self@.take(i + 1), name@) =~= seq![h@]);
                    lemma_matching_prefix(self@, name@, i + 1);
                }
                return Some(h.value.as_str());
            }
            i = i + 1;
        }
        proof {
            assert(self@.take(i as int) =~= self@);
        }
        None
    }

    /// The values of all headers named `name`, ignoring ASCII case, in order.
    pub fn get_all(&self, name: &str) -> (res: Vec<&str>)
        ensures
            res@.map_values(|v: &str| v@) == all_values(self@, name@),
    {
        let mut out: Vec<&str> = Vec::new();
        let mut i: usize = 0;
        while i < self.entries.len()
            invariant
                i <= self.entries@.len(),
                out@.map_values(|v: &str| v@) == matching(self@.take(i as int), name@).map_values(
                    |h: (Seq<char>, Seq<char>)| h.1,
                ),
            decreases self.entries@.len() - i,
        {
            let h = &self.entries[i];
            proof {
                assert(self@.take(i + 1) =~= self@.take(i as int).push(h@));
                self@.take(i as int).lemma_filter_push(
                    h@,
                    |h: (Seq<char>, Seq<char>)| eq_ignore_ascii_case(h.0, name@),
                );
            }
            if str_eq_ignore_ascii_case(h.name.as_str(), name) {
                let ghost before = out@;
                out.push(h.value.as_str());
                proof {
                    assert(out@.map_values(|v: &str| v@) =~= before.map_values(|v: &str| v@).push(
                        h.value@,
                    ));
                    assert(matching(self@.take(i + 1), name@).map_values(
                        |h: (Seq<char>, Seq<char>)| h.1,
                    ) =~= matching(self@.take(i as int), name@).map_values(
                        |h: (Seq<char>, Seq<char>)| h.1,
                    ).push(h.value@));
                }
            }
            i = i + 1;
        }
        proof {
            assert(self@.take(i as int) =~= self@);
        }
        out
    }

    /// The headers, in order.
    pub fn as_slice(&self) -> (res: &[Header])
        ensures
            res@.map_values(|h: Header| h@) == self@,
    {
        self.entries.as_slice()
    }

    /// An iterator over the headers, in order.
    pub fn iter(&self) -> (res: std::slice::Iter<'_, Header>)
        ensures
            vstd::std_specs::iter::IteratorSpec::remaining(&res).map_values(|h: &Header| h@) == self@,
    {
        let it = self.entries.as_slice().iter();
        proof {
            assert(vstd::std_specs::iter::IteratorSpec::remaining(&it).map_values(|h: &Header| h@)
                =~= self@);
        }
        it
    }

    /// Number of headers.
    pub fn len(&self) -> (res: usize)
        ensures
            res == self@.len(),
    {
        self.entries.len()
    }

    /// Whether there are no headers.
    pub fn is_empty(&self) -> (res: bool)
        ensures
            res == (self@.len() == 0),
    {
        self.entries.len() == 0
    }

    /// The headers, in order.
    pub fn into_vec(self) -> (res: Vec<Header>)
        ensures
            res@.map_values(|h: Header| h@) == self@,
    {
        self.entries
    }
}

/// The first match within a prefix is the first match of the whole.
proof fn lemma_matching_prefix(s: Seq<(Seq<char>, Seq<char>)>, name: Seq<char>, k: int)
    requires
        0 <= k <= s.len(),
        matching(s.take(k), name).len() > 0,
    ensures
        matching(s, name).len() > 0,
        matching(s, name)[0] == matching(s.take(k), name)[0],
    decreases s.len() - k,
{
    if k < s.len() {
        assert(s.take(k + 1) =~= s.take(k).push(s[k]));
        s.take(k).lemma_filter_push(s[k], |h: (Seq<char>, Seq<char>)| eq_ignore_ascii_case(h.0, name));
        lemma_matching_prefix(s, name, k + 1);
    } else {
        assert(s.take(k) =~= s);
    }
}

/// A header that was inserted is found by any spelling of its name that
/// differs only in ASCII case, and its value is the last of the values for
/// that name, the earlier ones kept in order; the values of other names are
/// unchanged.
pub proof fn law_insert_then_get_all(m: Seq<(Seq<char>, Seq<char>)>, name: Seq<char>, value: Seq<char>, query: Seq<char>)
    ensures
        eq_ignore_ascii_case(name, query) ==> matching(m.push((name, value)), query) == matching(
            m,
            query,
        ).push((name, value)),
        eq_ignore_ascii_case(name, query) ==> all_values(m.push((name, value)), query)
            == all_values(m, query).push(value),
        !eq_ignore_ascii_case(name, query) ==> all_values(m.push((name, value)), query)
            == all_values(m, query),
{
    m.lemma_filter_push((name, value), |h: (Seq<char>, Seq<char>)| eq_ignore_ascii_case(h.0, query));
    if eq_ignore_ascii_case(name, query) {
        assert(all_values(m.push((name, value)), query) =~= all_values(m, query).push(value));
    } else {
        assert(all_values(m.push((name, value)), query) =~= all_values(m, query));
    }
}

/// `get` reads the first of the values `get_all` reads: there is a value
/// for `get` exactly when `get_all` has one, and it is the first.
pub proof fn law_get_is_first_of_get_all(m: Seq<(Seq<char>, Seq<char>)>, name: Seq<char>)
    ensures
        matching(m, name).len() > 0 <==> all_values(m, name).len() > 0,
        matching(m, name).len() > 0 ==> matching(m, name)[0].1 == all_values(m, name)[0],
{
}

} // verus!
