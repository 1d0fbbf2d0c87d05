//! Headers in the shape of the guest interface's `http-header` record, and
//! the conversions between them and the library's headers.

use vstd::prelude::*;
use crate::http::header::{Header, HeaderMap};

verus! {

/// The `http-header` record of the guest interface.
#[derive(Debug)]
pub struct WitHeader {
    pub name: String,
    pub value: String,
}

/// A header from its interface record.
pub fn header_from_wit(wit: WitHeader) -> (res: Header)
    ensures
        res@ == (wit.name@, wit.value@),
{
    Header { name: wit.name, value: wit.value }
}

/// The interface record of a header.
pub fn header_to_wit(header: Header) -> (res: WitHeader)
    ensures
        (res.name@, res.value@) == header@,
{
    WitHeader { name: header.name, value: header.value }
}

/// The name-value pairs of interface records.
pub open spec fn wit_pairs(hs: Seq<WitHeader>) -> Seq<(Seq<char>, Seq<char>)> {
    hs.map_values(|h: WitHeader| (h.name@, h.value@))
}

/// A header map from a list of interface records, in order.
pub fn headers_from_wit(list: &Vec<WitHeader>) -> (res: HeaderMap)
    ensures
        res@ == wit_pairs(list@),
{
    let mut out: Vec<Header> = Vec::new();
    let mut i: usize = 0;
    while i < list.len()
        invariant
            i <= list@.len(),
            out@.len() == i,
            forall|j: int|
                0 <= j < i ==> (#[trigger] out@[j])@ == (list@[j].name@, list@[j].value@),
        decreases list@.len() - i,
    {
        out.push(Header { name: list[i].name.clone(), value: list[i].value.clone() });
        i = i + 1;
    }
    proof {
        assert(out@.map_values(|h: Header| h@) =~= wit_pairs(list@));
    }
    HeaderMap::from_headers(out)
}

/// The interface records of a header map, in order.
pub fn headers_to_wit(map: &HeaderMap) -> (res: Vec<WitHeader>)
    ensures
        wit_pairs(res@) == map@,
{
    let hs = map.as_slice();
    let mut out: Vec<WitHeader> = Vec::new();
    let mut i: usize = 0;
    while i < hs.len()
        invariant
            hs@.map_values(|h: Header| h@) == map@,
            i <= hs@.len(),
            out@.len() == i,
            forall|j: int| 0 <= j < i ==> ((#[trigger] out@[j]).name@, out@[j].value@) == hs@[j]@,
        decreases hs@.len() - i,
    {
        out.push(WitHeader { name: hs[i].name.clone(), value: hs[i].value.clone() });
        i = i + 1;
    }
    proof {
        assert(wit_pairs(out@) =~= hs@.map_values(|h: Header| h@));
    }
    out
}

/// Headers survive the trip through the interface records unchanged, in
/// order, empty values and repeated names included: `records` is what
/// `headers_to_wit` gives for `map`, and `back` what `headers_from_wit`
/// gives for `records`.
pub proof fn law_wit_round_trip(map: HeaderMap, records: Seq<WitHeader>, back: HeaderMap)
    requires
        wit_pairs(records) == map@,
        back@ == wit_pairs(records),
    ensures
        back@ == map@,
{
}

/// A single header survives the trip through its interface record.
pub proof fn law_header_round_trip(h: Header, record: WitHeader, back: Header)
    requires
        (record.name@, record.value@) == h@,
        back@ == (record.name@, record.value@),
    ensures
        back@ == h@,
{
}

} // verus!
