//! Which header fields pass through the proxy.

use crate::text;
use axum::http::{HeaderMap, HeaderValue};
use vstd::prelude::*;

verus! {

/// What a header field holds: its name and its value.
pub type Field = (Seq<char>, Seq<u8>);

/// A header field: its name and its value.
pub struct Header {
    pub name: String,
    pub value: Vec<u8>,
}

impl View for Header {
    type V = Field;

    open spec fn view(&self) -> Field {
        (self.name@, self.value@)
    }
}

/// The names and values of `headers`, in their order.
pub open spec fn fields(headers: Seq<Header>) -> Seq<Field> {
    headers.map_values(|header: Header| header@)
}

/// Whether a field of this name stays behind when a request is passed on: `host`, which the
/// client sets anew, and the fields that concern one connection only.
pub open spec fn request_drops(name: Seq<char>) -> bool {
    let name = text::lower(name);
    ||| name == "host"@
    ||| name == "content-length"@
    ||| name == "connection"@
    ||| name == "keep-alive"@
    ||| name == "transfer-encoding"@
    ||| name == "upgrade"@
    ||| name == "proxy-authenticate"@
    ||| name == "proxy-authorization"@
    ||| name == "te"@
    ||| name == "trailers"@
}

/// Whether a field of this name stays behind when a reply is passed back.
pub open spec fn response_drops(name: Seq<char>) -> bool {
    let name = text::lower(name);
    ||| name == "content-length"@
    ||| name == "connection"@
    ||| name == "transfer-encoding"@
}

/// The fields of a request that are passed on, in their order.
pub open spec fn request_fields(fields: Seq<Field>) -> Seq<Field> {
    fields.filter(|field: Field| !request_drops(field.0))
}

/// The fields of a reply that are passed back, in their order.
pub open spec fn response_fields(fields: Seq<Field>) -> Seq<Field> {
    fields.filter(|field: Field| !response_drops(field.0))
}

/// The type [`HeaderMap`] of the `http` crate, which `axum` and `reqwest` share.
#[verifier::external_type_specification]
#[verifier::external_body]
#[verifier::reject_recursive_types(T)]
pub struct ExHeaderMap<T>(HeaderMap<T>);

/// The type [`HeaderValue`] of the `http` crate.
#[verifier::external_type_specification]
#[verifier::external_body]
pub struct ExHeaderValue(HeaderValue);

/// The fields that a header map holds, as names and values, in the order of its iterator.
pub uninterp spec fn map_fields(map: HeaderMap<HeaderValue>) -> Seq<Field>;

/// Calls `HeaderMap::iter`, and takes each name and value out as text and bytes. Trusted: the
/// iterator gives every field that the map holds, one item for each value, and its order
/// rests on the map alone.
#[verifier::external_body]
pub(crate) fn list_map(map: &HeaderMap<HeaderValue>) -> (res: Vec<Header>)
    ensures
        fields(res@) == map_fields(*map),
{
    map.iter()
        .map(|(name, value)| Header {
            name: name.as_str().to_string(),
            value: value.as_bytes().to_vec(),
        })
        .collect()
}

/// Says whether a field of this name stays behind when a request is passed on.
pub fn is_dropped_from_request(name: &str) -> (res: bool)
    ensures
        res == request_drops(name@),
        res == {
            ||| text::lower(name@) == "host"@
            ||| text::lower(name@) == "content-length"@
            ||| text::lower(name@) == "connection"@
            ||| text::lower(name@) == "keep-alive"@
            ||| text::lower(name@) == "transfer-encoding"@
            ||| text::lower(name@) == "upgrade"@
            ||| text::lower(name@) == "proxy-authenticate"@
            ||| text::lower(name@) == "proxy-authorization"@
            ||| text::lower(name@) == "te"@
            ||| text::lower(name@) == "trailers"@
        },
{
    text::lowers_to(name, "host")
        || text::lowers_to(name, "content-length")
        || text::lowers_to(name, "connection")
        || text::lowers_to(name, "keep-alive")
        || text::lowers_to(name, "transfer-encoding")
        || text::lowers_to(name, "upgrade")
        || text::lowers_to(name, "proxy-authenticate")
        || text::lowers_to(name, "proxy-authorization")
        || text::lowers_to(name, "te")
        || text::lowers_to(name, "trailers")
}

/// Says whether a field of this name stays behind when a reply is passed back.
pub fn is_dropped_from_response(name: &str) -> (res: bool)
    ensures
        res == response_drops(name@),
        res == {
            ||| text::lower(name@) == "content-length"@
            ||| text::lower(name@) == "connection"@
            ||| text::lower(name@) == "transfer-encoding"@
        },
{
    text::lowers_to(name, "content-length")
        || text::lowers_to(name, "connection")
        || text::lowers_to(name, "transfer-encoding")
}

/// Returns a copy of a header field.
fn copy_header(header: &Header) -> (res: Header)
    ensures
        res@ == header@,
        res.name@ == header.name@,
        res.value@ == header.value@,
{
    let value: Vec<u8> = header.value.clone();
    assert(value@ =~= header.value@);
    Header { name: header.name.clone(), value }
}

/// The way that a message goes.
#[derive(Clone, Copy)]
enum Direction {
    Request,
    Response,
}

impl Direction {
    /// Whether a field passes on this way.
    spec fn passes(self) -> spec_fn(Field) -> bool {
        match self {
            Direction::Request => |field: Field| !request_drops(field.0),
            Direction::Response => |field: Field| !response_drops(field.0),
        }
    }
}

/// Returns the fields that pass on the way `direction`, in their order.
fn select_headers(headers: &Vec<Header>, direction: Direction) -> (res: Vec<Header>)
    ensures
        fields(res@) == fields(headers@).filter(direction.passes()),
{
    let ghost all = fields(headers@);
    let ghost passes = direction.passes();
    let mut res: Vec<Header> = Vec::new();
    let mut i: usize = 0;
    assert(fields(res@) =~= all.take(0).filter(passes)) by {
        reveal(Seq::filter);
    }
    while i < headers.len()
        invariant
            i <= headers.len(),
            all == fields(headers@),
            passes == direction.passes(),
            fields(res@) == all.take(i as int).filter(passes),
        decreases headers.len() - i,
    {
        let ghost before = res@;
        let name: &str = headers[i].name.as_str();
        let keep: bool = match direction {
            Direction::Request => !is_dropped_from_request(name),
            Direction::Response => !is_dropped_from_response(name),
        };
        if keep {
            res.push(copy_header(&headers[i]));
            assert(fields(res@) =~= fields(before).push(headers[i as int]@));
        }
        assert(all.take(i + 1).filter(passes) == if keep {
            all.take(i as int).filter(passes).push(all[i as int])
        } else {
            all.take(i as int).filter(passes)
        }) by {
            reveal(Seq::filter);
            assert(all.take(i + 1).drop_last() =~= all.take(i as int));
        }
        i = i + 1;
    }
    assert(all.take(all.len() as int) =~= all);
    res
}

/// Returns the fields of a request that are passed on, in their order.
pub fn select_request_headers(headers: &Vec<Header>) -> (res: Vec<Header>)
    ensures
        fields(res@) == request_fields(fields(headers@)),
{
    select_headers(headers, Direction::Request)
}

/// Returns the fields of a reply that are passed back, in their order.
pub fn select_response_headers(headers: &Vec<Header>) -> (res: Vec<Header>)
    ensures
        fields(res@) == response_fields(fields(headers@)),
{
    select_headers(headers, Direction::Response)
}

/// Whether a field stays behind does not depend on the case in which its name is written.
pub proof fn law_case_is_ignored(name: Seq<char>, other: Seq<char>)
    requires
        text::lower(name) == text::lower(other),
    ensures
        request_drops(name) == request_drops(other),
        response_drops(name) == response_drops(other),
{
}

/// What stays behind in a reply also stays behind in a request.
pub proof fn law_response_drops_less(name: Seq<char>)
    ensures
        response_drops(name) ==> request_drops(name),
{
}

/// The number of times that `field` occurs.
pub open spec fn occurrences(fields: Seq<Field>, field: Field) -> nat {
    fields.to_multiset().count(field)
}

/// Every field of a request is passed on as many times as it came, unchanged, or not at all
/// where its name is one of those that stay behind.
pub proof fn law_request_fields_exact(fields: Seq<Field>, field: Field)
    ensures
        occurrences(request_fields(fields), field) == if request_drops(field.0) {
            0
        } else {
            occurrences(fields, field)
        },
{
    lemma_filter_occurrences(fields, |f: Field| !request_drops(f.0), field);
}

/// Every field of a reply is passed back as many times as it came, unchanged, or not at all
/// where its name is one of those that stay behind.
pub proof fn law_response_fields_exact(fields: Seq<Field>, field: Field)
    ensures
        occurrences(response_fields(fields), field) == if response_drops(field.0) {
            0
        } else {
            occurrences(fields, field)
        },
{
    lemma_filter_occurrences(fields, |f: Field| !response_drops(f.0), field);
}

/// A second proxy in the chain finds nothing more to leave out of a request.
pub proof fn law_request_fields_idempotent(fields: Seq<Field>)
    ensures
        request_fields(request_fields(fields)) == request_fields(fields),
{
    broadcast use vstd::seq_lib::group_filter_ensures;

    let keep = |f: Field| !request_drops(f.0);
    lemma_filter_all(request_fields(fields), keep);
}

/// A second proxy in the chain finds nothing more to leave out of a reply.
pub proof fn law_response_fields_idempotent(fields: Seq<Field>)
    ensures
        response_fields(response_fields(fields)) == response_fields(fields),
{
    broadcast use vstd::seq_lib::group_filter_ensures;

    let keep = |f: Field| !response_drops(f.0);
    lemma_filter_all(response_fields(fields), keep);
}

/// A filter that keeps every item changes nothing.
proof fn lemma_filter_all<A>(s: Seq<A>, keep: spec_fn(A) -> bool)
    requires
        forall|i: int| 0 <= i < s.len() ==> keep(#[trigger] s[i]),
    ensures
        s.filter(keep) == s,
    decreases s.len(),
{
    reveal(Seq::filter);
    if s.len() > 0 {
        lemma_filter_all(s.drop_last(), keep);
        assert(s.drop_last().push(s.last()) =~= s);
    }
}

/// What a filter keeps was there before.
pub proof fn lemma_selected_was_there<A>(s: Seq<A>, keep: spec_fn(A) -> bool, i: int)
    requires
        0 <= i < s.filter(keep).len(),
    ensures
        s.contains(s.filter(keep)[i]),
    decreases s.len(),
{
    reveal(Seq::filter);
    if s.len() > 0 {
        let before = s.drop_last();
        if i < before.filter(keep).len() {
            lemma_selected_was_there(before, keep, i);
            let j = choose|j: int| 0 <= j < before.len() && before[j] == before.filter(keep)[i];
            assert(s[j] == s.filter(keep)[i]);
        } else {
            assert(s[s.len() - 1] == s.filter(keep)[i]);
        }
    }
}

/// A filter keeps all occurrences of an item, or none.
proof fn lemma_filter_occurrences<A>(s: Seq<A>, keep: spec_fn(A) -> bool, item: A)
    ensures
        s.filter(keep).to_multiset().count(item) == if keep(item) {
            s.to_multiset().count(item)
        } else {
            0
        },
    decreases s.len(),
{
    broadcast use vstd::seq_lib::group_to_multiset_ensures;

    reveal(Seq::filter);
    if s.len() > 0 {
        lemma_filter_occurrences(s.drop_last(), keep, item);
        assert(s.drop_last().push(s.last()) =~= s);
    }
}

/// How the fields that are passed on grow with one more field: it comes behind the
/// others, unchanged, unless its name, in any case of its letters, is one of these.
pub proof fn law_request_fields_one_by_one(fields: Seq<Field>, field: Field)
    ensures
        request_fields(Seq::<Field>::empty()) == Seq::<Field>::empty(),
        ({
            let name = text::lower(field.0);
            let stays_behind = {
                ||| name == "host"@
                ||| name == "content-length"@
                ||| name == "connection"@
                ||| name == "keep-alive"@
                ||| name == "transfer-encoding"@
                ||| name == "upgrade"@
                ||| name == "proxy-authenticate"@
                ||| name == "proxy-authorization"@
                ||| name == "te"@
                ||| name == "trailers"@
            };
            request_fields(fields.push(field)) == if stays_behind {
                request_fields(fields)
            } else {
                request_fields(fields).push(field)
            }
        }),
{
    reveal(Seq::filter);
    assert(fields.push(field).drop_last() =~= fields);
    assert(request_fields(Seq::<Field>::empty()) =~= Seq::<Field>::empty());
}

/// Of a request, every field whose lower-case name is none of these is passed on as many times
/// as it came, and every other field not at all.
pub proof fn law_request_fields_by_name(fields: Seq<Field>, field: Field)
    ensures
        ({
            let name = text::lower(field.0);
            let stays_behind = {
                ||| name == "host"@
                ||| name == "content-length"@
                ||| name == "connection"@
                ||| name == "keep-alive"@
                ||| name == "transfer-encoding"@
                ||| name == "upgrade"@
                ||| name == "proxy-authenticate"@
                ||| name == "proxy-authorization"@
                ||| name == "te"@
                ||| name == "trailers"@
            };
            request_fields(fields).to_multiset().count(field) == if stays_behind {
                0
            } else {
                fields.to_multiset().count(field)
            }
        }),
{
    law_request_fields_exact(fields, field);
}

/// The fields of two messages, one behind the other, pass as they pass one by one.
pub proof fn law_request_fields_in_parts(first: Seq<Field>, second: Seq<Field>)
    ensures
        request_fields(first + second) == request_fields(first) + request_fields(second),
{
    Seq::filter_distributes_over_add(first, second, |f: Field| !request_drops(f.0));
}

/// How the fields that are passed back grow with one more field: it comes behind the
/// others, unchanged, unless its name, in any case of its letters, is one of these.
pub proof fn law_response_fields_one_by_one(fields: Seq<Field>, field: Field)
    ensures
        response_fields(Seq::<Field>::empty()) == Seq::<Field>::empty(),
        ({
            let name = text::lower(field.0);
            let stays_behind = {
                ||| name == "content-length"@
                ||| name == "connection"@
                ||| name == "transfer-encoding"@
            };
            response_fields(fields.push(field)) == if stays_behind {
                response_fields(fields)
            } else {
                response_fields(fields).push(field)
            }
        }),
{
    reveal(Seq::filter);
    assert(fields.push(field).drop_last() =~= fields);
    assert(response_fields(Seq::<Field>::empty()) =~= Seq::<Field>::empty());
}

/// Of a reply, every field whose lower-case name is none of these is passed back as many times
/// as it came, and every other field not at all.
pub proof fn law_response_fields_by_name(fields: Seq<Field>, field: Field)
    ensures
        ({
            let name = text::lower(field.0);
            let stays_behind = {
                ||| name == "content-length"@
                ||| name == "connection"@
                ||| name == "transfer-encoding"@
            };
            response_fields(fields).to_multiset().count(field) == if stays_behind {
                0
            } else {
                fields.to_multiset().count(field)
            }
        }),
{
    law_response_fields_exact(fields, field);
}

/// The fields of two messages, one behind the other, pass as they pass one by one.
pub proof fn law_response_fields_in_parts(first: Seq<Field>, second: Seq<Field>)
    ensures
        response_fields(first + second) == response_fields(first) + response_fields(second),
{
    Seq::filter_distributes_over_add(first, second, |f: Field| !response_drops(f.0));
}

/// A list of header fields is read as it is written: as many fields, each with its own name
/// and its own value, in the same places.
pub proof fn law_fields_are_names_and_values(headers: Seq<Header>)
    ensures
        fields(headers).len() == headers.len(),
        forall|i: int|
            0 <= i < headers.len() ==> (#[trigger] fields(headers)[i]).0 == headers[i].name@
                && fields(headers)[i].1 == headers[i].value@,
{
}

} // verus!
