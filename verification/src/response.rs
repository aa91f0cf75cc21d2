//! The response that a reply of the backend becomes.

use crate::headers;
use crate::headers::{Field, Header};
use crate::method;
use crate::text;
use axum::http::response::Builder;
use axum::http::{HeaderMap, HeaderValue, Response};
use vstd::prelude::*;

verus! {

/// A response with fewer names of fields than this is sure to have room for them.
pub const NAME_ROOM: usize = 6554;

/// A response with as many names of fields as this has no room for another field.
pub const NAME_LIMIT: usize = 24576;

/// The longest name that a field can have.
pub const MAX_NAME_LEN: usize = 65535;

/// Whether `status` can be the status of a response.
pub open spec fn is_status(status: u16) -> bool {
    100 <= status <= 999
}

/// Whether a response can have a field of this name.
pub open spec fn is_field_name(name: Seq<char>) -> bool {
    method::is_token(name) && name.len() <= MAX_NAME_LEN
}

/// Whether `b` may stand in the value of a field: all but control characters, and tabs.
pub open spec fn is_value_byte(b: u8) -> bool {
    (b >= 32 && b != 127) || b == 9
}

/// Whether a response can have this field.
pub open spec fn is_response_field(field: Field) -> bool {
    &&& is_field_name(field.0)
    &&& forall|i: int| 0 <= i < field.1.len() ==> is_value_byte(#[trigger] field.1[i])
}

/// The fields with their names in lower case.
pub open spec fn lowered(fields: Seq<Field>) -> Seq<Field> {
    fields.map_values(|field: Field| (text::lower(field.0), field.1))
}

/// The fields of a response by their names: the names in the order in which each first came,
/// and with each name its values in the order in which they came.
pub type Groups = Seq<(Seq<char>, Seq<Seq<u8>>)>;

/// Whether the name stands at index `i`.
pub open spec fn is_at(groups: Groups, name: Seq<char>, i: int) -> bool {
    0 <= i < groups.len() && groups[i].0 == name
}

/// Whether there is a group of this name.
pub open spec fn has_group(groups: Groups, name: Seq<char>) -> bool {
    exists|i: int| is_at(groups, name, i)
}

/// The groups with one more value: behind the others of its name, or under a new name at the
/// end.
pub open spec fn with_value(groups: Groups, name: Seq<char>, value: Seq<u8>) -> Groups {
    if has_group(groups, name) {
        let i = choose|i: int| is_at(groups, name, i);
        groups.update(i, (name, groups[i].1.push(value)))
    } else {
        groups.push((name, seq![value]))
    }
}

/// The fields by their names, as they are when the fields come one after the other.
pub open spec fn grouped(fields: Seq<Field>) -> Groups
    decreases fields.len(),
{
    if fields.len() == 0 {
        Seq::empty()
    } else {
        with_value(grouped(fields.drop_last()), fields.last().0, fields.last().1)
    }
}

/// Whether a field has this name.
pub open spec fn has_name(name: Seq<char>) -> spec_fn(Field) -> bool {
    |field: Field| field.0 == name
}

/// The values of the fields of this name, in their order.
pub open spec fn values(fields: Seq<Field>, name: Seq<char>) -> Seq<Seq<u8>> {
    fields.filter(has_name(name)).map_values(|field: Field| field.1)
}

/// What stands before the body of a response: its status, its protocol version as major and
/// minor number, how many extensions it carries, and its fields.
pub struct Head {
    pub status: u16,
    pub version: (nat, nat),
    pub extensions: nat,
    pub fields: Groups,
}

/// The head of a response with this status and these fields: of HTTP/1.1, without extensions,
/// and with the names in lower case.
pub open spec fn head(status: u16, fields: Seq<Field>) -> Head {
    Head { status, version: (1, 1), extensions: 0, fields: grouped(lowered(fields)) }
}

/// The type [`Builder`] of responses in the `http` crate.
#[verifier::external_type_specification]
#[verifier::external_body]
pub struct ExBuilder(Builder);

/// The type [`Response`] of the `http` crate.
#[verifier::external_type_specification]
#[verifier::external_body]
#[verifier::reject_recursive_types(T)]
pub struct ExResponse<T>(Response<T>);

/// The error type of the `http` crate.
#[verifier::external_type_specification]
#[verifier::external_body]
pub struct ExHttpError(axum::http::Error);

/// What a builder holds: the head of a response, or nothing once a part was refused.
pub uninterp spec fn builder_head(builder: Builder) -> Option<Head>;

/// Whether the header map of a builder has room for one more field.
///
/// This rests on where the names fall in the map's hash table, and so on more than the names:
/// the hash takes in machine words in the machine's own size and byte order, and which names
/// collide differs from one machine to the next.
pub uninterp spec fn has_room(builder: Builder) -> bool;

/// What a response holds: its head and its body.
pub uninterp spec fn response_content(response: Response<Vec<u8>>) -> (Head, Seq<u8>);

/// Calls `Response::builder`. Trusted: a new builder holds the status 200, the version
/// HTTP/1.1, no extensions and no fields.
#[verifier::external_body]
fn new_builder() -> (res: Builder)
    ensures
        builder_head(res) == Some(head(200, Seq::empty())),
{
    Response::builder()
}

/// Calls `Builder::status`. Trusted: a number of three digits becomes the status, any other
/// number is refused, and a builder that refused a part before stays as it is.
#[verifier::external_body]
fn set_status(builder: Builder, status: u16) -> (res: Builder)
    ensures
        builder_head(res) == match builder_head(builder) {
            Some(head) if is_status(status) => Some(Head { status, ..head }),
            _ => None,
        },
{
    builder.status(status)
}

/// Calls `Builder::header`. Trusted: where no part was refused before and the builder's map
/// has room, a field that a response can have is added to those that are there, with its name
/// in lower case and its value behind the others of that name, or, where the name is new,
/// behind all other names; in every other case nothing more is held. Whether there is room
/// rests on the builder alone, not on the field: there is below [`NAME_ROOM`] names, and
/// there is not from [`NAME_LIMIT`] names on.
#[verifier::external_body]
fn add_header(builder: Builder, name: &str, value: &[u8]) -> (res: Builder)
    ensures
        (builder_head(res) is Some) == (builder_head(builder) is Some && is_response_field(
            (name@, value@),
        ) && has_room(builder)),
        builder_head(res) matches Some(after) ==> {
            &&& builder_head(builder) matches Some(before)
            &&& after == (Head {
                fields: with_value(before.fields, text::lower(name@), value@),
                ..before
            })
        },
        builder_head(builder) matches Some(before) && is_response_field((name@, value@))
            && before.fields.len() < NAME_ROOM ==> builder_head(res) is Some,
        builder_head(builder) matches Some(before) && NAME_LIMIT <= before.fields.len()
            ==> builder_head(res) is None,
{
    builder.header(name, value)
}

/// Calls `Builder::body`. Trusted: the response holds what the builder holds, and the body;
/// there is an error exactly where a part was refused.
#[verifier::external_body]
fn finish(builder: Builder, body: Vec<u8>) -> (res: Result<Response<Vec<u8>>, axum::http::Error>)
    ensures
        res is Ok <==> builder_head(builder) is Some,
        res matches Ok(response) ==> Some(response_content(response).0) == builder_head(builder)
            && response_content(response).1 == body@,
{
    builder.body(body)
}

/// Whether a response can be made of `status` and `fields`, room aside.
pub open spec fn is_valid_head(status: u16, fields: Seq<Field>) -> bool {
    &&& is_status(status)
    &&& forall|i: int| 0 <= i < fields.len() ==> is_response_field(#[trigger] fields[i])
}

/// Whether `builder` holds the head of a response with the status and the fields.
pub open spec fn holds(builder: Builder, status: u16, fields: Seq<Field>) -> bool {
    builder_head(builder) == Some(head(status, fields))
}

/// Whether a builder with the status and the fields had room for one more.
pub open spec fn found_room(status: u16, fields: Seq<Field>) -> bool {
    exists|builder: Builder| #[trigger] holds(builder, status, fields) && has_room(builder)
}

/// Whether a builder with the status and the fields had no room for one more.
pub open spec fn lacked_room(status: u16, fields: Seq<Field>) -> bool {
    exists|builder: Builder| #[trigger] holds(builder, status, fields) && !has_room(builder)
}

/// What `res` is for a reply of the backend with `status`, `fields` and `body`.
///
/// It is a response with that status and body and with the fields that are passed back only
/// where the head is valid and each of these fields found room, and it is `None` only where
/// the head is not valid or one of them did not. All find room where they have fewer names
/// than [`NAME_ROOM`], and the last one does not where those before it have [`NAME_LIMIT`].
pub open spec fn is_relayed(
    status: u16,
    fields: Seq<Field>,
    body: Seq<u8>,
    res: Option<Response<Vec<u8>>>,
) -> bool {
    let kept = headers::response_fields(fields);
    &&& match res {
        Some(response) => {
            &&& is_valid_head(status, kept)
            &&& forall|i: int| 0 <= i < kept.len() ==> found_room(status, #[trigger] kept.take(i))
            &&& response_content(response) == (head(status, kept), body)
        },
        None => {
            ||| !is_valid_head(status, kept)
            ||| exists|i: int|
                0 <= i < kept.len() && lacked_room(status, #[trigger] kept.take(i))
        },
    }
    &&& is_valid_head(status, kept) && grouped(lowered(kept)).len() < NAME_ROOM ==> res is Some
    &&& kept.len() > 0 && grouped(lowered(kept.drop_last())).len() >= NAME_LIMIT ==> res is None
}

/// The fields before an index have no more names than all fields.
proof fn lemma_groups_of_prefix(fields: Seq<Field>, i: int)
    requires
        0 <= i <= fields.len(),
    ensures
        grouped(fields.take(i)).len() <= grouped(fields).len(),
    decreases fields.len(),
{
    if i < fields.len() {
        lemma_groups_of_prefix(fields.drop_last(), i);
        assert(fields.drop_last().take(i) =~= fields.take(i));
    } else {
        assert(fields.take(i) =~= fields);
    }
}

/// Returns the response that a reply with `status`, `headers` and `body` becomes: without the
/// fields that stay behind. `None` where no response can be made of it.
pub fn relay_fields(status: u16, headers: &Vec<Header>, body: Vec<u8>) -> (res: Option<
    Response<Vec<u8>>,
>)
    ensures
        is_relayed(status, headers::fields(headers@), body@, res),
        res matches Some(response) ==> {
            &&& response_content(response).0.status == status
            &&& response_content(response).0.version == (1nat, 1nat)
            &&& response_content(response).0.extensions == 0
            &&& response_content(response).1 == body@
        },
{
    let kept: Vec<Header> = headers::select_response_headers(headers);
    let ghost all = headers::fields(kept@);
    let mut builder: Builder = set_status(new_builder(), status);
    let mut i: usize = 0;
    assert(lowered(all.take(0)) =~= lowered(Seq::empty()));
    while i < kept.len()
        invariant
            i <= kept.len(),
            all == headers::fields(kept@),
            builder_head(builder) is Some ==> {
                &&& holds(builder, status, all.take(i as int))
                &&& is_valid_head(status, all.take(i as int))
                &&& forall|k: int| 0 <= k < i ==> found_room(status, #[trigger] all.take(k))
                &&& i > 0 ==> grouped(lowered(all.take(i - 1))).len() < NAME_LIMIT
            },
            builder_head(builder) is None ==> {
                &&& grouped(lowered(all)).len() < NAME_ROOM ==> !is_valid_head(status, all)
                &&& !is_valid_head(status, all) || exists|k: int|
                    0 <= k < all.len() && lacked_room(status, #[trigger] all.take(k))
            },
        decreases kept.len() - i,
    {
        let ghost now = all.take(i as int);
        let ghost then = all.take(i + 1);
        let ghost field = all[i as int];
        let ghost low = (text::lower(field.0), field.1);
        let ghost before = builder;
        builder = add_header(builder, kept[i].name.as_str(), kept[i].value.as_slice());
        proof {
            assert(field == kept[i as int]@);
            assert(then =~= now.push(field));
            assert(lowered(then) =~= lowered(now).push(low));
            assert(lowered(now).push(low).drop_last() =~= lowered(now));
            assert(lowered(now) =~= lowered(all).take(i as int));
            lemma_groups_of_prefix(lowered(all), i as int);
            assert(is_valid_head(status, now) && is_response_field(field) ==> is_valid_head(
                status,
                then,
            )) by {
                assert(forall|k: int| 0 <= k < now.len() ==> #[trigger] then[k] == now[k]);
            }
            if builder_head(before) is Some {
                assert(holds(before, status, now));
            }
        }
        i = i + 1;
    }
    assert(all.take(all.len() as int) =~= all);
    assert(all.len() > 0 ==> all.take(all.len() - 1) =~= all.drop_last());
    match finish(builder, body) {
        Ok(response) => Some(response),
        Err(_) => None,
    }
}

/// Returns the response that a reply with `status`, the header map `map` and `body` becomes:
/// without the fields that stay behind. `None` where no response can be made of it.
pub fn relay_reply(status: u16, map: &HeaderMap<HeaderValue>, body: Vec<u8>) -> (res: Option<
    Response<Vec<u8>>,
>)
    ensures
        is_relayed(status, headers::map_fields(*map), body@, res),
        res matches Some(response) ==> {
            &&& response_content(response).0.status == status
            &&& response_content(response).0.version == (1nat, 1nat)
            &&& response_content(response).0.extensions == 0
            &&& response_content(response).1 == body@
        },
{
    relay_fields(status, &headers::list_map(map), body)
}

/// The groups of some fields hold every name that occurs once, with exactly its values in
/// their order; and the names stand in the order in which each first occurs, since more
/// fields only put more names behind those that are there.
pub proof fn law_groups(fields: Seq<Field>)
    ensures
        forall|i: int, j: int|
            0 <= i < j < grouped(fields).len() ==> (#[trigger] grouped(fields)[i]).0 != (
            #[trigger] grouped(fields)[j]).0,
        forall|i: int|
            0 <= i < grouped(fields).len() ==> (#[trigger] grouped(fields)[i]).1 == values(
                fields,
                grouped(fields)[i].0,
            ) && grouped(fields)[i].1.len() > 0,
        forall|k: int|
            0 <= k < fields.len() ==> has_group(grouped(fields), (#[trigger] fields[k]).0),
        fields.len() > 0 ==> {
            let before = grouped(fields.drop_last());
            &&& before.len() <= grouped(fields).len() <= before.len() + 1
            &&& forall|i: int|
                0 <= i < before.len() ==> (#[trigger] grouped(fields)[i]).0 == before[i].0
        },
    decreases fields.len(),
{
    reveal(Seq::filter);
    if fields.len() > 0 {
        let few = fields.drop_last();
        let (name, value) = fields.last();
        let before = grouped(few);
        let after = grouped(fields);
        law_groups(few);
        assert forall|other: Seq<char>|
            #[trigger] values(fields, other) == if other == name {
                values(few, other).push(value)
            } else {
                values(few, other)
            } by {
            if other == name {
                assert(fields.filter(has_name(other)) =~= few.filter(has_name(other)).push(
                    fields.last(),
                ));
                assert(values(fields, other) =~= values(few, other).push(value));
            }
        }
        if has_group(before, name) {
            let at = choose|i: int| is_at(before, name, i);
            assert(is_at(after, name, at));
        } else {
            lemma_no_values(few, name);
            assert(values(fields, name) =~= seq![value]);
            assert(is_at(after, name, before.len() as int));
        }
        assert forall|k: int| 0 <= k < fields.len() implies has_group(
            after,
            (#[trigger] fields[k]).0,
        ) by {
            if k < few.len() {
                assert(few[k] == fields[k]);
                let i = choose|i: int| is_at(before, few[k].0, i);
                assert(is_at(after, fields[k].0, i));
            }
        }
    }
}

/// A name that no group has, has no values.
proof fn lemma_no_values(fields: Seq<Field>, name: Seq<char>)
    requires
        !has_group(grouped(fields), name),
        forall|k: int|
            0 <= k < fields.len() ==> has_group(grouped(fields), (#[trigger] fields[k]).0),
    ensures
        values(fields, name) == Seq::<Seq<u8>>::empty(),
{
    let found = fields.filter(has_name(name));
    if found.len() > 0 {
        fields.lemma_filter_pred(has_name(name), 0);
        headers::lemma_selected_was_there(fields, has_name(name), 0);
        let k = choose|k: int| 0 <= k < fields.len() && fields[k] == found[0];
        let i = choose|i: int| is_at(grouped(fields), fields[k].0, i);
        assert(is_at(grouped(fields), name, i));
    }
    assert(values(fields, name) =~= Seq::<Seq<u8>>::empty());
}

/// A response holds none of the fields that stay behind, and every value that it holds, the
/// case of its name aside, is one that the reply came with.
pub proof fn law_response_is_clean(
    status: u16,
    fields: Seq<Field>,
    body: Seq<u8>,
    response: Response<Vec<u8>>,
    g: int,
    k: int,
)
    requires
        is_relayed(status, fields, body, Some(response)),
        0 <= g < response_content(response).0.fields.len(),
        0 <= k < response_content(response).0.fields[g].1.len(),
    ensures
        ({
            let (name, values) = response_content(response).0.fields[g];
            &&& !headers::response_drops(name)
            &&& exists|i: int|
                0 <= i < fields.len() && text::lower((#[trigger] fields[i]).0) == name
                    && fields[i].1 == values[k]
        }),
{
    let keep = |f: Field| !headers::response_drops(f.0);
    let kept = fields.filter(keep);
    let low = lowered(kept);
    law_groups(low);
    let name = grouped(low)[g].0;
    let under = has_name(name);
    let found = low.filter(under);
    low.lemma_filter_pred(under, k);
    headers::lemma_selected_was_there(low, under, k);
    let i = choose|i: int| 0 <= i < low.len() && low[i] == found[k];
    fields.lemma_filter_pred(keep, i);
    assert(text::lower(text::lower(kept[i].0)) =~= text::lower(kept[i].0));
    headers::lemma_selected_was_there(fields, keep, i);
    let j = choose|j: int| 0 <= j < fields.len() && fields[j] == kept[i];
    assert(text::lower(fields[j].0) == name);
}

/// The client gets the backend's own status and body: the number and the bytes that the reply
/// came with, in a response of HTTP/1.1 without extensions.
pub proof fn law_status_and_body_are_the_replys(
    status: u16,
    fields: Seq<Field>,
    body: Seq<u8>,
    response: Response<Vec<u8>>,
)
    requires
        is_relayed(status, fields, body, Some(response)),
    ensures
        response_content(response).0.status == status,
        response_content(response).1 == body,
        response_content(response).0.version == (1nat, 1nat),
        response_content(response).0.extensions == 0,
{
}

/// Two replies that are both relayed and lead to the same response have the same status, the
/// same body and, under every name that is passed back, the same values.
pub proof fn law_response_tells_replies_apart(
    status: u16,
    fields: Seq<Field>,
    body: Seq<u8>,
    other_status: u16,
    other_fields: Seq<Field>,
    other_body: Seq<u8>,
    response: Response<Vec<u8>>,
    name: Seq<char>,
)
    requires
        is_relayed(status, fields, body, Some(response)),
        is_relayed(other_status, other_fields, other_body, Some(response)),
    ensures
        status == other_status,
        body == other_body,
        ({
            ||| name == "content-length"@
            ||| name == "connection"@
            ||| name == "transfer-encoding"@
            ||| fields.filter(|f: Field| text::lower(f.0) == name).map_values(|f: Field| f.1)
                == other_fields.filter(|f: Field| text::lower(f.0) == name).map_values(
                |f: Field| f.1,
            )
        }),
{
    let low = lowered(headers::response_fields(fields));
    let other_low = lowered(headers::response_fields(other_fields));
    lemma_values_of_kept(fields, name);
    lemma_values_of_kept(other_fields, name);
    law_groups(low);
    law_groups(other_low);
    if has_group(grouped(low), name) {
        let i = choose|i: int| is_at(grouped(low), name, i);
        assert(values(low, name) == grouped(low)[i].1);
        assert(values(other_low, name) == grouped(other_low)[i].1);
    } else {
        lemma_no_values(low, name);
        lemma_no_values(other_low, name);
    }
}

/// What the response holds under each name, for every name there is. Under a name that stays
/// behind, or that no field of the reply has in any case of its letters, it holds nothing.
/// Under any other name it holds, once and in their order, the values of just those fields.
pub proof fn law_response_by_name(
    status: u16,
    fields: Seq<Field>,
    body: Seq<u8>,
    response: Response<Vec<u8>>,
    name: Seq<char>,
)
    requires
        is_relayed(status, fields, body, Some(response)),
    ensures
        ({
            let groups = response_content(response).0.fields;
            let came = fields.filter(|f: Field| text::lower(f.0) == name).map_values(
                |f: Field| f.1,
            );
            let stays_behind = {
                ||| name == "content-length"@
                ||| name == "connection"@
                ||| name == "transfer-encoding"@
            };
            &&& forall|i: int|
                0 <= i < groups.len() && (#[trigger] groups[i]).0 == name ==> !stays_behind
                    && came.len() > 0 && groups[i].1 == came
            &&& !stays_behind && came.len() > 0 ==> exists|i: int|
                0 <= i < groups.len() && (#[trigger] groups[i]).0 == name
            &&& forall|i: int, j: int|
                0 <= i < j < groups.len() ==> (#[trigger] groups[i]).0 != (
                #[trigger] groups[j]).0
        }),
{
    let low = lowered(headers::response_fields(fields));
    let groups = grouped(low);
    let came = fields.filter(|f: Field| text::lower(f.0) == name).map_values(|f: Field| f.1);
    let stays_behind = {
        ||| name == "content-length"@
        ||| name == "connection"@
        ||| name == "transfer-encoding"@
    };
    lemma_values_of_kept(fields, name);
    law_groups(low);
    assert(groups == response_content(response).0.fields);
    assert forall|i: int| 0 <= i < groups.len() && (#[trigger] groups[i]).0 == name implies !stays_behind
        && came.len() > 0 && groups[i].1 == came by {
        assert(groups[i].1 == values(low, name));
    }
    if !stays_behind && came.len() > 0 {
        if !has_group(groups, name) {
            lemma_no_values(low, name);
        }
        let i = choose|i: int| is_at(groups, name, i);
        assert(groups[i].0 == name);
    }
}

/// The names in a response stand in the order in which the reply first has them: of two
/// names, the reply has a field of the first before every field of the second.
pub proof fn law_response_names_in_order(
    status: u16,
    fields: Seq<Field>,
    body: Seq<u8>,
    response: Response<Vec<u8>>,
    i: int,
    j: int,
)
    requires
        is_relayed(status, fields, body, Some(response)),
        0 <= i < j < response_content(response).0.fields.len(),
    ensures
        exists|p: int|
            0 <= p < fields.len() && text::lower((#[trigger] fields[p]).0) == response_content(
                response,
            ).0.fields[i].0 && forall|q: int|
                0 <= q < fields.len() && text::lower((#[trigger] fields[q]).0)
                    == response_content(response).0.fields[j].0 ==> p < q,
{
    lemma_names_in_order(fields, i, j);
}

/// When a reply is relayed. It is where its status has three digits, its fields, however many,
/// have fewer than 6554 names, and each field that is passed back has a token of at most 65535
/// characters for its name and no control character but the tab in its value. It is not where
/// its status has not three digits, or where one of these fields is not like that. Where it is
/// not though all this holds but the number of names, a builder was met that holds the status
/// and has no room.
pub proof fn law_when_a_reply_is_relayed(
    status: u16,
    fields: Seq<Field>,
    body: Seq<u8>,
    res: Option<Response<Vec<u8>>>,
)
    requires
        is_relayed(status, fields, body, res),
    ensures
        ({
            let fit = forall|i: int|
                #![trigger fields[i]]
                0 <= i < fields.len() ==> {
                ||| text::lower(fields[i].0) == "content-length"@
                ||| text::lower(fields[i].0) == "connection"@
                ||| text::lower(fields[i].0) == "transfer-encoding"@
                ||| method::is_token(fields[i].0) && fields[i].0.len() <= 65535 && forall|k: int|
                    0 <= k < fields[i].1.len() ==> {
                        let byte = #[trigger] fields[i].1[k];
                        byte == 9 || (32 <= byte && byte != 127)
                    }
            };
            &&& 100 <= status && status <= 999 && fit && fields.map_values(
                |f: Field| text::lower(f.0),
            ).to_set().len() < 6554 ==> res is Some
            &&& 100 <= status && status <= 999 && fit && fields.len() < 6554 ==> res is Some
            &&& 100 <= status && status <= 999 && fit && res is None ==> exists|b: Builder|
                builder_head(b) is Some && builder_head(b)->0.status == status && !(
                #[trigger] has_room(b))
            &&& !(100 <= status && status <= 999 && fit) ==> res is None
        }),
{
    broadcast use vstd::seq_lib::group_filter_ensures;

    let keep = |f: Field| !headers::response_drops(f.0);
    let kept = fields.filter(keep);
    lemma_no_more_groups_than_fields(lowered(kept));
    lemma_no_more_groups_than_names(fields);
    assert forall|i: int| 0 <= i < kept.len() implies exists|j: int|
        0 <= j < fields.len() && #[trigger] fields[j] == #[trigger] kept[i] && keep(fields[j]) by {
        headers::lemma_selected_was_there(fields, keep, i);
        let j = choose|j: int| 0 <= j < fields.len() && fields[j] == kept[i];
        assert(keep(kept[i]));
        assert(fields[j] == kept[i]);
    }
    assert forall|j: int| 0 <= j < fields.len() && keep(#[trigger] fields[j]) implies exists|i: int|
        0 <= i < kept.len() && #[trigger] kept[i] == fields[j] by {
        assert(kept.contains(fields[j]));
    }
    if forall|j: int|
        0 <= j < fields.len() && keep(#[trigger] fields[j]) ==> is_response_field(fields[j]) {
        assert forall|i: int| 0 <= i < kept.len() implies is_response_field(
            #[trigger] kept[i],
        ) by {
            let j = choose|j: int|
                0 <= j < fields.len() && #[trigger] fields[j] == kept[i] && keep(fields[j]);
            assert(is_response_field(fields[j]));
        }
    } else {
        let j = choose|j: int|
            0 <= j < fields.len() && keep(#[trigger] fields[j]) && !is_response_field(fields[j]);
        let i = choose|i: int| 0 <= i < kept.len() && #[trigger] kept[i] == fields[j];
        assert(!is_response_field(kept[i]));
    }
}

/// There are no more names than fields.
proof fn lemma_no_more_groups_than_fields(fields: Seq<Field>)
    ensures
        grouped(fields).len() <= fields.len(),
    decreases fields.len(),
{
    if fields.len() > 0 {
        lemma_no_more_groups_than_fields(fields.drop_last());
    }
}

/// The values under a name among the fields that are passed back are those of all fields of
/// that name, unless the name stays behind.
proof fn lemma_values_of_kept(fields: Seq<Field>, name: Seq<char>)
    ensures
        ({
            let stays_behind = {
                ||| name == "content-length"@
                ||| name == "connection"@
                ||| name == "transfer-encoding"@
            };
            values(lowered(headers::response_fields(fields)), name) == if stays_behind {
                Seq::empty()
            } else {
                fields.filter(|f: Field| text::lower(f.0) == name).map_values(|f: Field| f.1)
            }
        }),
    decreases fields.len(),
{
    reveal(Seq::filter);
    let of_name = |f: Field| text::lower(f.0) == name;
    let value = |f: Field| f.1;
    if fields.len() > 0 {
        let few = fields.drop_last();
        let last = fields.last();
        assert(few.push(last) =~= fields);
        lemma_values_of_kept(few, name);
        headers::law_response_fields_one_by_one(few, last);
        let kept = headers::response_fields(few);
        let low = (text::lower(last.0), last.1);
        assert(lowered(kept.push(last)) =~= lowered(kept).push(low));
        assert(lowered(kept).push(low).drop_last() =~= lowered(kept));
        assert(fields.filter(of_name) == if of_name(last) {
            few.filter(of_name).push(last)
        } else {
            few.filter(of_name)
        });
        assert(few.filter(of_name).push(last).map_values(value) =~= few.filter(
            of_name,
        ).map_values(value).push(last.1));
        assert(lowered(kept).filter(has_name(name)).push(low).map_values(value) =~= lowered(
            kept,
        ).filter(has_name(name)).map_values(value).push(last.1));
    } else {
        headers::law_response_fields_one_by_one(fields, (name, Seq::empty()));
        assert(fields =~= Seq::empty());
        assert(lowered(headers::response_fields(fields)) =~= Seq::empty());
        assert(values(Seq::empty(), name) =~= Seq::empty());
        assert(fields.filter(of_name).map_values(value) =~= Seq::empty());
    }
}

/// The names of the fields that are passed back stand in the order of their first fields.
proof fn lemma_names_in_order(fields: Seq<Field>, i: int, j: int)
    requires
        0 <= i < j < grouped(lowered(headers::response_fields(fields))).len(),
    ensures
        ({
            let groups = grouped(lowered(headers::response_fields(fields)));
            exists|p: int|
                0 <= p < fields.len() && text::lower((#[trigger] fields[p]).0) == groups[i].0
                    && forall|q: int|
                    0 <= q < fields.len() && text::lower((#[trigger] fields[q]).0) == groups[j].0
                        ==> p < q
        }),
    decreases fields.len(),
{
    let groups = grouped(lowered(headers::response_fields(fields)));
    headers::law_response_fields_one_by_one(fields, (Seq::empty(), Seq::empty()));
    if fields.len() == 0 {
        assert(fields =~= Seq::empty());
        assert(lowered(headers::response_fields(fields)) =~= Seq::empty());
    } else {
        let few = fields.drop_last();
        let last = fields.last();
        let kept = headers::response_fields(few);
        let before = grouped(lowered(kept));
        let low = (text::lower(last.0), last.1);
        assert(few.push(last) =~= fields);
        headers::law_response_fields_one_by_one(few, last);
        assert(lowered(kept.push(last)) =~= lowered(kept).push(low));
        assert(lowered(kept).push(low).drop_last() =~= lowered(kept));
        law_groups(lowered(headers::response_fields(fields)));
        law_groups(lowered(kept));
        if j < before.len() {
            lemma_names_in_order(few, i, j);
            let p = choose|p: int|
                0 <= p < few.len() && text::lower((#[trigger] few[p]).0) == before[i].0
                    && forall|q: int|
                    0 <= q < few.len() && text::lower((#[trigger] few[q]).0) == before[j].0
                        ==> p < q;
            assert(text::lower(fields[p].0) == groups[i].0);
            assert forall|q: int|
                0 <= q < fields.len() && text::lower((#[trigger] fields[q]).0)
                    == groups[j].0 implies p < q by {
                if q < few.len() {
                    assert(few[q] == fields[q]);
                }
            }
        } else {
            let first = before[i].0;
            lemma_group_came(few, i);
            let p = choose|p: int| 0 <= p < few.len() && text::lower((#[trigger] few[p]).0) == first;
            assert(text::lower(fields[p].0) == groups[i].0);
            assert forall|q: int|
                0 <= q < fields.len() && text::lower((#[trigger] fields[q]).0)
                    == groups[j].0 implies p < q by {
                if q < few.len() {
                    assert(few[q] == fields[q]);
                    lemma_values_of_kept(few, groups[j].0);
                    lemma_values_of_kept(fields, groups[j].0);
                    lemma_no_values(lowered(kept), groups[j].0);
                    lemma_has_value(few, groups[j].0, q);
                }
            }
        }
    }
}

/// A field of a name is among those of that name.
proof fn lemma_has_value(fields: Seq<Field>, name: Seq<char>, q: int)
    requires
        0 <= q < fields.len(),
        text::lower(fields[q].0) == name,
    ensures
        fields.filter(|f: Field| text::lower(f.0) == name).map_values(|f: Field| f.1).len() > 0,
{
    let of_name = |f: Field| text::lower(f.0) == name;
    fields.lemma_filter_contains(of_name, q);
    let i = choose|i: int| 0 <= i < fields.filter(of_name).len() && fields.filter(of_name)[i]
        == fields[q];
    assert(fields.filter(of_name).len() > 0);
}

/// Every name in the groups is the name of a field, in lower case.
proof fn lemma_group_came(fields: Seq<Field>, i: int)
    requires
        0 <= i < grouped(lowered(headers::response_fields(fields))).len(),
    ensures
        exists|p: int|
            0 <= p < fields.len() && text::lower((#[trigger] fields[p]).0) == grouped(
                lowered(headers::response_fields(fields)),
            )[i].0,
{
    let low = lowered(headers::response_fields(fields));
    let name = grouped(low)[i].0;
    law_groups(low);
    lemma_values_of_kept(fields, name);
    let of_name = |f: Field| text::lower(f.0) == name;
    let found = fields.filter(of_name);
    assert(found.len() > 0);
    fields.lemma_filter_pred(of_name, 0);
    headers::lemma_selected_was_there(fields, of_name, 0);
    let p = choose|p: int| 0 <= p < fields.len() && fields[p] == found[0];
    assert(text::lower(fields[p].0) == name);
}

/// There are no more groups than names among all fields, in lower case.
proof fn lemma_no_more_groups_than_names(fields: Seq<Field>)
    ensures
        grouped(lowered(headers::response_fields(fields))).len() <= fields.map_values(
            |f: Field| text::lower(f.0),
        ).to_set().len(),
{
    broadcast use vstd::seq_lib::seq_to_set_is_finite;

    let groups = grouped(lowered(headers::response_fields(fields)));
    let names = groups.map_values(|g: (Seq<char>, Seq<Seq<u8>>)| g.0);
    let all = fields.map_values(|f: Field| text::lower(f.0));
    law_groups(lowered(headers::response_fields(fields)));
    assert(names.no_duplicates()) by {
        assert forall|i: int, j: int|
            0 <= i < names.len() && 0 <= j < names.len() && i != j implies names[i]
            != names[j] by {
            if i < j {
                assert(groups[i].0 != groups[j].0);
            } else {
                assert(groups[j].0 != groups[i].0);
            }
        }
    }
    names.unique_seq_to_set();
    assert forall|name: Seq<char>| names.to_set().contains(name) implies all.to_set().contains(
        name,
    ) by {
        let i = choose|i: int| 0 <= i < names.len() && names[i] == name;
        lemma_group_came(fields, i);
        let p = choose|p: int|
            0 <= p < fields.len() && text::lower((#[trigger] fields[p]).0) == groups[i].0;
        assert(all[p] == name);
    }
    vstd::set_lib::lemma_len_subset(names.to_set(), all.to_set());
}

} // verus!
