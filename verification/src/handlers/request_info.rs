//! The echo of a request: its fields and its headers, as the client sent
//! them. The headers are echoed by name, in the order of the names, each
//! name once.

use vstd::prelude::*;
use vstd::string::*;
use vstd::utf8::{encode_utf8, encode_utf8_decode_utf8};
use crate::request::{HttpRequest, HttpVersion, RequestHeader};

verus! {

/// What stands in an echo for a header value that is not text.
pub const UNKNOWN_VALUE: &'static str = "[Unknown]";

/// The fields of a request in its echo.
#[derive(Debug)]
pub struct RequestFields<'a> {
    pub connection_id: usize,
    pub http_version: &'static str,
    pub method: &'a str,
    pub request_id: usize,
    pub request_uri_path: &'a str,
}

/// One header of a request in its echo.
#[derive(Clone, Copy, Debug)]
pub struct EchoedHeader<'a> {
    pub name: &'a str,
    pub value: &'a str,
}

/// The echo of a request.
#[derive(Debug)]
pub struct RequestInfoResponse<'a> {
    pub request_fields: RequestFields<'a>,
    /// The headers by name, in the order of the names, each name once.
    pub request_headers: Vec<EchoedHeader<'a>>,
}

/// How one name stands to another in the order of names.
#[derive(Clone, Copy, Debug, PartialEq, Eq, Structural)]
pub enum NameOrder {
    Before,
    Same,
    After,
}

/// The name of a version of HTTP.
pub open spec fn spec_http_version_label(version: HttpVersion) -> Seq<char> {
    match version {
        HttpVersion::Http09 => "HTTP/0.9"@,
        HttpVersion::Http10 => "HTTP/1.0"@,
        HttpVersion::Http11 => "HTTP/1.1"@,
        HttpVersion::Http2 => "HTTP/2.0"@,
        HttpVersion::Http3 => "HTTP/3.0"@,
        HttpVersion::Unknown => "[Unknown]"@,
    }
}

/// The name of a version of HTTP.
pub fn http_version_label(version: HttpVersion) -> (label: &'static str)
    ensures
        label@ == spec_http_version_label(version),
{
    match version {
        HttpVersion::Http09 => "HTTP/0.9",
        HttpVersion::Http10 => "HTTP/1.0",
        HttpVersion::Http11 => "HTTP/1.1",
        HttpVersion::Http2 => "HTTP/2.0",
        HttpVersion::Http3 => "HTTP/3.0",
        HttpVersion::Unknown => "[Unknown]",
    }
}

/// The text that stands in an echo for the value of a header.
pub open spec fn spec_echoed_value(header: RequestHeader) -> Seq<char> {
    match header.value {
        Some(value) => value@,
        None => "[Unknown]"@,
    }
}

impl<'a> RequestFields<'a> {
    /// The fields echo the request: its connection and identity, its method
    /// and path as the client sent them, and the name of its version.
    pub open spec fn echoes(&self, request: &HttpRequest) -> bool {
        &&& self.connection_id == request.connection_id@
        &&& self.request_id == request.request_id@
        &&& self.method@ == request.head.method@
        &&& self.request_uri_path@ == request.head.uri_path@
        &&& self.http_version@ == spec_http_version_label(request.head.version)
    }

    /// The fields of `request`.
    pub fn from_request(request: &'a HttpRequest) -> (fields: Self)
        ensures
            fields.echoes(request),
    {
        Self {
            connection_id: request.connection_id.as_usize(),
            http_version: http_version_label(request.head.version),
            method: request.head.method.as_str(),
            request_id: request.request_id.as_usize(),
            request_uri_path: request.head.uri_path.as_str(),
        }
    }
}

/// `echoed` holds the headers of a request, one for one and in the order
/// in which they were sent: each name as it is, and each value as it is
/// where it is text.
pub open spec fn echoes_headers(echoed: Seq<EchoedHeader>, sent: Seq<RequestHeader>) -> bool {
    &&& echoed.len() == sent.len()
    &&& forall|i: int|
        0 <= i < echoed.len() ==> (#[trigger] echoed[i]).name@ == sent[i].name@ && echoed[i].value@
            == spec_echoed_value(sent[i])
}

/// The headers of `request`, one for one and in the order in which they were
/// sent.
pub fn echo_headers<'a>(request: &'a HttpRequest) -> (echoed: Vec<EchoedHeader<'a>>)
    ensures
        echoes_headers(echoed@, request.head.headers@),
{
    let mut echoed: Vec<EchoedHeader<'a>> = Vec::new();
    let mut index: usize = 0;
    while index < request.head.headers.len()
        invariant
            index <= request.head.headers.len(),
            echoed.len() == index,
            forall|i: int|
                0 <= i < index ==> (#[trigger] echoed[i]).name@ == request.head.headers[i].name@
                    && echoed[i].value@ == spec_echoed_value(request.head.headers[i]),
        decreases request.head.headers.len() - index,
    {
        let header = &request.head.headers[index];
        let value: &'a str = match &header.value {
            Some(value) => value.as_str(),
            None => UNKNOWN_VALUE,
        };
        echoed.push(EchoedHeader { name: header.name.as_str(), value });
        index = index + 1;
    }
    echoed
}

/// The order of byte strings: the one with the smaller byte at the first
/// place where they differ comes first, and a byte string comes before
/// every longer one that starts with it.
pub open spec fn spec_bytes_before(left: Seq<u8>, right: Seq<u8>) -> bool
    decreases left.len(),
{
    if right.len() == 0 {
        false
    } else if left.len() == 0 {
        true
    } else if left[0] != right[0] {
        left[0] < right[0]
    } else {
        spec_bytes_before(left.drop_first(), right.drop_first())
    }
}

/// The order of names: the order of their bytes in UTF-8.
pub open spec fn spec_name_before(left: Seq<char>, right: Seq<char>) -> bool {
    spec_bytes_before(encode_utf8(left), encode_utf8(right))
}

/// No byte string comes before itself.
pub proof fn lemma_bytes_before_is_irreflexive(bytes: Seq<u8>)
    ensures
        !spec_bytes_before(bytes, bytes),
    decreases bytes.len(),
{
    if bytes.len() > 0 {
        lemma_bytes_before_is_irreflexive(bytes.drop_first());
    }
}

/// What comes before something that comes before a third comes before the
/// third.
pub proof fn lemma_bytes_before_is_transitive(first: Seq<u8>, second: Seq<u8>, third: Seq<u8>)
    requires
        spec_bytes_before(first, second),
        spec_bytes_before(second, third),
    ensures
        spec_bytes_before(first, third),
    decreases first.len(),
{
    if first.len() > 0 && first[0] == second[0] && second[0] == third[0] {
        lemma_bytes_before_is_transitive(
            first.drop_first(),
            second.drop_first(),
            third.drop_first(),
        );
    }
}

/// Where two byte strings agree at a place, their order from that place on
/// is their order from the next place on.
proof fn lemma_bytes_before_steps(left: Seq<u8>, right: Seq<u8>, at: int)
    requires
        0 <= at < left.len(),
        at < right.len(),
        left[at] == right[at],
    ensures
        spec_bytes_before(left.skip(at), right.skip(at)) == spec_bytes_before(
            left.skip(at + 1),
            right.skip(at + 1),
        ),
{
    assert(left.skip(at).drop_first() =~= left.skip(at + 1));
    assert(right.skip(at).drop_first() =~= right.skip(at + 1));
}

/// How `left` stands to `right` in the order of names.
pub fn order_names(left: &str, right: &str) -> (order: NameOrder)
    ensures
        order == NameOrder::Before <==> spec_name_before(left@, right@),
        order == NameOrder::Same <==> left@ == right@,
        order == NameOrder::After <==> spec_name_before(right@, left@),
{
    let left_bytes = left.as_bytes();
    let right_bytes = right.as_bytes();
    proof {
        encode_utf8_decode_utf8(left@);
        encode_utf8_decode_utf8(right@);
        assert(left_bytes@.skip(0) =~= left_bytes@);
        assert(right_bytes@.skip(0) =~= right_bytes@);
    }
    let mut index: usize = 0;
    while index < left_bytes.len() && index < right_bytes.len()
        invariant
            index <= left_bytes.len(),
            index <= right_bytes.len(),
            left_bytes@ == encode_utf8(left@),
            right_bytes@ == encode_utf8(right@),
            forall|i: int| 0 <= i < index ==> left_bytes[i] == right_bytes[i],
            spec_bytes_before(left_bytes@, right_bytes@) == spec_bytes_before(
                left_bytes@.skip(index as int),
                right_bytes@.skip(index as int),
            ),
            spec_bytes_before(right_bytes@, left_bytes@) == spec_bytes_before(
                right_bytes@.skip(index as int),
                left_bytes@.skip(index as int),
            ),
        decreases left_bytes.len() - index,
    {
        if left_bytes[index] < right_bytes[index] {
            assert(left_bytes@ != right_bytes@);
            return NameOrder::Before;
        }
        if left_bytes[index] > right_bytes[index] {
            assert(left_bytes@ != right_bytes@);
            return NameOrder::After;
        }
        proof {
            lemma_bytes_before_steps(left_bytes@, right_bytes@, index as int);
            lemma_bytes_before_steps(right_bytes@, left_bytes@, index as int);
        }
        index = index + 1;
    }
    if left_bytes.len() < right_bytes.len() {
        assert(left_bytes@ != right_bytes@);
        NameOrder::Before
    } else if left_bytes.len() > right_bytes.len() {
        assert(left_bytes@ != right_bytes@);
        NameOrder::After
    } else {
        assert(left_bytes@ =~= right_bytes@);
        NameOrder::Same
    }
}

/// The names of `sorted` are in rising order.
pub open spec fn names_ascending(sorted: Seq<EchoedHeader>) -> bool {
    forall|a: int, b: int|
        0 <= a < b < sorted.len() ==> spec_name_before(
            (#[trigger] sorted[a]).name@,
            (#[trigger] sorted[b]).name@,
        )
}

/// Header `index` is the last of the first `upto` of `echoed` with the name
/// `name`.
pub open spec fn is_last_of_name(
    echoed: Seq<EchoedHeader>,
    upto: int,
    index: int,
    name: Seq<char>,
) -> bool {
    &&& 0 <= index < upto
    &&& echoed[index].name@ == name
    &&& forall|later: int| index < later < upto ==> (#[trigger] echoed[later]).name@ != name
}

/// One of `sorted` has the name `name`.
pub open spec fn has_name(sorted: Seq<EchoedHeader>, name: Seq<char>) -> bool {
    exists|j: int| 0 <= j < sorted.len() && (#[trigger] sorted[j]).name@ == name
}

/// `entry` has the name and the value of a header among the first `upto` of
/// `echoed`, the last of them with that name.
pub open spec fn holds_last_value(echoed: Seq<EchoedHeader>, upto: int, entry: EchoedHeader) -> bool {
    exists|index: int| #[trigger]
        is_last_of_name(echoed, upto, index, entry.name@) && entry.value@ == echoed[index].value@
}

/// `sorted` holds the first `upto` headers of `echoed` by name: the names in
/// rising order, every name that was sent and no other, and with each name
/// the value that was sent with it, the last where it was sent more than
/// once.
pub open spec fn is_sorted_upto(
    sorted: Seq<EchoedHeader>,
    echoed: Seq<EchoedHeader>,
    upto: int,
) -> bool {
    &&& 0 <= upto <= echoed.len()
    &&& names_ascending(sorted)
    &&& forall|i: int| 0 <= i < upto ==> has_name(sorted, (#[trigger] echoed[i]).name@)
    &&& forall|j: int| 0 <= j < sorted.len() ==> holds_last_value(echoed, upto, #[trigger] sorted[j])
}

/// `sorted` holds the headers `echoed` by name.
pub open spec fn is_sorted_form(sorted: Seq<EchoedHeader>, echoed: Seq<EchoedHeader>) -> bool {
    is_sorted_upto(sorted, echoed, echoed.len() as int)
}

/// Names in rising order are all different.
pub proof fn lemma_ascending_names_are_distinct(sorted: Seq<EchoedHeader>, first: int, second: int)
    requires
        names_ascending(sorted),
        0 <= first < sorted.len(),
        0 <= second < sorted.len(),
        first != second,
    ensures
        sorted[first].name@ != sorted[second].name@,
{
    lemma_bytes_before_is_irreflexive(encode_utf8(sorted[first].name@));
    if first < second {
        assert(spec_name_before(sorted[first].name@, sorted[second].name@));
    } else {
        assert(spec_name_before(sorted[second].name@, sorted[first].name@));
    }
}

/// Taking in a header whose name `sorted` has already, in the place of the
/// entry with that name.
proof fn lemma_replace_keeps_sorted(
    sorted: Seq<EchoedHeader>,
    echoed: Seq<EchoedHeader>,
    upto: int,
    place: int,
)
    requires
        is_sorted_upto(sorted, echoed, upto),
        upto < echoed.len(),
        0 <= place < sorted.len(),
        sorted[place].name@ == echoed[upto].name@,
    ensures
        is_sorted_upto(sorted.update(place, echoed[upto]), echoed, upto + 1),
{
    let entry = echoed[upto];
    let after = sorted.update(place, entry);
    assert forall|a: int, b: int| 0 <= a < b < after.len() implies spec_name_before(
        (#[trigger] after[a]).name@,
        (#[trigger] after[b]).name@,
    ) by {
        assert(spec_name_before(sorted[a].name@, sorted[b].name@));
    }
    assert forall|i: int| 0 <= i < upto + 1 implies has_name(after, (#[trigger] echoed[i]).name@) by {
        if i == upto {
            assert(after[place].name@ == echoed[i].name@);
        } else {
            assert(has_name(sorted, echoed[i].name@));
            let j = choose|j: int| 0 <= j < sorted.len() && (#[trigger] sorted[j]).name@ == echoed[i].name@;
            assert(after[j].name@ == echoed[i].name@);
        }
    }
    assert forall|j: int| 0 <= j < after.len() implies holds_last_value(
        echoed,
        upto + 1,
        #[trigger] after[j],
    ) by {
        if j == place {
            assert(is_last_of_name(echoed, upto + 1, upto, after[j].name@));
        } else {
            assert(holds_last_value(echoed, upto, sorted[j]));
            let index = choose|index: int| #[trigger]
                is_last_of_name(echoed, upto, index, sorted[j].name@) && sorted[j].value@
                    == echoed[index].value@;
            lemma_ascending_names_are_distinct(sorted, j, place);
            assert(is_last_of_name(echoed, upto + 1, index, after[j].name@));
        }
    }
}

/// Taking in a header whose name `sorted` does not have yet, at the place
/// that its name has in the order.
proof fn lemma_insert_keeps_sorted(
    sorted: Seq<EchoedHeader>,
    echoed: Seq<EchoedHeader>,
    upto: int,
    place: int,
)
    requires
        is_sorted_upto(sorted, echoed, upto),
        upto < echoed.len(),
        0 <= place <= sorted.len(),
        forall|j: int|
            0 <= j < place ==> spec_name_before((#[trigger] sorted[j]).name@, echoed[upto].name@),
        place < sorted.len() ==> spec_name_before(echoed[upto].name@, sorted[place].name@),
    ensures
        is_sorted_upto(sorted.insert(place, echoed[upto]), echoed, upto + 1),
{
    let entry = echoed[upto];
    let after = sorted.insert(place, entry);
    assert forall|j: int| place <= j < sorted.len() implies spec_name_before(
        entry.name@,
        (#[trigger] sorted[j]).name@,
    ) by {
        if j > place {
            assert(spec_name_before(sorted[place].name@, sorted[j].name@));
            lemma_bytes_before_is_transitive(
                encode_utf8(entry.name@),
                encode_utf8(sorted[place].name@),
                encode_utf8(sorted[j].name@),
            );
        }
    }
    assert forall|j: int| 0 <= j < sorted.len() implies (#[trigger] sorted[j]).name@
        != entry.name@ by {
        lemma_bytes_before_is_irreflexive(encode_utf8(entry.name@));
    }
    assert forall|a: int, b: int| 0 <= a < b < after.len() implies spec_name_before(
        (#[trigger] after[a]).name@,
        (#[trigger] after[b]).name@,
    ) by {
        if b < place {
            assert(spec_name_before(sorted[a].name@, sorted[b].name@));
        } else if b == place {
            assert(after[a] == sorted[a]);
        } else if a == place {
            assert(after[b] == sorted[b - 1]);
        } else if a < place {
            assert(after[b] == sorted[b - 1]);
            assert(spec_name_before(sorted[a].name@, sorted[b - 1].name@));
        } else {
            assert(after[a] == sorted[a - 1] && after[b] == sorted[b - 1]);
            assert(spec_name_before(sorted[a - 1].name@, sorted[b - 1].name@));
        }
    }
    assert forall|i: int| 0 <= i < upto + 1 implies has_name(after, (#[trigger] echoed[i]).name@) by {
        if i == upto {
            assert(after[place].name@ == echoed[i].name@);
        } else {
            assert(has_name(sorted, echoed[i].name@));
            let j = choose|j: int| 0 <= j < sorted.len() && (#[trigger] sorted[j]).name@ == echoed[i].name@;
            if j < place {
                assert(after[j].name@ == echoed[i].name@);
            } else {
                assert(after[j + 1].name@ == echoed[i].name@);
            }
        }
    }
    assert forall|j: int| 0 <= j < after.len() implies holds_last_value(
        echoed,
        upto + 1,
        #[trigger] after[j],
    ) by {
        if j == place {
            assert(is_last_of_name(echoed, upto + 1, upto, after[j].name@));
        } else {
            let old_place = if j < place {
                j
            } else {
                j - 1
            };
            assert(after[j] == sorted[old_place]);
            assert(holds_last_value(echoed, upto, sorted[old_place]));
            let index = choose|index: int| #[trigger]
                is_last_of_name(echoed, upto, index, sorted[old_place].name@)
                    && sorted[old_place].value@ == echoed[index].value@;
            assert(is_last_of_name(echoed, upto + 1, index, after[j].name@));
        }
    }
}

/// The headers `echoed` by name: the names in rising order, every name
/// that was sent and no other, and with each name the value that was sent
/// with it, the last where it was sent more than once.
pub fn sort_headers<'a>(echoed: &Vec<EchoedHeader<'a>>) -> (sorted: Vec<EchoedHeader<'a>>)
    ensures
        is_sorted_form(sorted@, echoed@),
{
    let mut sorted: Vec<EchoedHeader<'a>> = Vec::new();
    let mut index: usize = 0;
    while index < echoed.len()
        invariant
            index <= echoed.len(),
            is_sorted_upto(sorted@, echoed@, index as int),
        decreases echoed.len() - index,
    {
        let entry = echoed[index];
        let mut place: usize = 0;
        let mut found: bool = false;
        while place < sorted.len() && !found
            invariant
                place <= sorted.len(),
                index < echoed.len(),
                entry == echoed[index as int],
                forall|j: int|
                    0 <= j < place ==> spec_name_before((#[trigger] sorted[j]).name@, entry.name@),
                found ==> place < sorted.len() && !spec_name_before(
                    sorted[place as int].name@,
                    entry.name@,
                ),
            decreases sorted.len() - place + (if found { 0int } else { 1int }),
        {
            match order_names(sorted[place].name, entry.name) {
                NameOrder::Before => {
                    place = place + 1;
                },
                _ => {
                    found = true;
                },
            }
        }
        if place < sorted.len() && order_names(sorted[place].name, entry.name) == NameOrder::Same {
            proof {
                lemma_replace_keeps_sorted(sorted@, echoed@, index as int, place as int);
            }
            sorted.set(place, entry);
        } else {
            proof {
                lemma_insert_keeps_sorted(sorted@, echoed@, index as int, place as int);
            }
            sorted.insert(place, entry);
        }
        index = index + 1;
    }
    sorted
}

/// Header `index` is the last that was sent with the name `name`.
pub open spec fn is_last_sent_with_name(sent: Seq<RequestHeader>, index: int, name: Seq<char>) -> bool {
    &&& 0 <= index < sent.len()
    &&& sent[index].name@ == name
    &&& forall|later: int| index < later < sent.len() ==> (#[trigger] sent[later]).name@ != name
}

/// `entry` has the name of a header that was sent and the value that was
/// last sent with that name.
pub open spec fn echoes_last_sent(sent: Seq<RequestHeader>, entry: EchoedHeader) -> bool {
    exists|index: int| #[trigger]
        is_last_sent_with_name(sent, index, entry.name@) && entry.value@ == spec_echoed_value(
            sent[index],
        )
}

/// `sorted` holds the headers that were sent, by name: the names in rising
/// order, every name that was sent and no other, and with each name the
/// value that was sent with it, the last where it was sent more than once.
pub open spec fn is_sorted_echo(sorted: Seq<EchoedHeader>, sent: Seq<RequestHeader>) -> bool {
    &&& names_ascending(sorted)
    &&& forall|i: int| 0 <= i < sent.len() ==> has_name(sorted, (#[trigger] sent[i]).name@)
    &&& forall|j: int| 0 <= j < sorted.len() ==> echoes_last_sent(sent, #[trigger] sorted[j])
}

/// The headers of `request` by name, in the order of the names, each name
/// once.
pub fn sorted_headers<'a>(request: &'a HttpRequest) -> (sorted: Vec<EchoedHeader<'a>>)
    ensures
        is_sorted_echo(sorted@, request.head.headers@),
{
    let echoed = echo_headers(request);
    let sorted = sort_headers(&echoed);
    proof {
        let sent = request.head.headers@;
        assert forall|i: int| 0 <= i < sent.len() implies has_name(
            sorted@,
            (#[trigger] sent[i]).name@,
        ) by {
            assert(has_name(sorted@, echoed@[i].name@));
        }
        assert forall|j: int| 0 <= j < sorted@.len() implies echoes_last_sent(
            sent,
            #[trigger] sorted@[j],
        ) by {
            assert(holds_last_value(echoed@, echoed@.len() as int, sorted@[j]));
            let index = choose|index: int| #[trigger]
                is_last_of_name(echoed@, echoed@.len() as int, index, sorted@[j].name@)
                    && sorted@[j].value@ == echoed@[index].value@;
            assert(echoed@[index].name@ == sent[index].name@);
            assert forall|later: int| index < later < sent.len() implies (
            #[trigger] sent[later]).name@ != sorted@[j].name@ by {
                assert(echoed@[later].name@ != sorted@[j].name@);
            }
            assert(is_last_sent_with_name(sent, index, sorted@[j].name@));
        }
    }
    sorted
}

impl<'a> RequestInfoResponse<'a> {
    /// The echo of `request`: exactly the method, the path and the headers
    /// that the client sent, the headers by name.
    pub fn from_request(request: &'a HttpRequest) -> (response: Self)
        ensures
            response.request_fields.echoes(request),
            is_sorted_echo(response.request_headers@, request.head.headers@),
    {
        Self {
            request_fields: RequestFields::from_request(request),
            request_headers: sorted_headers(request),
        }
    }
}

} // verus!
