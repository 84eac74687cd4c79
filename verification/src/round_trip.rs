//! What holds of the AUTH codec as a whole: a packet that is written reads back
//! as itself, it takes as many bytes as its size says, and a property block is
//! read to exactly the length that it declares.

use crate::auth::{
    lemma_entries_len, spec_bytes_property, spec_read_auth, spec_read_entries, spec_read_properties,
    spec_read_property, spec_string_property, spec_user_properties, spec_user_properties_len,
    spec_user_property, spec_user_property_len, AuthPropertiesView, AuthReasonCode, AuthView,
    AUTH_CONTROL_BYTE,
};
use crate::error::Error;
use crate::fields::{
    lemma_bytes_round_trip, lemma_string_round_trip, spec_encode_bytes, spec_encode_string,
    MAX_FIELD_LENGTH,
};
use crate::header::{
    spec_check, spec_flags_allowed, spec_packet_type, spec_parse_fixed_header, FixedHeader,
    PacketType,
};
use crate::property::PropertyType;
use crate::varint::{
    lemma_encode_length_len, lemma_length_round_trip, spec_decode_length, spec_encode_length,
    spec_len_len, MAX_REMAINING_LENGTH,
};
use vstd::prelude::*;
use vstd::utf8::encode_utf8;

verus! {

/// Whether a string fits behind a 16-bit length prefix.
pub open spec fn text_fits(text: Seq<char>) -> bool {
    encode_utf8(text).len() <= MAX_FIELD_LENGTH
}

/// Whether both strings of every user property fit behind a length prefix.
pub open spec fn pairs_fit(pairs: Seq<(Seq<char>, Seq<char>)>) -> bool {
    forall|i: int|
        0 <= i < pairs.len() ==> text_fits((#[trigger] pairs[i]).0) && text_fits(pairs[i].1)
}

impl AuthPropertiesView {
    /// Whether every field fits behind its 16-bit length prefix. The encoding
    /// of a longer field does not announce its true length.
    pub open spec fn fields_fit(self) -> bool {
        &&& self.method matches Some(text) ==> text_fits(text)
        &&& self.data matches Some(data) ==> data.len() <= MAX_FIELD_LENGTH
        &&& self.reason_string matches Some(text) ==> text_fits(text)
        &&& pairs_fit(self.user_properties)
    }

    /// Whether no property is set.
    pub open spec fn is_empty(self) -> bool {
        &&& self.method is None
        &&& self.data is None
        &&& self.reason_string is None
        &&& self.user_properties.len() == 0
    }

    /// These properties with the user properties `pairs` added at the end.
    pub open spec fn with_user_properties(self, pairs: Seq<(Seq<char>, Seq<char>)>)
        -> AuthPropertiesView {
        AuthPropertiesView { user_properties: self.user_properties + pairs, ..self }
    }
}

impl AuthView {
    /// Whether the packet can be written so that it can be read again: its
    /// remaining length can be announced and every field fits behind its length
    /// prefix.
    pub open spec fn encodable(self) -> bool {
        &&& self.len() <= MAX_REMAINING_LENGTH
        &&& self.properties matches Some(properties) ==> properties.fields_fit()
    }

    /// The fixed header that the packet is written with.
    pub open spec fn header(self) -> FixedHeader {
        FixedHeader {
            byte1: AUTH_CONTROL_BYTE,
            fixed_header_len: (1 + spec_len_len(self.len())) as usize,
            remaining_len: self.len() as usize,
        }
    }
}

/// Properties take no bytes exactly when none is set.
pub proof fn lemma_len_zero_iff_empty(properties: AuthPropertiesView)
    ensures
        properties.len() == 0 <==> properties.is_empty(),
{
    if properties.user_properties.len() > 0 {
        assert(spec_user_properties_len(properties.user_properties) > 0);
    }
}

/// A method at the front of the block is read and set.
proof fn lemma_read_method(
    text: Seq<char>,
    rest: Seq<u8>,
    remaining: nat,
    properties: AuthPropertiesView,
)
    requires
        text_fits(text),
    ensures
        spec_read_entries(
            spec_string_property(PropertyType::AuthenticationMethod.spec_id(), Some(text)) + rest,
            1 + 2 + encode_utf8(text).len() + remaining,
            properties,
        ) == spec_read_entries(rest, remaining, properties.with_method(text)),
{
    let stream = spec_string_property(PropertyType::AuthenticationMethod.spec_id(), Some(text))
        + rest;
    let taken = 2 + encode_utf8(text).len();
    lemma_string_round_trip(text, rest);
    assert(stream.skip(1) =~= spec_encode_string(text) + rest);
    assert(stream.skip(1 + taken as int) =~= rest);
    assert(spec_read_property(stream, properties) == Ok::<(AuthPropertiesView, nat), Error>(
        (properties.with_method(text), taken as nat),
    ));
}

/// Authentication data at the front of the block is read and set.
proof fn lemma_read_data(
    data: Seq<u8>,
    rest: Seq<u8>,
    remaining: nat,
    properties: AuthPropertiesView,
)
    requires
        data.len() <= MAX_FIELD_LENGTH,
    ensures
        spec_read_entries(
            spec_bytes_property(PropertyType::AuthenticationData.spec_id(), Some(data)) + rest,
            1 + 2 + data.len() + remaining,
            properties,
        ) == spec_read_entries(rest, remaining, properties.with_data(data)),
{
    let stream = spec_bytes_property(PropertyType::AuthenticationData.spec_id(), Some(data)) + rest;
    let taken = 2 + data.len();
    lemma_bytes_round_trip(data, rest);
    assert(stream.skip(1) =~= spec_encode_bytes(data) + rest);
    assert(stream.skip(1 + taken as int) =~= rest);
    assert(spec_read_property(stream, properties) == Ok::<(AuthPropertiesView, nat), Error>(
        (properties.with_data(data), taken as nat),
    ));
}

/// A reason string at the front of the block is read and set.
proof fn lemma_read_reason_string(
    text: Seq<char>,
    rest: Seq<u8>,
    remaining: nat,
    properties: AuthPropertiesView,
)
    requires
        text_fits(text),
    ensures
        spec_read_entries(
            spec_string_property(PropertyType::ReasonString.spec_id(), Some(text)) + rest,
            1 + 2 + encode_utf8(text).len() + remaining,
            properties,
        ) == spec_read_entries(rest, remaining, properties.with_reason_string(text)),
{
    let stream = spec_string_property(PropertyType::ReasonString.spec_id(), Some(text)) + rest;
    let taken = 2 + encode_utf8(text).len();
    lemma_string_round_trip(text, rest);
    assert(stream.skip(1) =~= spec_encode_string(text) + rest);
    assert(stream.skip(1 + taken as int) =~= rest);
    assert(spec_read_property(stream, properties) == Ok::<(AuthPropertiesView, nat), Error>(
        (properties.with_reason_string(text), taken as nat),
    ));
}

/// A user property at the front of the block is read and added.
proof fn lemma_read_user_property(
    pair: (Seq<char>, Seq<char>),
    rest: Seq<u8>,
    remaining: nat,
    properties: AuthPropertiesView,
)
    requires
        text_fits(pair.0),
        text_fits(pair.1),
    ensures
        spec_read_entries(
            spec_user_property(pair) + rest,
            spec_user_property_len(pair) + remaining,
            properties,
        ) == spec_read_entries(rest, remaining, properties.with_user_property(pair.0, pair.1)),
{
    let stream = spec_user_property(pair) + rest;
    let key_len = encode_utf8(pair.0).len();
    let taken = 2 + key_len + 2 + encode_utf8(pair.1).len();
    lemma_string_round_trip(pair.0, spec_encode_string(pair.1) + rest);
    lemma_string_round_trip(pair.1, rest);
    assert(stream.skip(1) =~= spec_encode_string(pair.0) + (spec_encode_string(pair.1) + rest));
    assert(stream.skip(1 + 2 + key_len as int) =~= spec_encode_string(pair.1) + rest);
    assert(stream.skip(1 + taken as int) =~= rest);
    assert(spec_read_property(stream, properties) == Ok::<(AuthPropertiesView, nat), Error>(
        (properties.with_user_property(pair.0, pair.1), taken as nat),
    ));
}

/// These properties with the method set, if there is one to set.
spec fn maybe_with_method(properties: AuthPropertiesView, method: Option<Seq<char>>)
    -> AuthPropertiesView {
    match method {
        Some(text) => properties.with_method(text),
        None => properties,
    }
}

/// These properties with the authentication data set, if there is any to set.
spec fn maybe_with_data(properties: AuthPropertiesView, data: Option<Seq<u8>>)
    -> AuthPropertiesView {
    match data {
        Some(data) => properties.with_data(data),
        None => properties,
    }
}

/// These properties with the reason string set, if there is one to set.
spec fn maybe_with_reason_string(properties: AuthPropertiesView, reason: Option<Seq<char>>)
    -> AuthPropertiesView {
    match reason {
        Some(text) => properties.with_reason_string(text),
        None => properties,
    }
}

/// The number of bytes that a string property takes, and none when it is absent.
spec fn text_property_len(value: Option<Seq<char>>) -> nat {
    match value {
        Some(text) => 1 + 2 + encode_utf8(text).len(),
        None => 0,
    }
}

/// The number of bytes that a binary property takes, and none when it is absent.
spec fn data_property_len(value: Option<Seq<u8>>) -> nat {
    match value {
        Some(data) => 1 + 2 + data.len(),
        None => 0,
    }
}

/// What reading `declared` bytes of properties from `stream` comes to. It is
/// `spec_read_entries` under a name that a proof can carry along unopened.
#[verifier::opaque]
spec fn entries_outcome(stream: Seq<u8>, declared: nat, properties: AuthPropertiesView) -> Result<
    AuthPropertiesView,
    Error,
> {
    spec_read_entries(stream, declared, properties)
}

/// A method that may be absent is read and set if it is there.
proof fn lemma_read_optional_method(
    method: Option<Seq<char>>,
    rest: Seq<u8>,
    remaining: nat,
    properties: AuthPropertiesView,
)
    requires
        method matches Some(text) ==> text_fits(text),
    ensures
        entries_outcome(
            spec_string_property(PropertyType::AuthenticationMethod.spec_id(), method) + rest,
            text_property_len(method) + remaining,
            properties,
        ) == entries_outcome(
            rest,
            remaining,
            maybe_with_method(properties, method),
        ),
{
    reveal(entries_outcome);
    match method {
        Some(text) => {
            lemma_read_method(text, rest, remaining, properties);
        },
        None => {
            assert(spec_string_property(PropertyType::AuthenticationMethod.spec_id(), method)
                + rest =~= rest);
        },
    }
}

/// Authentication data that may be absent is read and set if it is there.
proof fn lemma_read_optional_data(
    data: Option<Seq<u8>>,
    rest: Seq<u8>,
    remaining: nat,
    properties: AuthPropertiesView,
)
    requires
        data matches Some(bytes) ==> bytes.len() <= MAX_FIELD_LENGTH,
    ensures
        entries_outcome(
            spec_bytes_property(PropertyType::AuthenticationData.spec_id(), data) + rest,
            data_property_len(data) + remaining,
            properties,
        ) == entries_outcome(
            rest,
            remaining,
            maybe_with_data(properties, data),
        ),
{
    reveal(entries_outcome);
    match data {
        Some(bytes) => {
            lemma_read_data(bytes, rest, remaining, properties);
        },
        None => {
            assert(spec_bytes_property(PropertyType::AuthenticationData.spec_id(), data) + rest
                =~= rest);
        },
    }
}

/// A reason string that may be absent is read and set if it is there.
proof fn lemma_read_optional_reason_string(
    reason: Option<Seq<char>>,
    rest: Seq<u8>,
    remaining: nat,
    properties: AuthPropertiesView,
)
    requires
        reason matches Some(text) ==> text_fits(text),
    ensures
        entries_outcome(
            spec_string_property(PropertyType::ReasonString.spec_id(), reason) + rest,
            text_property_len(reason) + remaining,
            properties,
        ) == entries_outcome(
            rest,
            remaining,
            maybe_with_reason_string(properties, reason),
        ),
{
    reveal(entries_outcome);
    match reason {
        Some(text) => {
            lemma_read_reason_string(text, rest, remaining, properties);
        },
        None => {
            assert(spec_string_property(PropertyType::ReasonString.spec_id(), reason) + rest
                =~= rest);
        },
    }
}

/// A user property at the front of the block is read and added.
proof fn lemma_user_property_outcome(
    pair: (Seq<char>, Seq<char>),
    rest: Seq<u8>,
    remaining: nat,
    properties: AuthPropertiesView,
)
    requires
        text_fits(pair.0),
        text_fits(pair.1),
    ensures
        entries_outcome(
            spec_user_property(pair) + rest,
            spec_user_property_len(pair) + remaining,
            properties,
        ) == entries_outcome(rest, remaining, properties.with_user_property(pair.0, pair.1)),
{
    reveal(entries_outcome);
    lemma_read_user_property(pair, rest, remaining, properties);
}

/// User properties at the front of the block are read and added in order.
proof fn lemma_read_optional_user_properties(
    pairs: Seq<(Seq<char>, Seq<char>)>,
    rest: Seq<u8>,
    remaining: nat,
    properties: AuthPropertiesView,
)
    requires
        pairs_fit(pairs),
    ensures
        entries_outcome(
            spec_user_properties(pairs) + rest,
            spec_user_properties_len(pairs) + remaining,
            properties,
        ) == entries_outcome(rest, remaining, properties.with_user_properties(pairs)),
    decreases pairs.len(),
{
    if pairs.len() == 0 {
        assert(spec_user_properties(pairs) + rest == rest) by {
            assert(spec_user_properties(pairs) + rest =~= rest);
        }
        assert(properties.with_user_properties(pairs) == properties) by {
            assert(properties.user_properties + pairs =~= properties.user_properties);
        }
    } else {
        let front = pairs.drop_last();
        let last = pairs.last();
        let tail = spec_user_property(last) + rest;
        let middle = properties.with_user_properties(front);
        assert(pairs_fit(front) && text_fits(last.0) && text_fits(last.1)) by {
            assert(pairs[pairs.len() - 1] == last);
            assert forall|i: int| 0 <= i < front.len() implies text_fits((#[trigger] front[i]).0)
                && text_fits(front[i].1) by {
                assert(front[i] == pairs[i]);
            }
        }
        assert(spec_user_properties(pairs) + rest == spec_user_properties(front) + tail) by {
            assert(spec_user_properties(pairs) + rest =~= spec_user_properties(front) + tail);
        }
        assert(middle.with_user_property(last.0, last.1) == properties.with_user_properties(
            pairs,
        )) by {
            assert(middle.user_properties.push(last) =~= properties.user_properties + pairs);
        }
        assert(spec_user_properties_len(pairs) + remaining == spec_user_properties_len(front) + (
        spec_user_property_len(last) + remaining));
        lemma_read_optional_user_properties(
            front,
            tail,
            spec_user_property_len(last) + remaining,
            properties,
        );
        lemma_user_property_outcome(last, rest, remaining, middle);
    }
}

/// Written properties and what follows them, one property after the other.
proof fn lemma_entries_split(properties: AuthPropertiesView, rest: Seq<u8>)
    ensures
        properties.entries() + rest == spec_string_property(
            PropertyType::AuthenticationMethod.spec_id(),
            properties.method,
        ) + (spec_bytes_property(PropertyType::AuthenticationData.spec_id(), properties.data) + (
        spec_string_property(PropertyType::ReasonString.spec_id(), properties.reason_string) + (
        spec_user_properties(properties.user_properties) + rest))),
{
    let a = spec_string_property(PropertyType::AuthenticationMethod.spec_id(), properties.method);
    let b = spec_bytes_property(PropertyType::AuthenticationData.spec_id(), properties.data);
    let c = spec_string_property(PropertyType::ReasonString.spec_id(), properties.reason_string);
    let d = spec_user_properties(properties.user_properties);
    assert(a + b + c + d + rest =~= a + (b + (c + (d + rest))));
}

/// The length of properties, one property after the other.
proof fn lemma_len_split(properties: AuthPropertiesView)
    ensures
        properties.len() == text_property_len(properties.method) + (data_property_len(
            properties.data,
        ) + (text_property_len(properties.reason_string) + spec_user_properties_len(
            properties.user_properties,
        ))),
{
}

/// Properties are what setting each of them on empty properties gives.
proof fn lemma_rebuild(properties: AuthPropertiesView)
    ensures
        maybe_with_reason_string(
            maybe_with_data(
                maybe_with_method(AuthPropertiesView::empty(), properties.method),
                properties.data,
            ),
            properties.reason_string,
        ).with_user_properties(properties.user_properties) == properties,
{
    let set = maybe_with_reason_string(
        maybe_with_data(
            maybe_with_method(AuthPropertiesView::empty(), properties.method),
            properties.data,
        ),
        properties.reason_string,
    );
    assert(set.user_properties + properties.user_properties =~= properties.user_properties);
}

/// The steps of reading written properties, one after the other.
proof fn lemma_written_entries_outcome(
    properties: AuthPropertiesView,
    rest: Seq<u8>,
    remaining: nat,
)
    requires
        properties.fields_fit(),
    ensures
        entries_outcome(
            properties.entries() + rest,
            properties.len() + remaining,
            AuthPropertiesView::empty(),
        ) == entries_outcome(rest, remaining, properties),
{
    let pairs = properties.user_properties;
    let pairs_len = spec_user_properties_len(pairs);
    let reason_len = text_property_len(properties.reason_string);
    let data_len = data_property_len(properties.data);

    let after_reason = spec_user_properties(pairs) + rest;
    let after_data = spec_string_property(
        PropertyType::ReasonString.spec_id(),
        properties.reason_string,
    ) + after_reason;
    let after_method = spec_bytes_property(
        PropertyType::AuthenticationData.spec_id(),
        properties.data,
    ) + after_data;

    let start = AuthPropertiesView::empty();
    let with_method = maybe_with_method(start, properties.method);
    let with_data = maybe_with_data(with_method, properties.data);
    let with_reason = maybe_with_reason_string(with_data, properties.reason_string);

    lemma_entries_split(properties, rest);
    lemma_len_split(properties);
    lemma_rebuild(properties);
    lemma_read_optional_method(
        properties.method,
        after_method,
        data_len + (reason_len + (pairs_len + remaining)),
        start,
    );
    lemma_read_optional_data(
        properties.data,
        after_data,
        reason_len + (pairs_len + remaining),
        with_method,
    );
    lemma_read_optional_reason_string(
        properties.reason_string,
        after_reason,
        pairs_len + remaining,
        with_data,
    );
    lemma_read_optional_user_properties(pairs, rest, remaining, with_reason);
}

/// Reading written properties sets each of them, whatever follows them in the
/// stream, and goes on with what follows.
proof fn lemma_read_written_entries(properties: AuthPropertiesView, rest: Seq<u8>, remaining: nat)
    requires
        properties.fields_fit(),
    ensures
        spec_read_entries(
            properties.entries() + rest,
            properties.len() + remaining,
            AuthPropertiesView::empty(),
        ) == spec_read_entries(rest, remaining, properties),
{
    reveal(entries_outcome);
    lemma_written_entries_outcome(properties, rest, remaining);
}

/// A written property block reads back as the properties that were written,
/// whatever follows it in the stream, and takes exactly the bytes that were
/// written. Properties of which none is set are written as a block that
/// declares no bytes, which reads back as no properties.
pub proof fn lemma_properties_round_trip(properties: AuthPropertiesView, rest: Seq<u8>)
    requires
        properties.fields_fit(),
        properties.len() <= MAX_REMAINING_LENGTH,
    ensures
        spec_read_properties(properties.encoding() + rest) == Ok::<
            (Option<AuthPropertiesView>, nat),
            Error,
        >(
            (
                if properties.is_empty() {
                    None
                } else {
                    Some(properties)
                },
                properties.encoding().len(),
            ),
        ),
        properties.encoding().len() == spec_len_len(properties.len()) + properties.len(),
{
    let stream = properties.encoding() + rest;
    let count = spec_len_len(properties.len());
    lemma_len_zero_iff_empty(properties);
    lemma_entries_len(properties);
    lemma_encode_length_len(properties.len());
    lemma_length_round_trip(properties.len(), properties.entries() + rest);
    assert(stream =~= spec_encode_length(properties.len()) + (properties.entries() + rest));
    assert(stream.skip(count as int) =~= properties.entries() + rest);
    lemma_read_written_entries(properties, rest, 0);
}

/// The round trip of the AUTH packet: the bytes that a packet is written as hold
/// a whole packet of type AUTH, and reading them gives the packet back,
/// whatever follows them in the stream. This holds of every packet that can be
/// written and whose properties are absent or have something set.
pub proof fn lemma_auth_round_trip(auth: AuthView, rest: Seq<u8>)
    requires
        auth.encodable(),
        auth.properties matches Some(properties) ==> !properties.is_empty(),
    ensures
        spec_check(auth.encoding() + rest) == Ok::<FixedHeader, Error>(auth.header()),
        spec_packet_type(auth.header().byte1) == Some(PacketType::Auth),
        spec_flags_allowed(PacketType::Auth, auth.header().byte1 % 16),
        spec_read_auth(auth.encoding() + rest, auth.header().fixed_header_len as nat) == Ok::<
            AuthView,
            Error,
        >(auth),
{
    lemma_auth_reads_back(auth, rest);
}

/// A packet as it reads back: itself, but that properties of which none is set
/// read back as absent.
pub open spec fn spec_read_back(auth: AuthView) -> AuthView {
    AuthView {
        reason: auth.reason,
        properties: match auth.properties {
            Some(properties) => if properties.is_empty() {
                None
            } else {
                Some(properties)
            },
            None => None,
        },
    }
}

/// The bytes of a written packet start with its fixed header and hold the
/// whole packet.
proof fn lemma_written_header(auth: AuthView, rest: Seq<u8>)
    requires
        auth.len() <= MAX_REMAINING_LENGTH,
    ensures
        spec_parse_fixed_header(auth.encoding() + rest) == Ok::<FixedHeader, Error>(auth.header()),
        spec_check(auth.encoding() + rest) == Ok::<FixedHeader, Error>(auth.header()),
        auth.encoding().len() == 1 + spec_len_len(auth.len()) + auth.len(),
{
    let stream = auth.encoding() + rest;
    let body = seq![auth.reason.spec_byte()] + auth.block() + rest;
    lemma_auth_size(auth);
    lemma_length_round_trip(auth.len(), body);
    assert(stream.skip(1) == spec_encode_length(auth.len()) + body) by {
        assert(stream.skip(1) =~= spec_encode_length(auth.len()) + body);
    }
    assert(stream[0] == AUTH_CONTROL_BYTE);
    assert(stream.len() >= 2);
}

/// The property block of a written packet reads back, whatever follows it.
proof fn lemma_written_block(auth: AuthView, rest: Seq<u8>)
    requires
        auth.encodable(),
    ensures
        spec_read_properties(auth.block() + rest) matches Ok((properties, _)) && properties
            == spec_read_back(auth).properties,
{
    match auth.properties {
        Some(properties) => {
            lemma_entries_len(properties);
            lemma_properties_round_trip(properties, rest);
        },
        None => {
            lemma_length_round_trip(0, rest);
        },
    }
}

/// Where the reason code and the property block stand in a written packet.
proof fn lemma_written_layout(auth: AuthView, rest: Seq<u8>)
    requires
        auth.len() <= MAX_REMAINING_LENGTH,
    ensures
        1 + spec_len_len(auth.len()) < (auth.encoding() + rest).len(),
        (auth.encoding() + rest)[1 + spec_len_len(auth.len()) as int] == auth.reason.spec_byte(),
        (auth.encoding() + rest).skip(1 + spec_len_len(auth.len()) as int + 1) == auth.block()
            + rest,
{
    let stream = auth.encoding() + rest;
    let offset = 1 + spec_len_len(auth.len());
    lemma_encode_length_len(auth.len());
    assert(stream.skip(offset as int + 1) =~= auth.block() + rest);
}

/// A stream with a reason code at `offset` and a property block after it holds
/// the AUTH packet with that reason code and those properties.
proof fn lemma_read_auth_from_parts(
    stream: Seq<u8>,
    offset: nat,
    reason: AuthReasonCode,
    properties: Option<AuthPropertiesView>,
)
    requires
        offset < stream.len(),
        stream[offset as int] == reason.spec_byte(),
        spec_read_properties(stream.skip(offset as int + 1)) matches Ok((read, _)) && read
            == properties,
    ensures
        spec_read_auth(stream, offset) == Ok::<AuthView, Error>(AuthView { reason, properties }),
{
}

/// A written packet reads back from the offset that its header gives.
proof fn lemma_written_body(auth: AuthView, rest: Seq<u8>)
    requires
        auth.encodable(),
    ensures
        spec_read_auth(auth.encoding() + rest, 1 + spec_len_len(auth.len())) == Ok::<
            AuthView,
            Error,
        >(spec_read_back(auth)),
{
    lemma_written_layout(auth, rest);
    lemma_written_block(auth, rest);
    lemma_read_auth_from_parts(
        auth.encoding() + rest,
        1 + spec_len_len(auth.len()),
        auth.reason,
        spec_read_back(auth).properties,
    );
}

/// What a written AUTH packet reads back as, for every packet that can be
/// written: itself, but that properties of which none is set read back as
/// absent.
pub proof fn lemma_auth_reads_back(auth: AuthView, rest: Seq<u8>)
    requires
        auth.encodable(),
    ensures
        spec_check(auth.encoding() + rest) == Ok::<FixedHeader, Error>(auth.header()),
        spec_packet_type(auth.header().byte1) == Some(PacketType::Auth),
        spec_flags_allowed(PacketType::Auth, auth.header().byte1 % 16),
        spec_read_auth(auth.encoding() + rest, auth.header().fixed_header_len as nat) == Ok::<
            AuthView,
            Error,
        >(spec_read_back(auth)),
{
    lemma_written_header(auth, rest);
    lemma_written_body(auth, rest);
}

/// The size of a packet is the number of bytes that it is written as, for every
/// packet that can be written.
pub proof fn lemma_auth_size(auth: AuthView)
    requires
        auth.len() <= MAX_REMAINING_LENGTH,
    ensures
        auth.encoding().len() == auth.size(),
        auth.block().len() == auth.block_len(),
{
    lemma_encode_length_len(auth.len());
    match auth.properties {
        Some(properties) => {
            lemma_entries_len(properties);
            lemma_encode_length_len(properties.len());
        },
        None => {
            lemma_encode_length_len(0);
        },
    }
}

/// A byte is the byte of a reason code exactly when it stands for that reason
/// code: every other byte stands for none.
pub proof fn lemma_reason_code_bytes(reason: AuthReasonCode, byte: u8)
    ensures
        AuthReasonCode::spec_from_byte(reason.spec_byte()) == Some(reason),
        AuthReasonCode::spec_from_byte(byte) == Some(reason) <==> byte == reason.spec_byte(),
        byte != 0x00 && byte != 0x18 && byte != 0x19 ==> AuthReasonCode::spec_from_byte(byte)
            is None,
{
}

/// A property that is read takes no more bytes than the stream holds.
pub proof fn lemma_property_within_stream(stream: Seq<u8>, properties: AuthPropertiesView)
    ensures
        spec_read_property(stream, properties) matches Ok((_, taken)) ==> 1 + taken
            <= stream.len(),
{
    if stream.len() > 0 {
        let id = stream[0];
        if id == PropertyType::UserProperty.spec_id() {
            if let Ok(key) = crate::fields::spec_decode_string(stream.skip(1)) {
                lemma_string_within_stream(stream.skip(1));
                lemma_string_within_stream(stream.skip(1 + 2 + encode_utf8(key).len() as int));
            }
        } else if id == PropertyType::AuthenticationData.spec_id() {
        } else {
            lemma_string_within_stream(stream.skip(1));
        }
    }
}

/// A decoded string takes no more bytes than the stream holds.
proof fn lemma_string_within_stream(stream: Seq<u8>)
    ensures
        crate::fields::spec_decode_string(stream) matches Ok(text) ==> 2 + encode_utf8(text).len()
            <= stream.len(),
{
    if let Ok(data) = crate::fields::spec_decode_bytes(stream) {
        if vstd::utf8::valid_utf8(data) {
            vstd::utf8::decode_utf8_encode_utf8(data);
        }
    }
}

/// A block that is read with success holds all the bytes that it declares: the
/// properties that were read take exactly the declared length.
pub proof fn lemma_entries_fill_declared(
    stream: Seq<u8>,
    declared: nat,
    properties: AuthPropertiesView,
)
    ensures
        spec_read_entries(stream, declared, properties) is Ok ==> declared <= stream.len(),
    decreases declared,
{
    if declared > 0 {
        lemma_property_within_stream(stream, properties);
        if let Ok((next, taken)) = spec_read_property(stream, properties) {
            if 1 + taken <= declared {
                lemma_entries_fill_declared(
                    stream.skip(1 + taken as int),
                    (declared - 1 - taken) as nat,
                    next,
                );
            }
        }
    }
}

/// A declared length that ends inside a property is refused.
pub proof fn lemma_declared_inside_property(
    stream: Seq<u8>,
    declared: nat,
    properties: AuthPropertiesView,
)
    requires
        spec_read_property(stream, properties) matches Ok((_, taken)) && 0 < declared < 1 + taken,
    ensures
        spec_read_entries(stream, declared, properties) == Err::<AuthPropertiesView, Error>(
            Error::MalformedPacket,
        ),
{
}

/// A block that declares more bytes than the properties written into it take,
/// with nothing after them in the stream, is refused.
pub proof fn lemma_declared_past_properties(properties: AuthPropertiesView, declared: nat)
    requires
        properties.fields_fit(),
        properties.len() < declared <= MAX_REMAINING_LENGTH,
    ensures
        spec_read_properties(spec_encode_length(declared) + properties.entries()) == Err::<
            (Option<AuthPropertiesView>, nat),
            Error,
        >(Error::MalformedPacket),
{
    let stream = spec_encode_length(declared) + properties.entries();
    let nothing = Seq::<u8>::empty();
    lemma_length_round_trip(declared, properties.entries());
    assert(stream.skip(spec_len_len(declared) as int) =~= properties.entries() + nothing) by {
        lemma_encode_length_len(declared);
    }
    lemma_read_written_entries(properties, nothing, (declared - properties.len()) as nat);
}

} // verus!
