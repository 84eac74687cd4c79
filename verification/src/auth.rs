//! The AUTH packet, which carries one step of an extended authentication
//! exchange: a reason code and a block of properties.

use crate::buffers::{
    bytes_advance, bytes_as_slice, bytes_content, bytes_len, bytes_mut_content, bytes_mut_put_u8,
};
use crate::error::Error;
use crate::fields::{
    read_mqtt_bytes, read_mqtt_string, read_u8, spec_decode_bytes, spec_decode_string,
    spec_encode_bytes, spec_encode_string, write_mqtt_bytes, write_mqtt_string, MAX_FIELD_LENGTH,
};
use crate::header::FixedHeader;
use crate::property::{property, PropertyType};
use crate::varint::{
    len_len, length, spec_decode_length, spec_encode_length, spec_len_len, write_remaining_length,
    MAX_REMAINING_LENGTH,
};
use bytes::{Bytes, BytesMut};
use vstd::prelude::*;
use vstd::utf8::encode_utf8;

verus! {

/// The control byte of an AUTH packet.
pub const AUTH_CONTROL_BYTE: u8 = 0xF0;

/// Auth packet reason code
#[derive(Debug, Clone, PartialEq, Eq)]
pub enum AuthReasonCode {
    Success,
    Continue,
    ReAuthenticate,
}

impl AuthReasonCode {
    /// The byte that stands for the reason code on the wire.
    pub open spec fn spec_byte(self) -> u8 {
        match self {
            AuthReasonCode::Success => 0x00,
            AuthReasonCode::Continue => 0x18,
            AuthReasonCode::ReAuthenticate => 0x19,
        }
    }

    /// The reason code that a byte stands for, if it stands for one.
    pub open spec fn spec_from_byte(byte: u8) -> Option<AuthReasonCode> {
        if byte == 0x00 {
            Some(AuthReasonCode::Success)
        } else if byte == 0x18 {
            Some(AuthReasonCode::Continue)
        } else if byte == 0x19 {
            Some(AuthReasonCode::ReAuthenticate)
        } else {
            None
        }
    }

    /// Takes a reason code off the front of `bytes`. A byte that stands for none
    /// is refused.
    pub fn read(bytes: &mut Bytes) -> (r: Result<AuthReasonCode, Error>)
        ensures
            match r {
                Ok(code) => bytes_content(*old(bytes)).len() >= 1 && Self::spec_from_byte(
                    bytes_content(*old(bytes))[0],
                ) == Some(code) && bytes_content(*final(bytes)) == bytes_content(*old(bytes)).skip(
                    1,
                ),
                Err(e) => e == Error::MalformedPacket && (if bytes_content(*old(bytes)).len() == 0 {
                    bytes_content(*final(bytes)) == bytes_content(*old(bytes))
                } else {
                    Self::spec_from_byte(bytes_content(*old(bytes))[0]) is None && bytes_content(
                        *final(bytes),
                    ) == bytes_content(*old(bytes)).skip(1)
                }),
            },
    {
        let reason_code = match read_u8(bytes) {
            Ok(v) => v,
            Err(e) => { return Err(e); },
        };
        let code = match reason_code {
            0x00 => AuthReasonCode::Success,
            0x18 => AuthReasonCode::Continue,
            0x19 => AuthReasonCode::ReAuthenticate,
            _ => { return Err(Error::MalformedPacket); },
        };
        Ok(code)
    }

    /// Appends the byte of the reason code to `buffer`.
    pub fn write(&self, buffer: &mut BytesMut) -> (r: Result<(), Error>)
        requires
            bytes_mut_content(*old(buffer)).len() + 1 <= isize::MAX,
        ensures
            r is Ok,
            bytes_mut_content(*final(buffer)) == bytes_mut_content(*old(buffer)).push(
                self.spec_byte(),
            ),
    {
        let reason_code = match self {
            AuthReasonCode::Success => 0x00,
            AuthReasonCode::Continue => 0x18,
            AuthReasonCode::ReAuthenticate => 0x19,
        };
        bytes_mut_put_u8(buffer, reason_code);
        Ok(())
    }
}

/// The properties of an AUTH packet as plain values: strings as their
/// characters, the authentication data as its bytes.
pub struct AuthPropertiesView {
    pub method: Option<Seq<char>>,
    pub data: Option<Seq<u8>>,
    pub reason_string: Option<Seq<char>>,
    pub user_properties: Seq<(Seq<char>, Seq<char>)>,
}

/// The encoding of a string property that may be absent: nothing, or the
/// identifier and the string.
pub open spec fn spec_string_property(id: u8, value: Option<Seq<char>>) -> Seq<u8> {
    match value {
        None => Seq::empty(),
        Some(text) => seq![id] + spec_encode_string(text),
    }
}

/// The encoding of a binary property that may be absent: nothing, or the
/// identifier and the byte string.
pub open spec fn spec_bytes_property(id: u8, value: Option<Seq<u8>>) -> Seq<u8> {
    match value {
        None => Seq::empty(),
        Some(data) => seq![id] + spec_encode_bytes(data),
    }
}

/// The encoding of one user property: the identifier, the key and the value.
pub open spec fn spec_user_property(pair: (Seq<char>, Seq<char>)) -> Seq<u8> {
    seq![PropertyType::UserProperty.spec_id()] + spec_encode_string(pair.0) + spec_encode_string(
        pair.1,
    )
}

/// The encoding of a list of user properties: one after the other, in order.
pub open spec fn spec_user_properties(pairs: Seq<(Seq<char>, Seq<char>)>) -> Seq<u8>
    decreases pairs.len(),
{
    if pairs.len() == 0 {
        Seq::empty()
    } else {
        spec_user_properties(pairs.drop_last()) + spec_user_property(pairs.last())
    }
}

/// The number of bytes that a string or binary property takes when its value
/// has `value_len` bytes, and none when it is absent.
pub open spec fn spec_property_len(value_len: Option<nat>) -> nat {
    match value_len {
        None => 0,
        Some(n) => 1 + 2 + n,
    }
}

/// The number of bytes that one user property takes.
pub open spec fn spec_user_property_len(pair: (Seq<char>, Seq<char>)) -> nat {
    1 + 2 + encode_utf8(pair.0).len() + 2 + encode_utf8(pair.1).len()
}

/// The number of bytes that a list of user properties takes.
pub open spec fn spec_user_properties_len(pairs: Seq<(Seq<char>, Seq<char>)>) -> nat
    decreases pairs.len(),
{
    if pairs.len() == 0 {
        0
    } else {
        spec_user_properties_len(pairs.drop_last()) + spec_user_property_len(pairs.last())
    }
}

impl AuthPropertiesView {
    /// Properties with nothing set.
    pub open spec fn empty() -> AuthPropertiesView {
        AuthPropertiesView {
            method: None,
            data: None,
            reason_string: None,
            user_properties: Seq::empty(),
        }
    }

    /// The number of bytes that the properties take, without the length that
    /// goes before them.
    pub open spec fn len(self) -> nat {
        spec_property_len(
            match self.method {
                Some(text) => Some(encode_utf8(text).len()),
                None => None,
            },
        ) + spec_property_len(
            match self.data {
                Some(data) => Some(data.len()),
                None => None,
            },
        ) + spec_property_len(
            match self.reason_string {
                Some(text) => Some(encode_utf8(text).len()),
                None => None,
            },
        ) + spec_user_properties_len(self.user_properties)
    }

    /// The properties one after the other, in the order in which they are
    /// written: method, data, reason string, user properties.
    pub open spec fn entries(self) -> Seq<u8> {
        spec_string_property(PropertyType::AuthenticationMethod.spec_id(), self.method)
            + spec_bytes_property(PropertyType::AuthenticationData.spec_id(), self.data)
            + spec_string_property(PropertyType::ReasonString.spec_id(), self.reason_string)
            + spec_user_properties(self.user_properties)
    }

    /// The property block: the length of the properties, then the properties.
    pub open spec fn encoding(self) -> Seq<u8> {
        spec_encode_length(self.len()) + self.entries()
    }
}

/// A list of user properties takes as many bytes as its length says.
pub proof fn lemma_user_properties_len(pairs: Seq<(Seq<char>, Seq<char>)>)
    ensures
        spec_user_properties(pairs).len() == spec_user_properties_len(pairs),
    decreases pairs.len(),
{
    if pairs.len() > 0 {
        lemma_user_properties_len(pairs.drop_last());
    }
}

/// The first user properties of a list take no more bytes than all of them.
pub proof fn lemma_user_properties_len_prefix(pairs: Seq<(Seq<char>, Seq<char>)>, count: int)
    requires
        0 <= count <= pairs.len(),
    ensures
        spec_user_properties_len(pairs.take(count)) <= spec_user_properties_len(pairs),
    decreases pairs.len(),
{
    if count == pairs.len() {
        assert(pairs.take(count) =~= pairs);
    } else {
        lemma_user_properties_len_prefix(pairs.drop_last(), count);
        assert(pairs.drop_last().take(count) =~= pairs.take(count));
    }
}

/// The properties take as many bytes as their length says.
pub proof fn lemma_entries_len(properties: AuthPropertiesView)
    ensures
        properties.entries().len() == properties.len(),
{
    lemma_user_properties_len(properties.user_properties);
}

impl AuthPropertiesView {
    /// These properties with the method set.
    pub open spec fn with_method(self, text: Seq<char>) -> AuthPropertiesView {
        AuthPropertiesView { method: Some(text), ..self }
    }

    /// These properties with the authentication data set.
    pub open spec fn with_data(self, data: Seq<u8>) -> AuthPropertiesView {
        AuthPropertiesView { data: Some(data), ..self }
    }

    /// These properties with the reason string set.
    pub open spec fn with_reason_string(self, text: Seq<char>) -> AuthPropertiesView {
        AuthPropertiesView { reason_string: Some(text), ..self }
    }

    /// These properties with one more user property at the end.
    pub open spec fn with_user_property(self, key: Seq<char>, value: Seq<char>)
        -> AuthPropertiesView {
        AuthPropertiesView { user_properties: self.user_properties.push((key, value)), ..self }
    }
}

/// The property at the front of `stream`, set on `properties`, and the number of
/// bytes that it takes after its identifier. A property that comes a second time
/// replaces the first, but for user properties, which add up in order. An
/// identifier that an AUTH packet does not allow is refused.
pub open spec fn spec_read_property(stream: Seq<u8>, properties: AuthPropertiesView) -> Result<
    (AuthPropertiesView, nat),
    Error,
> {
    if stream.len() == 0 {
        Err(Error::MalformedPacket)
    } else if stream[0] == PropertyType::AuthenticationMethod.spec_id() {
        match spec_decode_string(stream.skip(1)) {
            Err(e) => Err(e),
            Ok(text) => Ok((properties.with_method(text), 2 + encode_utf8(text).len())),
        }
    } else if stream[0] == PropertyType::AuthenticationData.spec_id() {
        match spec_decode_bytes(stream.skip(1)) {
            Err(e) => Err(e),
            Ok(data) => Ok((properties.with_data(data), 2 + data.len())),
        }
    } else if stream[0] == PropertyType::ReasonString.spec_id() {
        match spec_decode_string(stream.skip(1)) {
            Err(e) => Err(e),
            Ok(text) => Ok((properties.with_reason_string(text), 2 + encode_utf8(text).len())),
        }
    } else if stream[0] == PropertyType::UserProperty.spec_id() {
        match spec_decode_string(stream.skip(1)) {
            Err(e) => Err(e),
            Ok(key) => match spec_decode_string(
                stream.skip(1 + 2 + encode_utf8(key).len() as int),
            ) {
                Err(e) => Err(e),
                Ok(value) => Ok(
                    (
                        properties.with_user_property(key, value),
                        2 + encode_utf8(key).len() + 2 + encode_utf8(value).len(),
                    ),
                ),
            },
        }
    } else {
        Err(Error::InvalidPropertyType(stream[0]))
    }
}

/// The properties that the next `declared` bytes of `stream` hold, set one
/// after the other on `properties`. The last property has to end where the
/// declared length ends: one that reaches past it makes the block malformed.
pub open spec fn spec_read_entries(
    stream: Seq<u8>,
    declared: nat,
    properties: AuthPropertiesView,
) -> Result<AuthPropertiesView, Error>
    decreases declared,
{
    if declared == 0 {
        Ok(properties)
    } else {
        match spec_read_property(stream, properties) {
            Err(e) => Err(e),
            Ok((next, taken)) => if 1 + taken > declared {
                Err(Error::MalformedPacket)
            } else {
                spec_read_entries(
                    stream.skip(1 + taken as int),
                    (declared - 1 - taken) as nat,
                    next,
                )
            },
        }
    }
}

/// The property block at the front of `stream` and the number of bytes that it
/// takes: the bytes of the declared length and as many bytes as it declares. A
/// block that declares no bytes holds no properties.
pub open spec fn spec_read_properties(stream: Seq<u8>) -> Result<
    (Option<AuthPropertiesView>, nat),
    Error,
> {
    match spec_decode_length(stream) {
        Err(e) => Err(e),
        Ok((count, declared)) => if declared == 0 {
            Ok((None, count))
        } else {
            match spec_read_entries(
                stream.skip(count as int),
                declared,
                AuthPropertiesView::empty(),
            ) {
                Err(e) => Err(e),
                Ok(properties) => Ok((Some(properties), count + declared)),
            }
        },
    }
}

/// The user properties of a list of string pairs, as plain values.
pub open spec fn spec_pairs(pairs: Seq<(String, String)>) -> Seq<(Seq<char>, Seq<char>)> {
    Seq::new(pairs.len(), |i: int| (pairs[i].0@, pairs[i].1@))
}

/// The plain value of a string that may be absent.
pub open spec fn spec_text(value: Option<String>) -> Option<Seq<char>> {
    match value {
        Some(text) => Some(text@),
        None => None,
    }
}

/// The plain value of a byte buffer that may be absent.
pub open spec fn spec_data(value: Option<Bytes>) -> Option<Seq<u8>> {
    match value {
        Some(data) => Some(bytes_content(data)),
        None => None,
    }
}

/// The properties of an AUTH packet.
#[derive(Debug, Clone, PartialEq, Eq)]
pub struct AuthProperties {
    /// Method of authentication
    pub method: Option<String>,
    /// Authentication data
    pub data: Option<Bytes>,
    /// Reason for disconnection
    pub reason_string: Option<String>,
    /// List of user properties
    pub user_properties: Vec<(String, String)>,
}

impl View for AuthProperties {
    type V = AuthPropertiesView;

    open spec fn view(&self) -> AuthPropertiesView {
        AuthPropertiesView {
            method: spec_text(self.method),
            data: spec_data(self.data),
            reason_string: spec_text(self.reason_string),
            user_properties: spec_pairs(self.user_properties@),
        }
    }
}

impl Default for AuthProperties {
    fn default() -> (properties: AuthProperties)
        ensures
            properties@ == AuthPropertiesView::empty(),
    {
        let properties = AuthProperties {
            method: None,
            data: None,
            reason_string: None,
            user_properties: Vec::new(),
        };
        assert(properties@.user_properties =~= Seq::empty());
        properties
    }
}

impl AuthProperties {
    /// The number of bytes that the properties take, without the length that
    /// goes before them.
    fn len(&self) -> (len: usize)
        requires
            self@.len() <= usize::MAX,
        ensures
            len == self@.len(),
    {
        let mut len: usize = 0;

        if let Some(method) = &self.method {
            len += 1 + 2 + method.as_str().len();
        }
        if let Some(data) = &self.data {
            len += 1 + 2 + bytes_len(data);
        }
        if let Some(reason) = &self.reason_string {
            len += 1 + 2 + reason.as_str().len();
        }
        let ghost fixed = len as nat;
        let mut i: usize = 0;
        while i < self.user_properties.len()
            invariant
                i <= self.user_properties@.len(),
                self@.len() <= usize::MAX,
                self@.len() == fixed + spec_user_properties_len(self@.user_properties),
                len == fixed + spec_user_properties_len(self@.user_properties.take(i as int)),
            decreases self.user_properties@.len() - i,
        {
            let key = &self.user_properties[i].0;
            let value = &self.user_properties[i].1;
            proof {
                let pairs = self@.user_properties;
                lemma_user_properties_len_prefix(pairs, i + 1);
                assert(pairs.take(i + 1).drop_last() =~= pairs.take(i as int));
                assert(pairs.take(i + 1).last() == (key@, value@));
            }
            len += 1 + 2 + key.as_str().len() + 2 + value.as_str().len();
            i += 1;
        }
        proof {
            assert(self@.user_properties.take(i as int) =~= self@.user_properties);
        }
        len
    }

    /// Takes a property block off the front of `bytes`. A block that declares
    /// no bytes gives no properties. Otherwise properties are read until the
    /// declared number of bytes is used up, and the last one has to end exactly
    /// there.
    pub fn read(bytes: &mut Bytes) -> (r: Result<Option<AuthProperties>, Error>)
        ensures
            match r {
                Ok(properties) => spec_read_properties(bytes_content(*old(bytes))) matches Ok(
                    (expected, taken),
                ) && spec_view(properties) == expected && bytes_content(*final(bytes))
                    == bytes_content(*old(bytes)).skip(taken as int),
                Err(e) => spec_read_properties(bytes_content(*old(bytes))) == Err::<
                    (Option<AuthPropertiesView>, nat),
                    Error,
                >(e),
            },
            r is Ok ==> (spec_decode_length(bytes_content(*old(bytes))) matches Ok(
                (count, declared),
            ) && bytes_content(*final(bytes)) == bytes_content(*old(bytes)).skip(
                count + declared as int,
            )),
    {
        let (properties_len_len, properties_len) = match length(bytes_as_slice(bytes)) {
            Ok(pair) => pair,
            Err(e) => { return Err(e); },
        };
        bytes_advance(bytes, properties_len_len);
        if properties_len == 0 {
            return Ok(None);
        }
        let mut props = AuthProperties::default();
        let ghost block = bytes_content(*bytes);
        let ghost outcome = spec_read_entries(
            block,
            properties_len as nat,
            AuthPropertiesView::empty(),
        );

        let mut cursor: usize = 0;
        // read until cursor reaches property length
        while cursor < properties_len
            invariant
                0 < properties_len,
                spec_decode_length(bytes_content(*old(bytes))) == Ok::<(nat, nat), Error>(
                    (properties_len_len as nat, properties_len as nat),
                ),
                block == bytes_content(*old(bytes)).skip(properties_len_len as int),
                outcome == spec_read_entries(
                    block,
                    properties_len as nat,
                    AuthPropertiesView::empty(),
                ),
                cursor <= properties_len <= MAX_REMAINING_LENGTH,
                cursor <= block.len(),
                bytes_content(*bytes) == block.skip(cursor as int),
                spec_read_entries(
                    bytes_content(*bytes),
                    (properties_len - cursor) as nat,
                    props@,
                ) == outcome,
            decreases properties_len - cursor,
        {
            let ghost stream = bytes_content(*bytes);
            let taken = match read_property(bytes, &mut props) {
                Ok(taken) => taken,
                Err(e) => { return Err(e); },
            };
            if 1 + taken > properties_len - cursor {
                return Err(Error::MalformedPacket);
            }
            assert(stream.skip(1 + taken) =~= block.skip(cursor + 1 + taken));
            cursor += 1 + taken;
        }
        proof {
            assert(block.skip(cursor as int) =~= bytes_content(*old(bytes)).skip(
                properties_len_len + properties_len,
            ));
        }
        Ok(Some(props))
    }

    /// Appends the property block to `buffer`: the length of the properties,
    /// then each property that is set, in the order method, data, reason
    /// string, user properties. Properties longer than a length can announce are
    /// refused, and nothing is written.
    pub fn write(&self, buffer: &mut BytesMut) -> (r: Result<(), Error>)
        requires
            bytes_mut_content(*old(buffer)).len() + spec_len_len(self@.len()) + self@.len()
                <= isize::MAX,
        ensures
            match r {
                Ok(()) => self@.len() <= MAX_REMAINING_LENGTH && bytes_mut_content(*final(buffer))
                    == bytes_mut_content(*old(buffer)) + self@.encoding(),
                Err(e) => self@.len() > MAX_REMAINING_LENGTH && e == Error::PayloadTooLong
                    && bytes_mut_content(*final(buffer)) == bytes_mut_content(*old(buffer)),
            },
    {
        let len = self.len();
        match write_remaining_length(buffer, len) {
            Ok(_) => {},
            Err(e) => { return Err(e); },
        }
        proof {
            lemma_user_properties_len(self@.user_properties);
            crate::varint::lemma_encode_length_len(self@.len());
        }
        let ghost start = bytes_mut_content(*buffer);
        write_string_property(buffer, PropertyType::AuthenticationMethod, &self.method);
        write_bytes_property(buffer, PropertyType::AuthenticationData, &self.data);
        write_string_property(buffer, PropertyType::ReasonString, &self.reason_string);
        write_user_properties(buffer, &self.user_properties);
        proof {
            assert(bytes_mut_content(*buffer) =~= start + self@.entries());
            assert(start + self@.entries() =~= bytes_mut_content(*old(buffer))
                + self@.encoding());
        }
        Ok(())
    }
}

/// An AUTH packet as plain values.
pub struct AuthView {
    pub reason: AuthReasonCode,
    pub properties: Option<AuthPropertiesView>,
}

impl AuthView {
    /// The number of bytes that the property block takes, its length included.
    /// A packet without properties still carries a block, which declares no
    /// bytes.
    pub open spec fn block_len(self) -> nat {
        match self.properties {
            None => 1,
            Some(properties) => spec_len_len(properties.len()) + properties.len(),
        }
    }

    /// The property block.
    pub open spec fn block(self) -> Seq<u8> {
        match self.properties {
            None => spec_encode_length(0),
            Some(properties) => properties.encoding(),
        }
    }

    /// The remaining length of the packet: the reason code and the property
    /// block.
    pub open spec fn len(self) -> nat {
        1 + self.block_len()
    }

    /// The number of bytes that the whole packet takes: the control byte, the
    /// remaining length and what it announces.
    pub open spec fn size(self) -> nat {
        1 + spec_len_len(self.len()) + self.len()
    }

    /// The packet on the wire: the control byte, the remaining length, the
    /// reason code and the property block.
    pub open spec fn encoding(self) -> Seq<u8> {
        seq![AUTH_CONTROL_BYTE] + spec_encode_length(self.len()) + seq![self.reason.spec_byte()]
            + self.block()
    }
}

/// The AUTH packet whose variable header begins `offset` bytes into `stream`:
/// its reason code, then its property block. What follows the block is not
/// looked at.
pub open spec fn spec_read_auth(stream: Seq<u8>, offset: nat) -> Result<AuthView, Error> {
    if offset > stream.len() {
        Err(Error::InsufficientBytes((offset - stream.len()) as usize))
    } else if offset == stream.len() {
        Err(Error::MalformedPacket)
    } else {
        match AuthReasonCode::spec_from_byte(stream[offset as int]) {
            None => Err(Error::MalformedPacket),
            Some(reason) => match spec_read_properties(stream.skip(offset as int + 1)) {
                Err(e) => Err(e),
                Ok((properties, _)) => Ok(AuthView { reason, properties }),
            },
        }
    }
}

/// The plain value of properties that may be absent.
pub open spec fn spec_view(properties: Option<AuthProperties>) -> Option<AuthPropertiesView> {
    match properties {
        Some(properties) => Some(properties@),
        None => None,
    }
}

/// Used to perform extended authentication exchange
#[derive(Debug, Clone, PartialEq, Eq)]
pub struct Auth {
    pub reason: AuthReasonCode,
    pub properties: Option<AuthProperties>,
}

impl View for Auth {
    type V = AuthView;

    open spec fn view(&self) -> AuthView {
        AuthView { reason: self.reason, properties: spec_view(self.properties) }
    }
}

impl Auth {
    pub fn new(reason: AuthReasonCode, properties: Option<AuthProperties>) -> (auth: Auth)
        ensures
            auth == (Auth { reason, properties }),
    {
        Self { reason, properties }
    }

    /// The remaining length of the packet.
    fn len(&self) -> (len: usize)
        requires
            self@.len() <= usize::MAX,
        ensures
            len == self@.len(),
    {
        let mut len: usize = 1;  // reason code

        if let Some(properties) = &self.properties {
            let properties_len = properties.len();
            len += len_len(properties_len) + properties_len;
        } else {
            // one byte that declares no properties
            len += 1;
        }
        len
    }

    /// The number of bytes that the packet takes on the wire, which is the
    /// number that [`Auth::write`] appends and returns.
    pub fn size(&self) -> (size: usize)
        requires
            self@.size() <= usize::MAX,
        ensures
            size == self@.size(),
    {
        let len = self.len();
        let remaining_len_size = len_len(len);

        1 + remaining_len_size + len
    }

    /// Reads the packet from `bytes`, which start with its fixed header. The
    /// variable header begins where `fixed_header` says. A buffer that ends
    /// before that is short by the bytes that the error carries.
    pub fn read(fixed_header: FixedHeader, bytes: Bytes) -> (r: Result<Auth, Error>)
        ensures
            match r {
                Ok(auth) => spec_read_auth(
                    bytes_content(bytes),
                    fixed_header.fixed_header_len as nat,
                ) == Ok::<AuthView, Error>(auth@),
                Err(e) => spec_read_auth(bytes_content(bytes), fixed_header.fixed_header_len as nat)
                    == Err::<AuthView, Error>(e),
            },
    {
        let mut bytes = bytes;
        let ghost stream = bytes_content(bytes);
        let variable_header_index = fixed_header.fixed_header_len;
        let available = bytes_len(&bytes);
        if variable_header_index > available {
            return Err(Error::InsufficientBytes(variable_header_index - available));
        }
        bytes_advance(&mut bytes, variable_header_index);

        let reason = match AuthReasonCode::read(&mut bytes) {
            Ok(reason) => reason,
            Err(e) => { return Err(e); },
        };
        assert(bytes_content(bytes) =~= stream.skip(variable_header_index + 1));
        let properties = match AuthProperties::read(&mut bytes) {
            Ok(properties) => properties,
            Err(e) => { return Err(e); },
        };
        let auth = Auth { reason, properties };

        Ok(auth)
    }

    /// Appends the packet to `buffer` and returns the number of bytes that it
    /// took, which is [`Auth::size`]. A packet whose remaining length cannot be
    /// announced is refused, and only the control byte has then been written.
    pub fn write(&self, buffer: &mut BytesMut) -> (r: Result<usize, Error>)
        requires
            bytes_mut_content(*old(buffer)).len() + self@.size() <= isize::MAX,
        ensures
            match r {
                Ok(written) => self@.len() <= MAX_REMAINING_LENGTH && written == self@.size()
                    && bytes_mut_content(*final(buffer)) == bytes_mut_content(*old(buffer))
                    + self@.encoding() && bytes_mut_content(*final(buffer)).len()
                    == bytes_mut_content(*old(buffer)).len() + written,
                Err(e) => self@.len() > MAX_REMAINING_LENGTH && e == Error::PayloadTooLong
                    && bytes_mut_content(*final(buffer)) == bytes_mut_content(*old(buffer)).push(
                    AUTH_CONTROL_BYTE,
                ),
            },
    {
        bytes_mut_put_u8(buffer, 0xF0);

        let len = self.len();
        let count = match write_remaining_length(buffer, len) {
            Ok(count) => count,
            Err(e) => { return Err(e); },
        };
        proof {
            crate::varint::lemma_encode_length_len(self@.len());
            crate::varint::lemma_encode_length_len(0);
        }
        let ghost head = bytes_mut_content(*buffer);

        match self.reason.write(buffer) {
            Ok(()) => {},
            Err(e) => { return Err(e); },
        }
        if let Some(p) = &self.properties {
            proof {
                lemma_entries_len(p@);
                crate::varint::lemma_encode_length_len(p@.len());
            }
            match p.write(buffer) {
                Ok(()) => {},
                Err(e) => { return Err(e); },
            }
        } else {
            match write_remaining_length(buffer, 0) {
                Ok(_) => {},
                Err(e) => { return Err(e); },
            }
        }
        proof {
            assert(bytes_mut_content(*buffer) =~= head + seq![self@.reason.spec_byte()]
                + self@.block());
            assert(head =~= bytes_mut_content(*old(buffer)) + seq![AUTH_CONTROL_BYTE]
                + spec_encode_length(self@.len()));
            assert(bytes_mut_content(*buffer) =~= bytes_mut_content(*old(buffer))
                + self@.encoding());
        }
        Ok(1 + count + len)
    }
}

/// Takes one property off the front of `bytes`, sets it on `properties` and
/// returns the number of bytes that it took after its identifier.
fn read_property(bytes: &mut Bytes, properties: &mut AuthProperties) -> (r: Result<usize, Error>)
    ensures
        match r {
            Ok(taken) => spec_read_property(bytes_content(*old(bytes)), old(properties)@) == Ok::<
                (AuthPropertiesView, nat),
                Error,
            >((final(properties)@, taken as nat)) && bytes_content(*final(bytes)) == bytes_content(
                *old(bytes),
            ).skip(1 + taken) && 1 + taken <= bytes_content(*old(bytes)).len() && taken <= 2 * (2
                + MAX_FIELD_LENGTH),
            Err(e) => spec_read_property(bytes_content(*old(bytes)), old(properties)@) == Err::<
                (AuthPropertiesView, nat),
                Error,
            >(e),
        },
{
    let ghost stream = bytes_content(*bytes);
    let ghost before = properties@;
    let prop = match read_u8(bytes) {
        Ok(v) => v,
        Err(e) => { return Err(e); },
    };
    let kind = match property(prop) {
        Ok(kind) => kind,
        Err(e) => { return Err(e); },
    };
    let taken: usize;
    match kind {
        PropertyType::AuthenticationMethod => {
            let method = match read_mqtt_string(bytes) {
                Ok(text) => text,
                Err(e) => { return Err(e); },
            };
            taken = 2 + method.as_str().len();
            properties.method = Some(method);
            assert(properties@ == before.with_method(properties.method.unwrap()@));
        },
        PropertyType::AuthenticationData => {
            let data = match read_mqtt_bytes(bytes) {
                Ok(data) => data,
                Err(e) => { return Err(e); },
            };
            taken = 2 + bytes_len(&data);
            properties.data = Some(data);
            assert(properties@ == before.with_data(bytes_content(properties.data.unwrap())));
        },
        PropertyType::ReasonString => {
            let reason = match read_mqtt_string(bytes) {
                Ok(text) => text,
                Err(e) => { return Err(e); },
            };
            taken = 2 + reason.as_str().len();
            properties.reason_string = Some(reason);
            assert(properties@ == before.with_reason_string(properties.reason_string.unwrap()@));
        },
        PropertyType::UserProperty => {
            let key = match read_mqtt_string(bytes) {
                Ok(text) => text,
                Err(e) => { return Err(e); },
            };
            assert(bytes_content(*bytes) =~= stream.skip(1 + 2 + encode_utf8(key@).len() as int));
            let value = match read_mqtt_string(bytes) {
                Ok(text) => text,
                Err(e) => { return Err(e); },
            };
            taken = 2 + key.as_str().len() + 2 + value.as_str().len();
            let ghost key_view = key@;
            let ghost value_view = value@;
            properties.user_properties.push((key, value));
            assert(properties@.user_properties =~= before.user_properties.push(
                (key_view, value_view),
            ));
            assert(properties@ == before.with_user_property(key_view, value_view));
        },
        _ => { return Err(Error::InvalidPropertyType(prop)); },
    }
    assert(bytes_content(*bytes) =~= stream.skip(1 + taken));
    Ok(taken)
}

/// Appends a string property to `buffer` if it is set.
fn write_string_property(buffer: &mut BytesMut, kind: PropertyType, value: &Option<String>)
    requires
        bytes_mut_content(*old(buffer)).len() + spec_string_property(
            kind.spec_id(),
            spec_text(*value),
        ).len() <= isize::MAX,
    ensures
        bytes_mut_content(*final(buffer)) == bytes_mut_content(*old(buffer))
            + spec_string_property(kind.spec_id(), spec_text(*value)),
{
    if let Some(text) = value {
        proof {
            assert(spec_encode_string(text@).len() == 2 + encode_utf8(text@).len());
        }
        bytes_mut_put_u8(buffer, kind.id());
        write_mqtt_string(buffer, text.as_str());
        assert(bytes_mut_content(*buffer) =~= bytes_mut_content(*old(buffer))
            + spec_string_property(kind.spec_id(), spec_text(*value)));
    } else {
        assert(bytes_mut_content(*buffer) =~= bytes_mut_content(*old(buffer))
            + spec_string_property(kind.spec_id(), spec_text(*value)));
    }
}

/// Appends a binary property to `buffer` if it is set.
fn write_bytes_property(buffer: &mut BytesMut, kind: PropertyType, value: &Option<Bytes>)
    requires
        bytes_mut_content(*old(buffer)).len() + spec_bytes_property(
            kind.spec_id(),
            spec_data(*value),
        ).len() <= isize::MAX,
    ensures
        bytes_mut_content(*final(buffer)) == bytes_mut_content(*old(buffer)) + spec_bytes_property(
            kind.spec_id(),
            spec_data(*value),
        ),
{
    if let Some(data) = value {
        proof {
            assert(spec_encode_bytes(bytes_content(*data)).len() == 2 + bytes_content(
                *data,
            ).len());
        }
        bytes_mut_put_u8(buffer, kind.id());
        write_mqtt_bytes(buffer, bytes_as_slice(data));
        assert(bytes_mut_content(*buffer) =~= bytes_mut_content(*old(buffer))
            + spec_bytes_property(kind.spec_id(), spec_data(*value)));
    } else {
        assert(bytes_mut_content(*buffer) =~= bytes_mut_content(*old(buffer))
            + spec_bytes_property(kind.spec_id(), spec_data(*value)));
    }
}

/// Appends the user properties to `buffer`, one after the other, in order.
fn write_user_properties(buffer: &mut BytesMut, pairs: &Vec<(String, String)>)
    requires
        bytes_mut_content(*old(buffer)).len() + spec_user_properties_len(spec_pairs(pairs@))
            <= isize::MAX,
    ensures
        bytes_mut_content(*final(buffer)) == bytes_mut_content(*old(buffer))
            + spec_user_properties(spec_pairs(pairs@)),
{
    let ghost all = spec_pairs(pairs@);
    let mut i: usize = 0;
    assert(bytes_mut_content(*buffer) =~= bytes_mut_content(*old(buffer)) + spec_user_properties(
        all.take(0),
    ));
    while i < pairs.len()
        invariant
            i <= pairs@.len(),
            all == spec_pairs(pairs@),
            bytes_mut_content(*old(buffer)).len() + spec_user_properties_len(all) <= isize::MAX,
            bytes_mut_content(*buffer) == bytes_mut_content(*old(buffer)) + spec_user_properties(
                all.take(i as int),
            ),
        decreases pairs@.len() - i,
    {
        let key = &pairs[i].0;
        let value = &pairs[i].1;
        proof {
            lemma_user_properties_len_prefix(all, i + 1);
            lemma_user_properties_len(all.take(i as int));
            assert(all.take(i + 1).drop_last() =~= all.take(i as int));
            assert(all.take(i + 1).last() == (key@, value@));
        }
        let ghost before = bytes_mut_content(*buffer);
        bytes_mut_put_u8(buffer, PropertyType::UserProperty.id());
        write_mqtt_string(buffer, key.as_str());
        write_mqtt_string(buffer, value.as_str());
        assert(bytes_mut_content(*buffer) =~= before + spec_user_property((key@, value@)));
        i += 1;
    }
    proof {
        assert(all.take(i as int) =~= all);
    }
}

} // verus!
