//! The field table: which keys a line may carry, what each one holds, and
//! how a `key=value` pair is stored in a message.

use crate::error::CodecError;
use crate::message::{AuthMessage, AuthMessageView, Ipv4};
use crate::number::{parse_number, read_decimal_u32, read_decimal_u64, read_hex_u32};
use crate::text::{equals_str, list_items, split_list, string_from_chars};
use vstd::prelude::*;
use vstd::string::*;

verus! {

/// The fields that a message can carry.
#[derive(Clone, Copy, Debug, PartialEq, Eq, Structural)]
pub enum FieldName {
    Mtu,
    BarrierLevel,
    Cause,
    ClientRand,
    DdcConfig,
    Event,
    FirstServer,
    Fw,
    Hw,
    Id,
    InitState,
    KeyTypes,
    Namespace,
    Pn,
    RealIp,
    Sn,
    State,
    TokenSeq,
    Type,
    Access,
}

/// How the value of a field is written on the wire.
#[derive(Clone, Copy, Debug, PartialEq, Eq, Structural)]
pub enum FieldKind {
    /// A decimal numeral of 32 bits.
    Number32,
    /// A decimal numeral of 64 bits.
    Number64,
    /// Any text, taken as it stands.
    Text,
    /// An IPv4 address as a hexadecimal numeral of 32 bits.
    Address,
    /// Texts separated by commas.
    List,
}

/// The value of a field, as plain data.
pub enum FieldValue {
    Number32(u32),
    Number64(u64),
    Text(Seq<char>),
    Address(Ipv4),
    List(Seq<Seq<char>>),
}

impl FieldName {
    /// The key under which the field is written: exact, and case-sensitive.
    pub open spec fn wire_name(self) -> Seq<char> {
        match self {
            FieldName::Mtu => "MTU"@,
            FieldName::BarrierLevel => "barrierLevel"@,
            FieldName::Cause => "cause"@,
            FieldName::ClientRand => "clientRand"@,
            FieldName::DdcConfig => "ddcconfig"@,
            FieldName::Event => "event"@,
            FieldName::FirstServer => "firstServer"@,
            FieldName::Fw => "fw"@,
            FieldName::Hw => "hw"@,
            FieldName::Id => "id"@,
            FieldName::InitState => "initState"@,
            FieldName::KeyTypes => "keyTypes"@,
            FieldName::Namespace => "namespace"@,
            FieldName::Pn => "pn"@,
            FieldName::RealIp => "realIP"@,
            FieldName::Sn => "sn"@,
            FieldName::State => "state"@,
            FieldName::TokenSeq => "tokenSeq"@,
            FieldName::Type => "type"@,
            FieldName::Access => "access"@,
        }
    }

    /// How the field's value is written.
    pub open spec fn spec_kind(self) -> FieldKind {
        match self {
            FieldName::Mtu | FieldName::DdcConfig | FieldName::InitState | FieldName::Pn
            | FieldName::TokenSeq => FieldKind::Number32,
            FieldName::BarrierLevel => FieldKind::Number64,
            FieldName::FirstServer | FieldName::RealIp => FieldKind::Address,
            FieldName::KeyTypes => FieldKind::List,
            _ => FieldKind::Text,
        }
    }

    /// The field that a key names, if any.
    pub open spec fn named(key: Seq<char>) -> Option<FieldName> {
        if exists|f: FieldName| #[trigger] f.wire_name() == key {
            Some(choose|f: FieldName| #[trigger] f.wire_name() == key)
        } else {
            None
        }
    }

    /// The key under which the field is written.
    pub fn name(&self) -> (name: &'static str)
        ensures
            name@ == self.wire_name(),
    {
        match self {
            FieldName::Mtu => "MTU",
            FieldName::BarrierLevel => "barrierLevel",
            FieldName::Cause => "cause",
            FieldName::ClientRand => "clientRand",
            FieldName::DdcConfig => "ddcconfig",
            FieldName::Event => "event",
            FieldName::FirstServer => "firstServer",
            FieldName::Fw => "fw",
            FieldName::Hw => "hw",
            FieldName::Id => "id",
            FieldName::InitState => "initState",
            FieldName::KeyTypes => "keyTypes",
            FieldName::Namespace => "namespace",
            FieldName::Pn => "pn",
            FieldName::RealIp => "realIP",
            FieldName::Sn => "sn",
            FieldName::State => "state",
            FieldName::TokenSeq => "tokenSeq",
            FieldName::Type => "type",
            FieldName::Access => "access",
        }
    }

    /// How the field's value is written.
    #[verifier::when_used_as_spec(spec_kind)]
    pub fn kind(self) -> (kind: FieldKind)
        ensures
            kind == self.spec_kind(),
    {
        match self {
            FieldName::Mtu | FieldName::DdcConfig | FieldName::InitState | FieldName::Pn
            | FieldName::TokenSeq => FieldKind::Number32,
            FieldName::BarrierLevel => FieldKind::Number64,
            FieldName::FirstServer | FieldName::RealIp => FieldKind::Address,
            FieldName::KeyTypes => FieldKind::List,
            _ => FieldKind::Text,
        }
    }

    /// No two fields share a key.
    pub proof fn lemma_wire_names_distinct(f: FieldName, g: FieldName)
        requires
            f.wire_name() == g.wire_name(),
        ensures
            f == g,
    {
        reveal_strlit("MTU");
        reveal_strlit("barrierLevel");
        reveal_strlit("cause");
        reveal_strlit("clientRand");
        reveal_strlit("ddcconfig");
        reveal_strlit("event");
        reveal_strlit("firstServer");
        reveal_strlit("fw");
        reveal_strlit("hw");
        reveal_strlit("id");
        reveal_strlit("initState");
        reveal_strlit("keyTypes");
        reveal_strlit("namespace");
        reveal_strlit("pn");
        reveal_strlit("realIP");
        reveal_strlit("sn");
        reveal_strlit("state");
        reveal_strlit("tokenSeq");
        reveal_strlit("type");
        reveal_strlit("access");
        let a = f.wire_name();
        let b = g.wire_name();
        assert(a.len() == b.len());
        assert(a[0] == b[0]);
        assert(a[1] == b[1]);
        if a.len() > 2 {
            assert(a[2] == b[2]);
        }
    }

    /// Every field is the one that its own key names.
    pub proof fn lemma_named_by_wire_name(f: FieldName)
        ensures
            Self::named(f.wire_name()) == Some(f),
    {
        let key = f.wire_name();
        assert(f.wire_name() == key);
        Self::lemma_wire_names_distinct(f, choose|g: FieldName| #[trigger] g.wire_name() == key);
    }

    /// The field that a key names: the key has to match exactly.
    pub fn lookup(key: &[char]) -> (field: Option<FieldName>)
        ensures
            field == Self::named(key@),
            field matches Some(f) ==> f.wire_name() == key@,
            field is None ==> forall|f: FieldName| #[trigger] f.wire_name() != key@,
    {
        let field = if equals_str(key, "MTU") {
            Some(FieldName::Mtu)
        } else if equals_str(key, "barrierLevel") {
            Some(FieldName::BarrierLevel)
        } else if equals_str(key, "cause") {
            Some(FieldName::Cause)
        } else if equals_str(key, "clientRand") {
            Some(FieldName::ClientRand)
        } else if equals_str(key, "ddcconfig") {
            Some(FieldName::DdcConfig)
        } else if equals_str(key, "event") {
            Some(FieldName::Event)
        } else if equals_str(key, "firstServer") {
            Some(FieldName::FirstServer)
        } else if equals_str(key, "fw") {
            Some(FieldName::Fw)
        } else if equals_str(key, "hw") {
            Some(FieldName::Hw)
        } else if equals_str(key, "id") {
            Some(FieldName::Id)
        } else if equals_str(key, "initState") {
            Some(FieldName::InitState)
        } else if equals_str(key, "keyTypes") {
            Some(FieldName::KeyTypes)
        } else if equals_str(key, "namespace") {
            Some(FieldName::Namespace)
        } else if equals_str(key, "pn") {
            Some(FieldName::Pn)
        } else if equals_str(key, "realIP") {
            Some(FieldName::RealIp)
        } else if equals_str(key, "sn") {
            Some(FieldName::Sn)
        } else if equals_str(key, "state") {
            Some(FieldName::State)
        } else if equals_str(key, "tokenSeq") {
            Some(FieldName::TokenSeq)
        } else if equals_str(key, "type") {
            Some(FieldName::Type)
        } else if equals_str(key, "access") {
            Some(FieldName::Access)
        } else {
            None
        };
        proof {
            match field {
                Some(f) => {
                    assert(f.wire_name() == key@);
                    Self::lemma_wire_names_distinct(f, choose|g: FieldName| #[trigger]
                        g.wire_name() == key@);
                },
                None => {
                    assert forall|f: FieldName| #[trigger] f.wire_name() != key@ by {}
                },
            }
        }
        field
    }
}

impl FieldValue {
    /// What a raw value says when it is read as the given kind: numbers
    /// have to be numerals that fit, text and lists take anything.
    pub open spec fn parse(kind: FieldKind, raw: Seq<char>) -> Result<FieldValue, CodecError> {
        match kind {
            FieldKind::Number32 => match parse_number(raw, 10, u32::MAX as int) {
                Some(n) => Ok(FieldValue::Number32(n as u32)),
                None => Err(CodecError::InvalidInteger),
            },
            FieldKind::Number64 => match parse_number(raw, 10, u64::MAX as int) {
                Some(n) => Ok(FieldValue::Number64(n as u64)),
                None => Err(CodecError::InvalidInteger),
            },
            FieldKind::Text => Ok(FieldValue::Text(raw)),
            FieldKind::Address => match parse_number(raw, 16, u32::MAX as int) {
                Some(n) => Ok(FieldValue::Address(Ipv4::spec_from_bits(n as u32))),
                None => Err(CodecError::InvalidHexInteger),
            },
            FieldKind::List => Ok(FieldValue::List(list_items(raw))),
        }
    }
}

impl AuthMessageView {
    /// The message with one field set to a value of its kind, and every
    /// other field as before. Setting a field twice keeps the later value.
    pub open spec fn with(self, field: FieldName, value: FieldValue) -> AuthMessageView {
        match (field, value) {
            (FieldName::Mtu, FieldValue::Number32(n)) => AuthMessageView { mtu: Some(n), ..self },
            (FieldName::BarrierLevel, FieldValue::Number64(n)) => AuthMessageView {
                barrier_level: Some(n),
                ..self
            },
            (FieldName::Cause, FieldValue::Text(t)) => AuthMessageView { cause: Some(t), ..self },
            (FieldName::ClientRand, FieldValue::Text(t)) => AuthMessageView {
                client_rand: Some(t),
                ..self
            },
            (FieldName::DdcConfig, FieldValue::Number32(n)) => AuthMessageView {
                ddc_config: Some(n),
                ..self
            },
            (FieldName::Event, FieldValue::Text(t)) => AuthMessageView { event: Some(t), ..self },
            (FieldName::FirstServer, FieldValue::Address(a)) => AuthMessageView {
                first_server: Some(a),
                ..self
            },
            (FieldName::Fw, FieldValue::Text(t)) => AuthMessageView { fw: Some(t), ..self },
            (FieldName::Hw, FieldValue::Text(t)) => AuthMessageView { hw: Some(t), ..self },
            (FieldName::Id, FieldValue::Text(t)) => AuthMessageView { id: Some(t), ..self },
            (FieldName::InitState, FieldValue::Number32(n)) => AuthMessageView {
                init_state: Some(n),
                ..self
            },
            (FieldName::KeyTypes, FieldValue::List(l)) => AuthMessageView {
                key_types: Some(l),
                ..self
            },
            (FieldName::Namespace, FieldValue::Text(t)) => AuthMessageView {
                namespace: Some(t),
                ..self
            },
            (FieldName::Pn, FieldValue::Number32(n)) => AuthMessageView { pn: Some(n), ..self },
            (FieldName::RealIp, FieldValue::Address(a)) => AuthMessageView {
                real_ip: Some(a),
                ..self
            },
            (FieldName::Sn, FieldValue::Text(t)) => AuthMessageView { sn: Some(t), ..self },
            (FieldName::State, FieldValue::Text(t)) => AuthMessageView { state: Some(t), ..self },
            (FieldName::TokenSeq, FieldValue::Number32(n)) => AuthMessageView {
                token_seq: Some(n),
                ..self
            },
            (FieldName::Type, FieldValue::Text(t)) => AuthMessageView { type_: Some(t), ..self },
            (FieldName::Access, FieldValue::Text(t)) => AuthMessageView { access: Some(t), ..self },
            _ => self,
        }
    }

    /// The message after one `key=value` pair: a key of the table sets its
    /// field to the value read as the field's kind, or fails where the
    /// value cannot be read; any other key changes nothing.
    pub open spec fn assign(self, key: Seq<char>, raw: Seq<char>) -> Result<
        AuthMessageView,
        CodecError,
    > {
        match FieldName::named(key) {
            Some(field) => match FieldValue::parse(field.spec_kind(), raw) {
                Ok(value) => Ok(self.with(field, value)),
                Err(e) => Err(e),
            },
            None => Ok(self),
        }
    }
}

/// A decimal value of 32 bits, or the error that a malformed one gives.
fn decimal_u32(raw: &[char]) -> (value: Result<u32, CodecError>)
    ensures
        match FieldValue::parse(FieldKind::Number32, raw@) {
            Ok(v) => value is Ok && v == FieldValue::Number32(value->Ok_0),
            Err(e) => value == Err::<u32, CodecError>(e),
        },
{
    match read_decimal_u32(raw) {
        Some(n) => Ok(n),
        None => Err(CodecError::InvalidInteger),
    }
}

/// A decimal value of 64 bits, or the error that a malformed one gives.
fn decimal_u64(raw: &[char]) -> (value: Result<u64, CodecError>)
    ensures
        match FieldValue::parse(FieldKind::Number64, raw@) {
            Ok(v) => value is Ok && v == FieldValue::Number64(value->Ok_0),
            Err(e) => value == Err::<u64, CodecError>(e),
        },
{
    match read_decimal_u64(raw) {
        Some(n) => Ok(n),
        None => Err(CodecError::InvalidInteger),
    }
}

/// An address written as a hexadecimal number, or the error that a
/// malformed one gives.
fn hex_address(raw: &[char]) -> (value: Result<Ipv4, CodecError>)
    ensures
        match FieldValue::parse(FieldKind::Address, raw@) {
            Ok(v) => value is Ok && v == FieldValue::Address(value->Ok_0),
            Err(e) => value == Err::<Ipv4, CodecError>(e),
        },
{
    match read_hex_u32(raw) {
        Some(bits) => Ok(Ipv4::from_bits(bits)),
        None => Err(CodecError::InvalidHexInteger),
    }
}

impl AuthMessage {
    /// Stores one `key=value` pair in the message. A key of the field table
    /// sets its field, replacing what an earlier pair may have set; a value
    /// that cannot be read as the field's kind is an error and leaves the
    /// message as it was; a key that the table lacks is ignored.
    pub fn parse_field(&mut self, key: &[char], raw: &[char]) -> (done: Result<(), CodecError>)
        ensures
            match old(self)@.assign(key@, raw@) {
                Ok(after) => done is Ok && final(self)@ == after,
                Err(e) => done == Err::<(), CodecError>(e) && final(self)@ == old(self)@,
            },
    {
        let field = match FieldName::lookup(key) {
            Some(field) => field,
            None => { return Ok(()); },
        };
        match field {
            FieldName::Mtu => { self.mtu = Some(decimal_u32(raw)?); },
            FieldName::BarrierLevel => { self.barrier_level = Some(decimal_u64(raw)?); },
            FieldName::Cause => { self.cause = Some(string_from_chars(raw)); },
            FieldName::ClientRand => { self.client_rand = Some(string_from_chars(raw)); },
            FieldName::DdcConfig => { self.ddc_config = Some(decimal_u32(raw)?); },
            FieldName::Event => { self.event = Some(string_from_chars(raw)); },
            FieldName::FirstServer => { self.first_server = Some(hex_address(raw)?); },
            FieldName::Fw => { self.fw = Some(string_from_chars(raw)); },
            FieldName::Hw => { self.hw = Some(string_from_chars(raw)); },
            FieldName::Id => { self.id = Some(string_from_chars(raw)); },
            FieldName::InitState => { self.init_state = Some(decimal_u32(raw)?); },
            FieldName::KeyTypes => {
                let items = split_list(raw);
                assert(Seq::new(items@.len(), |i: int| items@[i]@) == list_items(raw@));
                self.key_types = Some(items);
            },
            FieldName::Namespace => { self.namespace = Some(string_from_chars(raw)); },
            FieldName::Pn => { self.pn = Some(decimal_u32(raw)?); },
            FieldName::RealIp => { self.real_ip = Some(hex_address(raw)?); },
            FieldName::Sn => { self.sn = Some(string_from_chars(raw)); },
            FieldName::State => { self.state = Some(string_from_chars(raw)); },
            FieldName::TokenSeq => { self.token_seq = Some(decimal_u32(raw)?); },
            FieldName::Type => { self.type_ = Some(string_from_chars(raw)); },
            FieldName::Access => { self.access = Some(string_from_chars(raw)); },
        }
        Ok(())
    }
}

} // verus!
