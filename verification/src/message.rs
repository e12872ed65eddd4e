//! The message model: a type tag and a set of optional named fields.

use crate::text::{collect_chars, equals_str};
use vstd::prelude::*;
use vstd::std_specs::convert::FromSpecImpl;
use vstd::string::*;

verus! {

/// The tag that opens every line.
#[derive(Clone, Copy, Debug, PartialEq, Eq, Structural)]
pub enum AuthMessageType {
    InfoReq,
    KeepAliveReq,
    KeepAliveCnf,
    DiscInf,
    DiscRsp,
    ConnInf,
    ConnRsp,
    /// Any tag that the protocol does not know.
    Unknown,
    /// No message: nothing is sent for it.
    Empty,
}

impl AuthMessageType {
    /// The tag as it is written on the wire.
    pub open spec fn wire_name(self) -> Seq<char> {
        match self {
            AuthMessageType::InfoReq => "infoReq"@,
            AuthMessageType::KeepAliveReq => "keepAliveReq"@,
            AuthMessageType::KeepAliveCnf => "keepAliveCnf"@,
            AuthMessageType::DiscInf => "discInf"@,
            AuthMessageType::DiscRsp => "discRsp"@,
            AuthMessageType::ConnInf => "connInf"@,
            AuthMessageType::ConnRsp => "connRsp"@,
            AuthMessageType::Unknown => "unknown"@,
            AuthMessageType::Empty => "empty"@,
        }
    }

    /// The type that a tag read from the wire stands for. `empty` is never
    /// read: like every other unlisted tag it stands for `Unknown`.
    pub open spec fn from_name(name: Seq<char>) -> AuthMessageType {
        if name == "infoReq"@ {
            AuthMessageType::InfoReq
        } else if name == "keepAliveReq"@ {
            AuthMessageType::KeepAliveReq
        } else if name == "keepAliveCnf"@ {
            AuthMessageType::KeepAliveCnf
        } else if name == "discInf"@ {
            AuthMessageType::DiscInf
        } else if name == "discRsp"@ {
            AuthMessageType::DiscRsp
        } else if name == "connInf"@ {
            AuthMessageType::ConnInf
        } else if name == "connRsp"@ {
            AuthMessageType::ConnRsp
        } else {
            AuthMessageType::Unknown
        }
    }

    /// The tag as it is written on the wire.
    pub fn name(&self) -> (name: &'static str)
        ensures
            name@ == self.wire_name(),
    {
        match self {
            AuthMessageType::InfoReq => "infoReq",
            AuthMessageType::KeepAliveReq => "keepAliveReq",
            AuthMessageType::KeepAliveCnf => "keepAliveCnf",
            AuthMessageType::DiscInf => "discInf",
            AuthMessageType::DiscRsp => "discRsp",
            AuthMessageType::ConnInf => "connInf",
            AuthMessageType::ConnRsp => "connRsp",
            AuthMessageType::Unknown => "unknown",
            AuthMessageType::Empty => "empty",
        }
    }

    /// The tag as an owned string.
    pub fn to_string(&self) -> (name: String)
        ensures
            name@ == self.wire_name(),
    {
        self.name().to_owned()
    }

    /// The type that a tag read from the wire stands for.
    pub fn from_chars(name: &[char]) -> (message_type: AuthMessageType)
        ensures
            message_type == Self::from_name(name@),
    {
        if equals_str(name, "infoReq") {
            AuthMessageType::InfoReq
        } else if equals_str(name, "keepAliveReq") {
            AuthMessageType::KeepAliveReq
        } else if equals_str(name, "keepAliveCnf") {
            AuthMessageType::KeepAliveCnf
        } else if equals_str(name, "discInf") {
            AuthMessageType::DiscInf
        } else if equals_str(name, "discRsp") {
            AuthMessageType::DiscRsp
        } else if equals_str(name, "connInf") {
            AuthMessageType::ConnInf
        } else if equals_str(name, "connRsp") {
            AuthMessageType::ConnRsp
        } else {
            AuthMessageType::Unknown
        }
    }
}

impl Default for AuthMessageType {
    fn default() -> (message_type: AuthMessageType)
        ensures
            message_type == AuthMessageType::Empty,
    {
        AuthMessageType::Empty
    }
}

impl<'a> From<&'a str> for AuthMessageType {
    fn from(s: &'a str) -> (message_type: AuthMessageType) {
        let name = collect_chars(s);
        AuthMessageType::from_chars(name.as_slice())
    }
}

impl<'a> FromSpecImpl<&'a str> for AuthMessageType {
    open spec fn obeys_from_spec() -> bool {
        true
    }

    open spec fn from_spec(s: &'a str) -> AuthMessageType {
        AuthMessageType::from_name(s@)
    }
}

/// An IPv4 address: its four octets, in network order.
#[derive(Clone, Copy, Debug, PartialEq, Eq, Structural)]
pub struct Ipv4(pub u8, pub u8, pub u8, pub u8);

impl Ipv4 {
    /// The address whose octets are the bytes of `bits`, the most
    /// significant first.
    pub open spec fn spec_from_bits(bits: u32) -> Ipv4 {
        Ipv4(
            (bits / 0x100_0000) as u8,
            (bits / 0x1_0000 % 0x100) as u8,
            (bits / 0x100 % 0x100) as u8,
            (bits % 0x100) as u8,
        )
    }

    /// The 32-bit number whose bytes are the octets, the first being the
    /// most significant.
    pub open spec fn spec_to_bits(self) -> u32 {
        (self.0 * 0x100_0000 + self.1 * 0x1_0000 + self.2 * 0x100 + self.3) as u32
    }

    /// The address that a 32-bit number in network byte order stands for.
    #[verifier::when_used_as_spec(spec_from_bits)]
    pub fn from_bits(bits: u32) -> (addr: Ipv4)
        ensures
            addr == Self::spec_from_bits(bits),
            addr.spec_to_bits() == bits,
    {
        let a = bits / 0x100_0000;
        let b = bits / 0x1_0000 % 0x100;
        let c = bits / 0x100 % 0x100;
        let d = bits % 0x100;
        assert(a < 0x100 && bits == a * 0x100_0000 + b * 0x1_0000 + c * 0x100 + d) by (bit_vector)
            requires
                a == bits / 0x100_0000,
                b == bits / 0x1_0000 % 0x100,
                c == bits / 0x100 % 0x100,
                d == bits % 0x100,
        ;
        Ipv4(a as u8, b as u8, c as u8, d as u8)
    }

    /// The address as a 32-bit number in network byte order.
    #[verifier::when_used_as_spec(spec_to_bits)]
    pub fn to_bits(self) -> (bits: u32)
        ensures
            bits == self.spec_to_bits(),
            Self::spec_from_bits(bits) == self,
    {
        let a = self.0 as u32;
        let b = self.1 as u32;
        let c = self.2 as u32;
        let d = self.3 as u32;
        let bits = a * 0x100_0000 + b * 0x1_0000 + c * 0x100 + d;
        assert(bits / 0x100_0000 == a && bits / 0x1_0000 % 0x100 == b && bits / 0x100 % 0x100 == c
            && bits % 0x100 == d) by (bit_vector)
            requires
                a < 0x100 && b < 0x100 && c < 0x100 && d < 0x100,
                bits == a * 0x100_0000 + b * 0x1_0000 + c * 0x100 + d,
        ;
        bits
    }

    /// The four octets, in network order.
    pub fn octets(self) -> (octets: [u8; 4])
        ensures
            octets@ == seq![self.0, self.1, self.2, self.3],
    {
        [self.0, self.1, self.2, self.3]
    }
}

/// One protocol message. A field that the line did not carry is `None`.
#[derive(Clone, Debug)]
pub struct AuthMessage {
    pub message_type: AuthMessageType,
    pub mtu: Option<u32>,
    pub barrier_level: Option<u64>,
    pub cause: Option<String>,
    pub client_rand: Option<String>,
    pub ddc_config: Option<u32>,
    pub event: Option<String>,
    pub first_server: Option<Ipv4>,
    pub fw: Option<String>,
    pub hw: Option<String>,
    pub id: Option<String>,
    pub init_state: Option<u32>,
    pub key_types: Option<Vec<String>>,
    pub namespace: Option<String>,
    pub pn: Option<u32>,
    pub real_ip: Option<Ipv4>,
    pub sn: Option<String>,
    pub state: Option<String>,
    pub token_seq: Option<u32>,
    pub type_: Option<String>,
    pub access: Option<String>,
}

/// What a message says: its type, and each field as a plain value.
pub struct AuthMessageView {
    pub message_type: AuthMessageType,
    pub mtu: Option<u32>,
    pub barrier_level: Option<u64>,
    pub cause: Option<Seq<char>>,
    pub client_rand: Option<Seq<char>>,
    pub ddc_config: Option<u32>,
    pub event: Option<Seq<char>>,
    pub first_server: Option<Ipv4>,
    pub fw: Option<Seq<char>>,
    pub hw: Option<Seq<char>>,
    pub id: Option<Seq<char>>,
    pub init_state: Option<u32>,
    pub key_types: Option<Seq<Seq<char>>>,
    pub namespace: Option<Seq<char>>,
    pub pn: Option<u32>,
    pub real_ip: Option<Ipv4>,
    pub sn: Option<Seq<char>>,
    pub state: Option<Seq<char>>,
    pub token_seq: Option<u32>,
    pub type_: Option<Seq<char>>,
    pub access: Option<Seq<char>>,
}

impl AuthMessageView {
    /// The message of the given type with every field unset.
    pub open spec fn new(message_type: AuthMessageType) -> AuthMessageView {
        AuthMessageView {
            message_type,
            mtu: None,
            barrier_level: None,
            cause: None,
            client_rand: None,
            ddc_config: None,
            event: None,
            first_server: None,
            fw: None,
            hw: None,
            id: None,
            init_state: None,
            key_types: None,
            namespace: None,
            pn: None,
            real_ip: None,
            sn: None,
            state: None,
            token_seq: None,
            type_: None,
            access: None,
        }
    }
}

/// The characters of an optional string.
pub open spec fn text_view(text: Option<String>) -> Option<Seq<char>> {
    match text {
        Some(s) => Some(s@),
        None => None,
    }
}

/// The items of an optional list of strings, each as its characters.
pub open spec fn list_view(list: Option<Vec<String>>) -> Option<Seq<Seq<char>>> {
    match list {
        Some(v) => Some(Seq::new(v@.len(), |i: int| v@[i]@)),
        None => None,
    }
}

impl View for AuthMessage {
    type V = AuthMessageView;

    open spec fn view(&self) -> AuthMessageView {
        AuthMessageView {
            message_type: self.message_type,
            mtu: self.mtu,
            barrier_level: self.barrier_level,
            cause: text_view(self.cause),
            client_rand: text_view(self.client_rand),
            ddc_config: self.ddc_config,
            event: text_view(self.event),
            first_server: self.first_server,
            fw: text_view(self.fw),
            hw: text_view(self.hw),
            id: text_view(self.id),
            init_state: self.init_state,
            key_types: list_view(self.key_types),
            namespace: text_view(self.namespace),
            pn: self.pn,
            real_ip: self.real_ip,
            sn: text_view(self.sn),
            state: text_view(self.state),
            token_seq: self.token_seq,
            type_: text_view(self.type_),
            access: text_view(self.access),
        }
    }
}

impl AuthMessage {
    /// A message of the given type with every field unset.
    pub fn new(message_type: AuthMessageType) -> (message: AuthMessage)
        ensures
            message@ == AuthMessageView::new(message_type),
    {
        AuthMessage {
            message_type,
            mtu: None,
            barrier_level: None,
            cause: None,
            client_rand: None,
            ddc_config: None,
            event: None,
            first_server: None,
            fw: None,
            hw: None,
            id: None,
            init_state: None,
            key_types: None,
            namespace: None,
            pn: None,
            real_ip: None,
            sn: None,
            state: None,
            token_seq: None,
            type_: None,
            access: None,
        }
    }
}

impl Default for AuthMessage {
    /// The empty message: nothing is sent for it.
    fn default() -> (message: AuthMessage)
        ensures
            message@ == AuthMessageView::new(AuthMessageType::Empty),
    {
        AuthMessage::new(AuthMessageType::Empty)
    }
}

} // verus!
