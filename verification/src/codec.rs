//! The frame codec: one message per newline-terminated line.

use crate::buffer::{append, bytes_of};
use crate::error::CodecError;
use crate::message::{AuthMessage, AuthMessageType, AuthMessageView};
use crate::number::{decimal_text, format_decimal};
use crate::text::{collect_chars, key_value, split_key_value, split_whitespace, tokens};
use bytes::BytesMut;
use vstd::prelude::*;
use vstd::string::*;
use vstd::utf8::*;

verus! {

/// The byte that ends every frame.
pub const NEWLINE: u8 = 0x0a;

/// The first index at or after `from` that holds a newline, or the length.
pub open spec fn newline_from(bytes: Seq<u8>, from: int) -> int
    decreases bytes.len() - from,
{
    if 0 <= from < bytes.len() && bytes[from] != NEWLINE {
        newline_from(bytes, from + 1)
    } else {
        from
    }
}

/// The first frame of a buffer and what follows it: the line before the
/// first newline, and the bytes after that newline. A buffer without a
/// newline holds no complete frame.
pub open spec fn split_frame(bytes: Seq<u8>) -> Option<(Seq<u8>, Seq<u8>)> {
    let end = newline_from(bytes, 0);
    if end < bytes.len() {
        Some((bytes.subrange(0, end), bytes.subrange(end + 1, bytes.len() as int)))
    } else {
        None
    }
}

/// The message after one field token: a token that is no `key=value` pair
/// is an error.
pub open spec fn stored(m: AuthMessageView, token: Seq<char>) -> Result<
    AuthMessageView,
    CodecError,
> {
    match key_value(token) {
        Some((key, raw)) => m.assign(key, raw),
        None => Err(CodecError::MalformedField),
    }
}

/// The message after all the field tokens, taken from left to right, or
/// the error of the first token that fails.
pub open spec fn stored_all(m: AuthMessageView, fields: Seq<Seq<char>>) -> Result<
    AuthMessageView,
    CodecError,
>
    decreases fields.len(),
{
    if fields.len() == 0 {
        Ok(m)
    } else {
        match stored(m, fields[0]) {
            Ok(next) => stored_all(next, fields.skip(1)),
            Err(e) => Err(e),
        }
    }
}

/// What a line of text says: its first token names the type, the others
/// are fields.
pub open spec fn parsed_line(line: Seq<char>) -> Result<AuthMessageView, CodecError> {
    let parts = tokens(line);
    if parts.len() == 0 {
        Err(CodecError::MissingMessageType)
    } else {
        stored_all(AuthMessageView::new(AuthMessageType::from_name(parts[0])), parts.skip(1))
    }
}

/// What the bytes of a line say: they have to be UTF-8.
pub open spec fn parsed_frame(line: Seq<u8>) -> Result<AuthMessageView, CodecError> {
    if valid_utf8(line) {
        parsed_line(decode_utf8(line))
    } else {
        Err(CodecError::InvalidEncoding)
    }
}

/// The line that is sent for a message, newline included: the type, then
/// `access` and `tokenSeq` where they are set, in this order. No other
/// field is ever sent, and for the empty message nothing is.
pub open spec fn frame_text(m: AuthMessageView) -> Seq<char> {
    if m.message_type == AuthMessageType::Empty {
        Seq::empty()
    } else {
        m.message_type.wire_name() + (match m.access {
            Some(access) => " access="@ + access,
            None => Seq::empty(),
        }) + (match m.token_seq {
            Some(token_seq) => " tokenSeq="@ + decimal_text(token_seq as nat),
            None => Seq::empty(),
        }) + "\n"@
    }
}

/// The bytes that are sent for a message.
pub open spec fn frame_bytes(m: AuthMessageView) -> Seq<u8> {
    encode_utf8(frame_text(m))
}

/// Whether a buffer that holds `held` can take the frame of `m`: what it
/// then holds must not pass what one allocation can hold. The empty message
/// has no frame, and always fits.
pub open spec fn frame_fits(held: Seq<u8>, m: AuthMessageView) -> bool {
    m.message_type == AuthMessageType::Empty || held.len() + frame_bytes(m).len() <= isize::MAX
}

/// The scan for the end of a frame stops at the first newline, or at the
/// end of the bytes.
pub proof fn lemma_newline_from_bounds(bytes: Seq<u8>, from: int)
    requires
        0 <= from <= bytes.len(),
    ensures
        from <= newline_from(bytes, from) <= bytes.len(),
        newline_from(bytes, from) < bytes.len() ==> bytes[newline_from(bytes, from)] == NEWLINE,
        forall|i: int| from <= i < newline_from(bytes, from) ==> bytes[i] != NEWLINE,
    decreases bytes.len() - from,
{
    if from < bytes.len() && bytes[from] != NEWLINE {
        lemma_newline_from_bounds(bytes, from + 1);
    }
}

/// The index of the first newline among the bytes, if there is one.
pub fn find_newline(bytes: &[u8]) -> (end: Option<usize>)
    ensures
        match end {
            Some(i) => i < bytes@.len() && i == newline_from(bytes@, 0),
            None => newline_from(bytes@, 0) >= bytes@.len(),
        },
{
    let mut i: usize = 0;
    while i < bytes.len() && bytes[i] != NEWLINE
        invariant
            i <= bytes.len(),
            newline_from(bytes@, 0) == newline_from(bytes@, i as int),
        decreases bytes.len() - i,
    {
        i += 1;
    }
    if i < bytes.len() {
        Some(i)
    } else {
        None
    }
}

impl AuthMessage {
    /// Stores one field token of the form `key=value` in the message. A
    /// token with no `=`, or with more than one, is an error; so is a value
    /// that its field cannot hold. On an error the message stays as it was.
    pub fn store(&mut self, token: &[char]) -> (done: Result<(), CodecError>)
        ensures
            match stored(old(self)@, token@) {
                Ok(after) => done is Ok && final(self)@ == after,
                Err(e) => done == Err::<(), CodecError>(e) && final(self)@ == old(self)@,
            },
    {
        match split_key_value(token) {
            Some((key, raw)) => self.parse_field(key, raw),
            None => Err(CodecError::MalformedField),
        }
    }
}

/// Reads one line, without its newline, as a message.
pub fn parse_line(line: &[char]) -> (parsed: Result<AuthMessage, CodecError>)
    ensures
        match parsed_line(line@) {
            Ok(m) => parsed matches Ok(message) && message@ == m,
            Err(e) => parsed matches Err(error) && error == e,
        },
{
    let parts = split_whitespace(line);
    if parts.len() == 0 {
        return Err(CodecError::MissingMessageType);
    }
    let ghost all = tokens(line@);
    let mut message = AuthMessage::new(AuthMessageType::from_chars(parts[0]));
    let mut i: usize = 1;
    while i < parts.len()
        invariant
            1 <= i <= parts.len(),
            all == tokens(line@),
            parts@.len() == all.len(),
            forall|k: int| 0 <= k < parts@.len() ==> (#[trigger] parts@[k])@ == all[k],
            parsed_line(line@) == stored_all(message@, all.skip(i as int)),
        decreases parts.len() - i,
    {
        assert(all.skip(i as int)[0] == all[i as int]);
        assert(all.skip(i as int).skip(1) == all.skip(i + 1));
        let done = message.store(parts[i]);
        if let Err(e) = done {
            return Err(e);
        }
        i += 1;
    }
    Ok(message)
}

/// The line that is sent for a message, newline included; empty for the
/// empty message.
pub fn frame(message: &AuthMessage) -> (line: String)
    ensures
        line@ == frame_text(message@),
{
    if message.message_type == AuthMessageType::Empty {
        return String::new();
    }
    let mut line = message.message_type.to_string();
    if let Some(access) = &message.access {
        line.append(" access=");
        line.append(access.as_str());
    }
    if let Some(token_seq) = message.token_seq {
        line.append(" tokenSeq=");
        line.append(format_decimal(token_seq).as_str());
    }
    line.append("\n");
    assert(line@ == frame_text(message@));
    line
}

/// The codec of the protocol. It holds no state: every frame is decoded
/// and encoded on its own.
#[derive(Clone, Copy, Debug, Default)]
pub struct AuthCodec;

impl AuthCodec {
    /// Takes the first complete frame off the buffer and decodes it.
    ///
    /// A buffer without a newline is left as it is, and the answer is
    /// `Ok(None)`: more input is needed. Otherwise the line before the first
    /// newline and the newline itself leave the buffer, whatever the line
    /// holds, and nothing after them does; the answer is the message that
    /// the line says, or the error that makes it malformed.
    pub fn decode(&mut self, buf: &mut BytesMut) -> (decoded: Result<
        Option<AuthMessage>,
        CodecError,
    >)
        ensures
            (forall|i: int|
                0 <= i < bytes_of(*old(buf)).len() ==> bytes_of(*old(buf))[i] != NEWLINE)
                ==> (decoded matches Ok(None)) && bytes_of(*final(buf)) == bytes_of(*old(buf)),
            match split_frame(bytes_of(*old(buf))) {
                None => decoded matches Ok(None) && bytes_of(*final(buf)) == bytes_of(*old(buf)),
                Some((line, rest)) => bytes_of(*final(buf)) == rest && match parsed_frame(line) {
                    Ok(m) => decoded matches Ok(Some(message)) && message@ == m,
                    Err(e) => decoded matches Err(error) && error == e,
                },
            },
    {
        let end = match find_newline((*buf).as_ref()) {
            Some(end) => end,
            None => { return Ok(None); },
        };
        proof {
            lemma_newline_from_bounds(bytes_of(*buf), 0);
        }
        let line = buf.split_to(end);
        let _newline = buf.split_to(1);
        assert(bytes_of(*buf) == bytes_of(*old(buf)).subrange(
            end + 1,
            bytes_of(*old(buf)).len() as int,
        ));
        match core::str::from_utf8(line.as_ref()) {
            Ok(text) => {
                broadcast use encode_utf8_decode_utf8;

                let chars = collect_chars(text);
                match parse_line(chars.as_slice()) {
                    Ok(message) => Ok(Some(message)),
                    Err(e) => Err(e),
                }
            },
            Err(_) => Err(CodecError::InvalidEncoding),
        }
    }

    /// Decodes as [`AuthCodec::decode`] does, but takes no line of more than
    /// `max_line` bytes, the newline not counted: where the buffer starts
    /// with more bytes than that and no newline among them, the answer is
    /// `LineTooLong` and the buffer stays as it is, however much of the line
    /// has arrived. This keeps a peer that never sends a newline from filling
    /// the memory.
    pub fn decode_bounded(&mut self, buf: &mut BytesMut, max_line: usize) -> (decoded: Result<
        Option<AuthMessage>,
        CodecError,
    >)
        ensures
            newline_from(bytes_of(*old(buf)), 0) > max_line ==> (decoded matches Err(error)
                && error == CodecError::LineTooLong) && bytes_of(*final(buf)) == bytes_of(
                *old(buf),
            ),
            newline_from(bytes_of(*old(buf)), 0) <= max_line ==> match split_frame(
                bytes_of(*old(buf)),
            ) {
                None => decoded matches Ok(None) && bytes_of(*final(buf)) == bytes_of(*old(buf)),
                Some((line, rest)) => bytes_of(*final(buf)) == rest && match parsed_frame(line) {
                    Ok(m) => decoded matches Ok(Some(message)) && message@ == m,
                    Err(e) => decoded matches Err(error) && error == e,
                },
            },
    {
        let pending = match find_newline((*buf).as_ref()) {
            Some(end) => end,
            None => buf.len(),
        };
        proof {
            lemma_newline_from_bounds(bytes_of(*buf), 0);
        }
        if pending > max_line {
            return Err(CodecError::LineTooLong);
        }
        self.decode(buf)
    }

    /// Appends the frame of a message to the buffer. The empty message adds
    /// nothing. Encoding never fails.
    ///
    /// The buffer has to be able to take the frame: see [`AuthCodec::try_encode`]
    /// for a caller that cannot tell.
    pub fn encode(&mut self, msg: AuthMessage, buf: &mut BytesMut) -> (done: Result<
        (),
        CodecError,
    >)
        requires
            frame_fits(bytes_of(*old(buf)), msg@),
        ensures
            done is Ok,
            bytes_of(*final(buf)) == bytes_of(*old(buf)) + frame_bytes(msg@),
            msg.message_type == AuthMessageType::Empty ==> bytes_of(*final(buf)) == bytes_of(
                *old(buf),
            ),
    {
        if msg.message_type == AuthMessageType::Empty {
            assert(bytes_of(*buf) + Seq::<u8>::empty() == bytes_of(*buf));
            return Ok(());
        }
        let line = frame(&msg);
        append(buf, line.as_str().as_bytes());
        Ok(())
    }

    /// Appends the frame of a message to the buffer where the buffer can take
    /// it, and says whether it could. A buffer that cannot is left as it is.
    pub fn try_encode(&mut self, msg: AuthMessage, buf: &mut BytesMut) -> (fits: bool)
        ensures
            fits == frame_fits(bytes_of(*old(buf)), msg@),
            fits ==> bytes_of(*final(buf)) == bytes_of(*old(buf)) + frame_bytes(msg@),
            !fits ==> bytes_of(*final(buf)) == bytes_of(*old(buf)),
    {
        if msg.message_type == AuthMessageType::Empty {
            assert(bytes_of(*buf) + Seq::<u8>::empty() == bytes_of(*buf));
            return true;
        }
        let line = frame(&msg);
        let bytes = line.as_str().as_bytes();
        let held = buf.len();
        let limit = isize::MAX as usize;
        if held > limit || bytes.len() > limit - held {
            return false;
        }
        append(buf, bytes);
        true
    }
}

} // verus!
