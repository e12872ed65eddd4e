//! What holds of the codec as a whole: framing, and that a frame which was
//! encoded decodes to the message it was made from.

use crate::codec::{
    frame_bytes,
    frame_text,
    newline_from,
    parsed_frame,
    split_frame,
    stored,
    stored_all,
    NEWLINE,
};
use crate::error::CodecError;
use crate::field::{FieldName, FieldValue};
use crate::message::{AuthMessageType, AuthMessageView};
use crate::number::{decimal_text, is_digit, lemma_decimal_text_parses, parse_number};
use crate::text::{
    is_token,
    is_whitespace,
    lemma_key_value_joined,
    lemma_tokens_leading_whitespace,
    lemma_tokens_word,
    tokens,
};
use vstd::prelude::*;
use vstd::utf8::*;

verus! {

/// The encoding of a text is the encoding of its parts, one after another.
pub proof fn lemma_encode_utf8_concat(a: Seq<char>, b: Seq<char>)
    ensures
        encode_utf8(a + b) == encode_utf8(a) + encode_utf8(b),
    decreases a.len(),
{
    if a.len() == 0 {
        assert(a + b == b);
    } else {
        assert((a + b).drop_first() == a.drop_first() + b);
        lemma_encode_utf8_concat(a.drop_first(), b);
    }
}

/// No byte of the encoding of a character other than the newline is the
/// newline byte.
proof fn lemma_encode_scalar_newline_free(c: char)
    requires
        c != '\n',
    ensures
        ({
            let bytes = encode_scalar(c as u32);
            forall|j: int| 0 <= j < bytes.len() ==> #[trigger] bytes[j] != NEWLINE
        }),
{
    let v = c as u32;
    assert(v <= 0x7f && v != 0x0a ==> (v & 0x7f) as u8 != 0x0au8) by (bit_vector);
    assert((0xC0u8 | ((v >> 6) & 0x1F) as u8) != 0x0au8) by (bit_vector);
    assert((0xE0u8 | ((v >> 12) & 0x0F) as u8) != 0x0au8) by (bit_vector);
    assert((0xF0u8 | ((v >> 18) & 0x7) as u8) != 0x0au8) by (bit_vector);
    assert((0x80u8 | (v & 0x3F) as u8) != 0x0au8) by (bit_vector);
    assert((0x80u8 | ((v >> 6) & 0x3F) as u8) != 0x0au8) by (bit_vector);
    assert((0x80u8 | ((v >> 12) & 0x3F) as u8) != 0x0au8) by (bit_vector);
}

/// A text without a newline is encoded without a newline byte.
pub proof fn lemma_encode_utf8_newline_free(s: Seq<char>)
    requires
        forall|i: int| 0 <= i < s.len() ==> s[i] != '\n',
    ensures
        forall|j: int| 0 <= j < encode_utf8(s).len() ==> #[trigger] encode_utf8(s)[j] != NEWLINE,
    decreases s.len(),
{
    if s.len() > 0 {
        let head = encode_scalar(s[0] as u32);
        let tail = encode_utf8(s.drop_first());
        lemma_encode_scalar_newline_free(s[0]);
        lemma_encode_utf8_newline_free(s.drop_first());
        assert forall|j: int| 0 <= j < encode_utf8(s).len() implies #[trigger] encode_utf8(s)[j]
            != NEWLINE by {
            if j < head.len() {
                assert(encode_utf8(s)[j] == head[j]);
            } else {
                assert(encode_utf8(s)[j] == tail[j - head.len()]);
            }
        }
    }
}

/// A position that holds a newline with none before it is where the scan
/// for the end of the frame stops.
proof fn lemma_newline_from_reaches(bytes: Seq<u8>, from: int, at: int)
    requires
        0 <= from <= at <= bytes.len(),
        forall|i: int| from <= i < at ==> bytes[i] != NEWLINE,
        at == bytes.len() || bytes[at] == NEWLINE,
    ensures
        newline_from(bytes, from) == at,
    decreases at - from,
{
    if from < at {
        lemma_newline_from_reaches(bytes, from + 1, at);
    }
}

/// Framing: a line that holds no newline, followed by a newline and by
/// anything else, is the first frame of the buffer, and what follows the
/// newline is what is left. The newline belongs to neither.
pub proof fn lemma_split_frame_of_line(line: Seq<u8>, rest: Seq<u8>)
    requires
        forall|i: int| 0 <= i < line.len() ==> line[i] != NEWLINE,
    ensures
        split_frame(line + seq![NEWLINE] + rest) == Some((line, rest)),
{
    let bytes = line + seq![NEWLINE] + rest;
    let end = line.len() as int;
    assert forall|i: int| 0 <= i < end implies bytes[i] != NEWLINE by {
        assert(bytes[i] == line[i]);
    }
    assert(bytes[end] == NEWLINE);
    lemma_newline_from_reaches(bytes, 0, end);
    assert(bytes.subrange(0, end) == line);
    assert(bytes.subrange(end + 1, bytes.len() as int) == rest);
}

/// A buffer without a newline holds no complete frame.
pub proof fn lemma_split_frame_incomplete(bytes: Seq<u8>)
    requires
        forall|i: int| 0 <= i < bytes.len() ==> bytes[i] != NEWLINE,
    ensures
        split_frame(bytes) is None,
{
    lemma_newline_from_reaches(bytes, 0, bytes.len() as int);
}

/// Of two pairs with the same key, the later one decides: storing both is
/// storing the later one alone.
pub proof fn lemma_last_assignment_wins(
    m: AuthMessageView,
    key: Seq<char>,
    first: Seq<char>,
    last: Seq<char>,
)
    requires
        m.assign(key, first) is Ok,
    ensures
        m.assign(key, first)->Ok_0.assign(key, last) == m.assign(key, last),
{
}

/// A key that the field table lacks changes nothing, whatever its value.
pub proof fn lemma_unknown_key_ignored(m: AuthMessageView, key: Seq<char>, raw: Seq<char>)
    requires
        forall|f: FieldName| #[trigger] f.wire_name() != key,
    ensures
        m.assign(key, raw) == Ok::<AuthMessageView, CodecError>(m),
{
}

/// A message that can be sent and read back: it is not the empty message,
/// for which nothing is sent, and its `access` value, if it has one, holds
/// neither whitespace nor `=`, which would break the line into other tokens.
pub open spec fn sendable(m: AuthMessageView) -> bool {
    &&& m.message_type != AuthMessageType::Empty
    &&& m.access matches Some(access) ==> forall|i: int|
        0 <= i < access.len() ==> !is_whitespace(#[trigger] access[i]) && access[i] != '='
}

/// What of a message reaches the wire: its type, `access` and `tokenSeq`.
/// Every other field is unset.
pub open spec fn sent_part(m: AuthMessageView) -> AuthMessageView {
    AuthMessageView {
        access: m.access,
        token_seq: m.token_seq,
        ..AuthMessageView::new(m.message_type)
    }
}

/// The token that carries `access` on the wire.
pub open spec fn access_token(access: Seq<char>) -> Seq<char> {
    "access"@ + seq!['='] + access
}

/// The token that carries `tokenSeq` on the wire.
pub open spec fn token_seq_token(token_seq: u32) -> Seq<char> {
    "tokenSeq"@ + seq!['='] + decimal_text(token_seq as nat)
}

/// The field tokens of the line that is sent for a message, in order.
pub open spec fn sent_fields(m: AuthMessageView) -> Seq<Seq<char>> {
    (match m.access {
        Some(access) => seq![access_token(access)],
        None => Seq::empty(),
    }) + (match m.token_seq {
        Some(token_seq) => seq![token_seq_token(token_seq)],
        None => Seq::empty(),
    })
}

/// The tokens, each with one space before it.
pub open spec fn spaced(fields: Seq<Seq<char>>) -> Seq<char>
    decreases fields.len(),
{
    if fields.len() == 0 {
        Seq::empty()
    } else {
        seq![' '] + fields[0] + spaced(fields.skip(1))
    }
}

/// Tokens written with a space before each are read back as they were.
pub proof fn lemma_tokens_of_spaced(fields: Seq<Seq<char>>)
    requires
        forall|k: int| 0 <= k < fields.len() ==> is_token(#[trigger] fields[k]),
    ensures
        tokens(spaced(fields)) == fields,
        spaced(fields).len() == 0 || is_whitespace(spaced(fields)[0]),
    decreases fields.len(),
{
    if fields.len() == 0 {
        assert(tokens(Seq::<char>::empty()) == Seq::<Seq<char>>::empty());
    } else {
        let word = fields[0];
        let rest = spaced(fields.skip(1));
        assert(is_token(word));
        assert forall|k: int| 0 <= k < fields.skip(1).len() implies is_token(
            #[trigger] fields.skip(1)[k],
        ) by {
            assert(fields.skip(1)[k] == fields[k + 1]);
        }
        lemma_tokens_of_spaced(fields.skip(1));
        assert(spaced(fields) == seq![' '] + (word + rest));
        lemma_tokens_leading_whitespace(' ', word + rest);
        lemma_tokens_word(word, rest);
        assert(seq![word] + fields.skip(1) == fields);
    }
}

/// Every type but the empty one is read back from its own tag, and the
/// tag is one token.
pub proof fn lemma_type_name_round_trip(t: AuthMessageType)
    requires
        t != AuthMessageType::Empty,
    ensures
        AuthMessageType::from_name(t.wire_name()) == t,
        is_token(t.wire_name()),
{
    reveal_strlit("infoReq");
    reveal_strlit("keepAliveReq");
    reveal_strlit("keepAliveCnf");
    reveal_strlit("discInf");
    reveal_strlit("discRsp");
    reveal_strlit("connInf");
    reveal_strlit("connRsp");
    reveal_strlit("unknown");
    // The places that tell the tags of one length apart.
    assert("infoReq"@[0] == 'i' && "infoReq"@[4] == 'R');
    assert("discInf"@[0] == 'd' && "discInf"@[4] == 'I');
    assert("discRsp"@[0] == 'd' && "discRsp"@[4] == 'R');
    assert("connInf"@[0] == 'c' && "connInf"@[4] == 'I');
    assert("connRsp"@[0] == 'c' && "connRsp"@[4] == 'R');
    assert("unknown"@[0] == 'u');
    assert("keepAliveReq"@[9] == 'R' && "keepAliveCnf"@[9] == 'C');
    assert("keepAliveReq"@.len() == 12 && "infoReq"@.len() == 7);
}

/// A key of the field table holds neither `=` nor whitespace.
proof fn lemma_sent_keys_plain()
    ensures
        "access"@.len() == 6,
        "tokenSeq"@.len() == 8,
        forall|i: int| 0 <= i < 6 ==> "access"@[i] != '=' && !is_whitespace("access"@[i]),
        forall|i: int| 0 <= i < 8 ==> "tokenSeq"@[i] != '=' && !is_whitespace("tokenSeq"@[i]),
{
    reveal_strlit("access");
    reveal_strlit("tokenSeq");
}

/// A key, `=` and a value, each free of whitespace, make one token.
proof fn lemma_joined_is_token(key: Seq<char>, raw: Seq<char>)
    requires
        forall|i: int| 0 <= i < key.len() ==> !is_whitespace(key[i]),
        forall|i: int| 0 <= i < raw.len() ==> !is_whitespace(raw[i]),
    ensures
        is_token(key + seq!['='] + raw),
{
    let token = key + seq!['='] + raw;
    assert forall|i: int| 0 <= i < token.len() implies !is_whitespace(#[trigger] token[i]) by {
        if i < key.len() {
            assert(token[i] == key[i]);
        } else if i > key.len() {
            assert(token[i] == raw[i - key.len() - 1]);
        }
    }
}

/// The `access` token sets `access`, and nothing else.
pub proof fn lemma_access_token_stored(m: AuthMessageView, access: Seq<char>)
    requires
        forall|i: int|
            0 <= i < access.len() ==> !is_whitespace(#[trigger] access[i]) && access[i] != '=',
    ensures
        is_token(access_token(access)),
        stored(m, access_token(access)) == Ok::<AuthMessageView, CodecError>(
            AuthMessageView { access: Some(access), ..m },
        ),
{
    let key = "access"@;
    lemma_sent_keys_plain();
    lemma_joined_is_token(key, access);
    lemma_key_value_joined(key, access);
    FieldName::lemma_named_by_wire_name(FieldName::Access);
    assert(m.assign(key, access) == Ok::<AuthMessageView, CodecError>(
        m.with(FieldName::Access, FieldValue::Text(access)),
    ));
}

/// The `tokenSeq` token sets `tokenSeq`, and nothing else.
pub proof fn lemma_token_seq_token_stored(m: AuthMessageView, token_seq: u32)
    ensures
        is_token(token_seq_token(token_seq)),
        stored(m, token_seq_token(token_seq)) == Ok::<AuthMessageView, CodecError>(
            AuthMessageView { token_seq: Some(token_seq), ..m },
        ),
{
    let key = "tokenSeq"@;
    let digits = decimal_text(token_seq as nat);
    lemma_sent_keys_plain();
    lemma_decimal_text_parses(token_seq as nat);
    assert forall|i: int| 0 <= i < digits.len() implies digits[i] != '=' && !is_whitespace(
        digits[i],
    ) by {
        assert(is_digit(digits[i], 10));
    }
    lemma_joined_is_token(key, digits);
    lemma_key_value_joined(key, digits);
    FieldName::lemma_named_by_wire_name(FieldName::TokenSeq);
    assert(parse_number(digits, 10, u32::MAX as int) == Some(token_seq as int));
    assert(m.assign(key, digits) == Ok::<AuthMessageView, CodecError>(
        m.with(FieldName::TokenSeq, FieldValue::Number32(token_seq)),
    ));
}

/// The line that is sent for a message is its tag followed by its field
/// tokens, each after one space, and then the newline.
pub proof fn lemma_frame_text_shape(m: AuthMessageView)
    requires
        m.message_type != AuthMessageType::Empty,
    ensures
        frame_text(m) == m.message_type.wire_name() + spaced(sent_fields(m)) + seq!['\n'],
{
    reveal_strlit(" access=");
    reveal_strlit(" tokenSeq=");
    reveal_strlit("access");
    reveal_strlit("tokenSeq");
    reveal_strlit("\n");
    reveal_with_fuel(spaced, 3);
    let fields = sent_fields(m);
    assert(" access="@ == seq![' '] + "access"@ + seq!['=']);
    assert(" tokenSeq="@ == seq![' '] + "tokenSeq"@ + seq!['=']);
    assert("\n"@ == seq!['\n']);
    match (m.access, m.token_seq) {
        (Some(access), Some(token_seq)) => {
            assert(fields.skip(1) == seq![token_seq_token(token_seq)]);
            assert(fields.skip(1).skip(1) == Seq::<Seq<char>>::empty());
            assert(spaced(fields) == " access="@ + access + (" tokenSeq="@ + decimal_text(
                token_seq as nat,
            )));
        },
        (Some(access), None) => {
            assert(fields.skip(1) == Seq::<Seq<char>>::empty());
            assert(spaced(fields) == " access="@ + access);
        },
        (None, Some(token_seq)) => {
            assert(fields.skip(1) == Seq::<Seq<char>>::empty());
            assert(spaced(fields) == " tokenSeq="@ + decimal_text(token_seq as nat));
        },
        (None, None) => {},
    }
}

/// The field tokens of a sent line store `access` and `tokenSeq`, and
/// nothing else.
pub proof fn lemma_sent_fields_stored(m: AuthMessageView)
    requires
        sendable(m),
    ensures
        forall|k: int| 0 <= k < sent_fields(m).len() ==> is_token(#[trigger] sent_fields(m)[k]),
        stored_all(AuthMessageView::new(m.message_type), sent_fields(m)) == Ok::<
            AuthMessageView,
            CodecError,
        >(sent_part(m)),
{
    reveal_with_fuel(stored_all, 3);
    let start = AuthMessageView::new(m.message_type);
    let fields = sent_fields(m);
    match (m.access, m.token_seq) {
        (Some(access), Some(token_seq)) => {
            lemma_access_token_stored(start, access);
            let next = AuthMessageView { access: Some(access), ..start };
            lemma_token_seq_token_stored(next, token_seq);
            assert(fields.skip(1) == seq![token_seq_token(token_seq)]);
            assert(fields.skip(1).skip(1) == Seq::<Seq<char>>::empty());
        },
        (Some(access), None) => {
            lemma_access_token_stored(start, access);
            assert(fields.skip(1) == Seq::<Seq<char>>::empty());
        },
        (None, Some(token_seq)) => {
            lemma_token_seq_token_stored(start, token_seq);
            assert(fields.skip(1) == Seq::<Seq<char>>::empty());
        },
        (None, None) => {},
    }
}

/// Decoding inverts encoding: where the frame of a sendable message stands
/// at the start of a buffer, it is the first frame there, the bytes after
/// it are what is left, and it decodes to the message's type, `access` and
/// `tokenSeq` with every other field unset.
pub proof fn lemma_decode_inverts_encode(m: AuthMessageView, rest: Seq<u8>)
    requires
        sendable(m),
    ensures
        split_frame(frame_bytes(m) + rest) matches Some((line, after)) && after == rest
            && parsed_frame(line) == Ok::<AuthMessageView, CodecError>(sent_part(m)),
{
    broadcast use {encode_utf8_valid_utf8, encode_utf8_decode_utf8};

    let name = m.message_type.wire_name();
    let fields = sent_fields(m);
    let body = name + spaced(fields);
    let line = encode_utf8(body);
    lemma_frame_text_shape(m);
    lemma_type_name_round_trip(m.message_type);
    lemma_sent_fields_stored(m);
    lemma_tokens_of_spaced(fields);
    // The bytes: the line, one newline, and the rest.
    lemma_encode_utf8_concat(body, seq!['\n']);
    assert(encode_utf8(seq!['\n']) == seq![NEWLINE]) by {
        reveal_with_fuel(encode_utf8, 2);
        assert((0x0au32 & 0x7F) as u8 == 0x0au8) by (bit_vector);
    }
    assert forall|i: int| 0 <= i < body.len() implies body[i] != '\n' by {
        lemma_spaced_no_newline(fields, i - name.len());
    }
    lemma_encode_utf8_newline_free(body);
    lemma_split_frame_of_line(line, rest);
    // The text: the tag, then the field tokens.
    lemma_tokens_word(name, spaced(fields));
    assert((seq![name] + fields).skip(1) == fields);
}

/// No character of tokens written with spaces is a newline.
proof fn lemma_spaced_no_newline(fields: Seq<Seq<char>>, i: int)
    requires
        forall|k: int| 0 <= k < fields.len() ==> is_token(#[trigger] fields[k]),
    ensures
        0 <= i < spaced(fields).len() ==> spaced(fields)[i] != '\n',
    decreases fields.len(),
{
    if fields.len() > 0 {
        let word = fields[0];
        assert(is_token(word));
        assert forall|k: int| 0 <= k < fields.skip(1).len() implies is_token(
            #[trigger] fields.skip(1)[k],
        ) by {
            assert(fields.skip(1)[k] == fields[k + 1]);
        }
        lemma_spaced_no_newline(fields.skip(1), i - 1 - word.len());
        if 1 <= i <= word.len() {
            assert(spaced(fields)[i] == word[i - 1]);
        }
    }
}

} // verus!
