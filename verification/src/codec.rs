//! The OSC 52 frame codec: building copy and paste-request escape frames and
//! decoding paste responses. Pure byte manipulation, no I/O; base64
//! transcoding is delegated to the `base64` crate.

use base64::prelude::{Engine as _, BASE64_STANDARD};
use vstd::prelude::*;

verus! {

/// The escape byte opening every OSC frame.
pub const ESC: u8 = 0x1b;

/// The BEL control byte, the sole frame terminator this codec recognizes.
pub const BEL: u8 = 0x07;

/// The `;` byte separating the fields of a frame.
pub const SEMICOLON: u8 = 0x3b;

/// The `?` byte standing as the payload of a paste request.
pub const QUERY: u8 = 0x3f;

/// Which clipboard of the terminal emulator an exchange addresses.
#[derive(Clone, Copy, Debug, PartialEq, Eq, Structural)]
pub enum Selection {
    Clipboard,
    Primary,
}

/// The selector byte a selection contributes to the wire frame.
pub open spec fn selector_byte_spec(selection: Selection) -> u8 {
    match selection {
        Selection::Clipboard => 0x63,  // `c`
        Selection::Primary => 0x70,  // `p`
    }
}

/// The selection named by the `--primary` switch.
pub open spec fn selection_of(primary: bool) -> Selection {
    if primary {
        Selection::Primary
    } else {
        Selection::Clipboard
    }
}

impl Selection {
    /// The selector byte of this selection.
    pub fn selector_byte(self) -> (byte: u8)
        ensures
            byte == selector_byte_spec(self),
    {
        match self {
            Selection::Clipboard => 0x63,
            Selection::Primary => 0x70,
        }
    }

    /// The selection named by the `--primary` switch.
    pub fn from_primary(primary: bool) -> (selection: Selection)
        ensures
            selection == selection_of(primary),
    {
        if primary {
            Selection::Primary
        } else {
            Selection::Clipboard
        }
    }
}

/// Why a paste response could not be decoded.
#[derive(Clone, Copy, Debug, PartialEq, Eq, Structural)]
pub enum DecodeError {
    /// The response holds no `;` separator at all.
    MalformedFrame,
    /// The trailing segment of the response does not end with BEL.
    MissingTerminator,
    /// The payload between the last `;` and the terminator is not valid base64.
    InvalidPayload,
}

/// The base64 text that the standard engine produces for the given bytes.
pub uninterp spec fn base64_encoding_of(content: Seq<u8>) -> Seq<u8>;

/// What the standard engine decodes the given base64 text to, or `None`
/// where it rejects the text.
pub uninterp spec fn base64_decoding_of(payload: Seq<u8>) -> Option<Seq<u8>>;

/// Whether a byte belongs to the standard base64 alphabet or is its
/// `=` padding.
pub open spec fn is_base64_symbol(byte: u8) -> bool {
    ||| 0x41 <= byte <= 0x5a  // `A` ..= `Z`
    ||| 0x61 <= byte <= 0x7a  // `a` ..= `z`
    ||| 0x30 <= byte <= 0x39  // `0` ..= `9`
    ||| byte == 0x2b  // `+`
    ||| byte == 0x2f  // `/`
    ||| byte == 0x3d  // `=`
}

/// Relies on `base64::engine::Engine::encode` with `BASE64_STANDARD`: the
/// result is a function of the input bytes alone, it is drawn from the
/// standard alphabet with `=` padding, decoding it yields the input back,
/// and empty content encodes to the empty text.
#[verifier::external_body]
fn base64_encode(content: &[u8]) -> (encoded: Vec<u8>)
    ensures
        encoded@ == base64_encoding_of(content@),
        forall|i: int| 0 <= i < encoded@.len() ==> #[trigger] is_base64_symbol(encoded@[i]),
        base64_decoding_of(encoded@) == Some(content@),
        content@.len() == 0 ==> encoded@.len() == 0,
{
    BASE64_STANDARD.encode(content).into_bytes()
}

/// The element-wise view of an optional byte vector.
pub open spec fn decoded_view(decoded: Option<Vec<u8>>) -> Option<Seq<u8>> {
    match decoded {
        Some(content) => Some(content@),
        None => None,
    }
}

/// Relies on `base64::engine::Engine::decode` with `BASE64_STANDARD`: whether
/// it succeeds, and the bytes it returns, are a function of the payload
/// alone, and the empty payload decodes to no bytes.
#[verifier::external_body]
fn base64_decode(payload: &[u8]) -> (decoded: Option<Vec<u8>>)
    ensures
        decoded_view(decoded) == base64_decoding_of(payload@),
        payload@.len() == 0 ==> decoded_view(decoded) == Some(Seq::<u8>::empty()),
{
    match BASE64_STANDARD.decode(payload) {
        Ok(content) => Some(content),
        Err(_) => None,
    }
}

/// The fixed head of every frame: `ESC ] 5 2 ; <selector> ;`.
pub open spec fn frame_prefix(selection: Selection) -> Seq<u8> {
    seq![ESC, 0x5d, 0x35, 0x32, SEMICOLON, selector_byte_spec(selection), SEMICOLON]
}

/// The full copy frame for the given content and selection.
pub open spec fn copy_frame(content: Seq<u8>, selection: Selection) -> Seq<u8> {
    frame_prefix(selection) + base64_encoding_of(content) + seq![BEL]
}

/// The full paste-request frame for the given selection.
pub open spec fn paste_request_frame(selection: Selection) -> Seq<u8> {
    frame_prefix(selection) + seq![QUERY, BEL]
}

/// Whether the bytes hold at least one `;`.
pub open spec fn contains_semicolon(bytes: Seq<u8>) -> bool
    decreases bytes.len(),
{
    if bytes.len() == 0 {
        false
    } else {
        bytes.last() == SEMICOLON || contains_semicolon(bytes.drop_last())
    }
}

/// The segment after the last `;`, or the whole input where it holds none.
pub open spec fn segment_after_last_semicolon(bytes: Seq<u8>) -> Seq<u8>
    decreases bytes.len(),
{
    if bytes.len() == 0 {
        Seq::empty()
    } else if bytes.last() == SEMICOLON {
        Seq::empty()
    } else {
        segment_after_last_semicolon(bytes.drop_last()).push(bytes.last())
    }
}

/// Whether the bytes end with the BEL terminator.
pub open spec fn ends_with_bel(bytes: Seq<u8>) -> bool {
    bytes.len() > 0 && bytes.last() == BEL
}

/// What decoding a paste response yields: the base64 decoding of the segment
/// between the last `;` and the trailing BEL, or the error that rules the
/// response out.
pub open spec fn decode_paste_spec(response: Seq<u8>) -> Result<Seq<u8>, DecodeError> {
    if !contains_semicolon(response) {
        Err(DecodeError::MalformedFrame)
    } else if !ends_with_bel(segment_after_last_semicolon(response)) {
        Err(DecodeError::MissingTerminator)
    } else {
        match base64_decoding_of(segment_after_last_semicolon(response).drop_last()) {
            Some(content) => Ok(content),
            None => Err(DecodeError::InvalidPayload),
        }
    }
}

proof fn lemma_contains_semicolon_iff(bytes: Seq<u8>)
    ensures
        contains_semicolon(bytes) <==> (exists|j: int|
            0 <= j < bytes.len() && bytes[j] == SEMICOLON),
    decreases bytes.len(),
{
    if bytes.len() > 0 {
        lemma_contains_semicolon_iff(bytes.drop_last());
        if contains_semicolon(bytes) {
            if bytes.last() == SEMICOLON {
                assert(bytes[bytes.len() - 1] == SEMICOLON);
            } else {
                let j = choose|j: int|
                    0 <= j < bytes.drop_last().len() && bytes.drop_last()[j] == SEMICOLON;
                assert(bytes[j] == SEMICOLON);
            }
        }
        if exists|j: int| 0 <= j < bytes.len() && bytes[j] == SEMICOLON {
            let j = choose|j: int| 0 <= j < bytes.len() && bytes[j] == SEMICOLON;
            if j < bytes.len() - 1 {
                assert(bytes.drop_last()[j] == SEMICOLON);
            }
        }
    }
}

proof fn lemma_segment_of_suffix(bytes: Seq<u8>, cut: int)
    requires
        0 < cut <= bytes.len(),
        bytes[cut - 1] == SEMICOLON,
        forall|j: int| cut <= j < bytes.len() ==> bytes[j] != SEMICOLON,
    ensures
        segment_after_last_semicolon(bytes) == bytes.subrange(cut, bytes.len() as int),
    decreases bytes.len(),
{
    if cut == bytes.len() {
        assert(bytes.last() == SEMICOLON);
        assert(segment_after_last_semicolon(bytes) =~= bytes.subrange(cut, bytes.len() as int));
    } else {
        assert(bytes.last() != SEMICOLON);
        lemma_segment_of_suffix(bytes.drop_last(), cut);
        assert(segment_after_last_semicolon(bytes) =~= bytes.subrange(cut, bytes.len() as int));
    }
}

/// Builds the copy frame `ESC ] 5 2 ; <selector> ; base64(content) BEL`.
/// Encoding is total: it succeeds on every content, text or not.
///
/// Round trip: the frame it builds always decodes back to `content`.
pub fn encode_copy(content: &[u8], selection: Selection) -> (frame: Vec<u8>)
    ensures
        frame@ == copy_frame(content@, selection),
        decode_paste_spec(frame@) == Ok::<Seq<u8>, DecodeError>(content@),
{
    let mut frame: Vec<u8> = Vec::new();
    push_frame_prefix(&mut frame, selection);
    let mut encoded = base64_encode(content);
    proof {
        lemma_copy_frame_decodes(content@, selection);
    }
    frame.append(&mut encoded);
    frame.push(BEL);
    proof {
        assert(frame@ =~= copy_frame(content@, selection));
    }
    frame
}

/// Builds the paste-request frame `ESC ] 5 2 ; <selector> ; ? BEL`.
pub fn encode_paste_request(selection: Selection) -> (frame: Vec<u8>)
    ensures
        frame@ == paste_request_frame(selection),
{
    let mut frame: Vec<u8> = Vec::new();
    push_frame_prefix(&mut frame, selection);
    frame.push(QUERY);
    frame.push(BEL);
    proof {
        assert(frame@ =~= paste_request_frame(selection));
    }
    frame
}

fn push_frame_prefix(frame: &mut Vec<u8>, selection: Selection)
    ensures
        final(frame)@ == old(frame)@ + frame_prefix(selection),
{
    frame.push(ESC);
    frame.push(0x5d);  // `]`
    frame.push(0x35);  // `5`
    frame.push(0x32);  // `2`
    frame.push(SEMICOLON);
    frame.push(selection.selector_byte());
    frame.push(SEMICOLON);
    proof {
        assert(frame@ =~= old(frame)@ + frame_prefix(selection));
    }
}

proof fn lemma_copy_frame_decodes(content: Seq<u8>, selection: Selection)
    requires
        base64_decoding_of(base64_encoding_of(content)) == Some(content),
        forall|i: int|
            0 <= i < base64_encoding_of(content).len() ==> #[trigger] is_base64_symbol(
                base64_encoding_of(content)[i],
            ),
    ensures
        decode_paste_spec(copy_frame(content, selection)) == Ok::<Seq<u8>, DecodeError>(content),
{
    let encoded = base64_encoding_of(content);
    let frame = copy_frame(content, selection);
    assert(frame[6] == SEMICOLON);
    lemma_contains_semicolon_iff(frame);
    assert forall|j: int| 7 <= j < frame.len() implies frame[j] != SEMICOLON by {
        if j < 7 + encoded.len() {
            assert(frame[j] == encoded[j - 7]);
            assert(is_base64_symbol(encoded[j - 7]));
        } else {
            assert(frame[j] == BEL);
        }
    }
    lemma_segment_of_suffix(frame, 7);
    let tail = segment_after_last_semicolon(frame);
    assert(tail =~= encoded + seq![BEL]);
    assert(ends_with_bel(tail));
    assert(tail.drop_last() =~= encoded);
}

/// Only the segment after the last `;` matters to decoding: two responses
/// with the same trailing segment decode alike, however many `;`-delimited
/// fields the emulator echoed before it.
pub proof fn lemma_decode_ignores_leading_fields(first: Seq<u8>, second: Seq<u8>)
    requires
        contains_semicolon(first),
        contains_semicolon(second),
        segment_after_last_semicolon(first) == segment_after_last_semicolon(second),
    ensures
        decode_paste_spec(first) == decode_paste_spec(second),
{
}

/// Decodes a paste response: splits on `;` and takes the trailing segment
/// (failing with `MalformedFrame` where the response holds no `;`), requires
/// that segment to end with BEL (failing with `MissingTerminator` otherwise),
/// and base64-decodes what precedes the terminator (failing with
/// `InvalidPayload` where the payload is not valid base64). An empty payload
/// decodes to empty content: an empty clipboard is not an error.
pub fn decode_paste(response: &[u8]) -> (outcome: Result<Vec<u8>, DecodeError>)
    ensures
        (outcome matches Ok(content) ==> decode_paste_spec(response@) == Ok::<
            Seq<u8>,
            DecodeError,
        >(content@)),
        (outcome matches Err(reason) ==> decode_paste_spec(response@) == Err::<
            Seq<u8>,
            DecodeError,
        >(reason)),
        !contains_semicolon(response@) ==> outcome == Err::<Vec<u8>, DecodeError>(
            DecodeError::MalformedFrame,
        ),
        contains_semicolon(response@) && !ends_with_bel(
            segment_after_last_semicolon(response@),
        ) ==> outcome == Err::<Vec<u8>, DecodeError>(DecodeError::MissingTerminator),
        contains_semicolon(response@) && ends_with_bel(segment_after_last_semicolon(response@))
            && base64_decoding_of(segment_after_last_semicolon(response@).drop_last()) is None
            ==> outcome == Err::<Vec<u8>, DecodeError>(DecodeError::InvalidPayload),
        contains_semicolon(response@) && ends_with_bel(segment_after_last_semicolon(response@))
            && segment_after_last_semicolon(response@).drop_last().len() == 0 ==> (outcome
            matches Ok(content) && content@ == Seq::<u8>::empty()),
{
    let length: usize = response.len();
    let mut cut: usize = length;
    while cut > 0 && response[cut - 1] != SEMICOLON
        invariant
            cut <= length,
            length == response@.len(),
            forall|j: int| cut <= j < length ==> response@[j] != SEMICOLON,
        decreases cut,
    {
        cut = cut - 1;
    }
    if cut == 0 {
        proof {
            lemma_contains_semicolon_iff(response@);
        }
        return Err(DecodeError::MalformedFrame);
    }
    proof {
        lemma_contains_semicolon_iff(response@);
        assert(response@[cut - 1] == SEMICOLON);
        lemma_segment_of_suffix(response@, cut as int);
    }
    let ghost tail = segment_after_last_semicolon(response@);
    if cut == length || response[length - 1] != BEL {
        proof {
            if cut < length {
                assert(tail.last() == response@[length - 1]);
            }
        }
        return Err(DecodeError::MissingTerminator);
    }
    proof {
        assert(tail.last() == response@[length - 1]);
        assert(tail.drop_last() =~= response@.subrange(cut as int, length - 1));
    }
    let payload: &[u8] = &response[cut..length - 1];
    match base64_decode(payload) {
        Some(content) => Ok(content),
        None => Err(DecodeError::InvalidPayload),
    }
}

} // verus!
