//! A streaming decoder from terminal input bytes to key and paste events.

use vstd::prelude::*;
use vstd::utf8::{valid_utf8, decode_utf8};
use vstd::string::StrSliceExecFns;

use crate::bang_core::event::{Event, EventModel, Key, KeyEvent, Modifiers, plain_key, modified_key};

verus! {

// ---------------------------------------------------------------------------
// The meaning of a byte stream
// ---------------------------------------------------------------------------

/// `ESC [ 2 0 0 ~`, which opens a bracketed paste.
pub open spec fn paste_start() -> Seq<u8> {
    seq![27u8, 91u8, 50u8, 48u8, 48u8, 126u8]
}

/// `ESC [ 2 0 1 ~`, which closes a bracketed paste.
pub open spec fn paste_end() -> Seq<u8> {
    seq![27u8, 91u8, 50u8, 48u8, 49u8, 126u8]
}

/// The number of bytes of the UTF-8 encoding that a leading byte announces,
/// or 0 for a byte that cannot lead an encoding.
pub open spec fn utf8_width(first: u8) -> nat {
    if first <= 0x7f {
        1
    } else if 0xc2 <= first <= 0xdf {
        2
    } else if 0xe0 <= first <= 0xef {
        3
    } else if 0xf0 <= first <= 0xf4 {
        4
    } else {
        0
    }
}

/// What the start of a byte sequence holds as UTF-8.
pub enum Utf8Prefix {
    /// A character and the length of its encoding.
    Char(char, nat),
    /// The leading byte announces more bytes than there are yet.
    Pending,
    /// The bytes cannot start an encoding.
    Invalid,
}

pub open spec fn utf8_prefix(bytes: Seq<u8>) -> Utf8Prefix
    recommends
        bytes.len() > 0,
{
    let width = utf8_width(bytes[0]);
    if width == 0 {
        Utf8Prefix::Invalid
    } else if bytes.len() < width {
        Utf8Prefix::Pending
    } else {
        let unit = bytes.subrange(0, width as int);
        if valid_utf8(unit) && decode_utf8(unit).len() > 0 {
            Utf8Prefix::Char(decode_utf8(unit)[0], width)
        } else {
            Utf8Prefix::Invalid
        }
    }
}

/// The letter that a control byte `0x01..=0x1a` is typed with.
pub open spec fn control_letter(byte: u8) -> char {
    ((96 + byte) as u8) as char
}

pub open spec fn is_digit(byte: u8) -> bool {
    48 <= byte <= 57
}

/// The number that a sequence of ASCII digits writes in decimal.
pub open spec fn decimal_value(digits: Seq<u8>) -> int
    decreases digits.len(),
{
    if digits.len() == 0 {
        0
    } else {
        decimal_value(digits.drop_last()) * 10 + (digits.last() - 48)
    }
}

pub open spec fn all_digits(digits: Seq<u8>) -> bool {
    forall|i: int| 0 <= i < digits.len() ==> is_digit(#[trigger] digits[i])
}

/// The digits of an unsigned number, after an optional leading `+`.
pub open spec fn unsigned_digits(part: Seq<u8>) -> Seq<u8> {
    if part.len() > 0 && part[0] == 43 {
        part.drop_first()
    } else {
        part
    }
}

/// A `u16` written in decimal, with an optional leading `+`.
pub open spec fn parse_u16(part: Seq<u8>) -> Option<u16> {
    let digits = unsigned_digits(part);
    if digits.len() > 0 && all_digits(digits) && decimal_value(digits) <= 65535 {
        Some(decimal_value(digits) as u16)
    } else {
        None
    }
}

/// The first index at or after `from` that holds `target`, or the length of
/// `bytes` when there is none.
pub open spec fn index_of_from(bytes: Seq<u8>, target: u8, from: int) -> int
    decreases bytes.len() - from,
{
    if from >= bytes.len() {
        bytes.len() as int
    } else if bytes[from] == target {
        from
    } else {
        index_of_from(bytes, target, from + 1)
    }
}

/// The `;`-separated parameters of a control sequence, each a `u16`.
pub open spec fn parse_param_list(bytes: Seq<u8>) -> Option<Seq<u16>>
    decreases bytes.len(),
{
    let split = index_of_from(bytes, 59, 0);
    proof {
        lemma_index_of_from_bounds(bytes, 59, 0);
    }
    match parse_u16(bytes.subrange(0, split)) {
        None => None,
        Some(value) => if split >= bytes.len() {
            Some(seq![value])
        } else {
            match parse_param_list(bytes.subrange(split + 1, bytes.len() as int)) {
                None => None,
                Some(rest) => Some(seq![value] + rest),
            }
        },
    }
}

pub open spec fn parse_params(bytes: Seq<u8>) -> Option<Seq<u16>> {
    if bytes.len() == 0 {
        Some(Seq::empty())
    } else {
        parse_param_list(bytes)
    }
}

/// The modifier bits that an xterm modifier parameter encodes.
pub open spec fn xterm_modifier_bits(parameter: u16) -> Option<u8> {
    if 1 <= parameter <= 8 {
        Some((parameter - 1) as u8)
    } else {
        None
    }
}

/// The key that a `CSI n ~` sequence names.
pub open spec fn tilde_key(parameter: u16) -> Option<Key> {
    if parameter == 1 || parameter == 7 {
        Some(Key::Home)
    } else if parameter == 3 {
        Some(Key::Delete)
    } else if parameter == 4 || parameter == 8 {
        Some(Key::End)
    } else if parameter == 5 {
        Some(Key::PageUp)
    } else if parameter == 6 {
        Some(Key::PageDown)
    } else {
        None
    }
}

/// The arrow, Home or End key that a final byte names.
pub open spec fn cursor_key(final_byte: u8) -> Option<Key> {
    if final_byte == 65 {
        Some(Key::Up)
    } else if final_byte == 66 {
        Some(Key::Down)
    } else if final_byte == 67 {
        Some(Key::Right)
    } else if final_byte == 68 {
        Some(Key::Left)
    } else if final_byte == 72 {
        Some(Key::Home)
    } else if final_byte == 70 {
        Some(Key::End)
    } else {
        None
    }
}

/// The key and modifier bits of a complete `CSI` sequence.
pub open spec fn csi_key(parameters: Seq<u8>, final_byte: u8) -> Option<(Key, u8)> {
    match parse_params(parameters) {
        None => None,
        Some(params) => {
            let modifier = if params.len() > 1 {
                xterm_modifier_bits(params[1])
            } else {
                Some(0u8)
            };
            match modifier {
                None => None,
                Some(bits) => match cursor_key(final_byte) {
                    Some(key) => Some((key, bits)),
                    None => if final_byte == 90 {
                        if params.len() == 0 {
                            Some((Key::Backtab, 1u8))
                        } else {
                            None
                        }
                    } else if final_byte == 126 && params.len() > 0 {
                        match tilde_key(params[0]) {
                            Some(key) => Some((key, bits)),
                            None => None,
                        }
                    } else {
                        None
                    },
                },
            }
        },
    }
}

pub open spec fn is_final_byte(byte: u8) -> bool {
    64 <= byte <= 126
}

/// The first index at or after `from` holding a final byte, or the length.
pub open spec fn final_index_from(bytes: Seq<u8>, from: int) -> int
    decreases bytes.len() - from,
{
    if from >= bytes.len() {
        bytes.len() as int
    } else if is_final_byte(bytes[from]) {
        from
    } else {
        final_index_from(bytes, from + 1)
    }
}

/// What decoding does with the start of the buffered bytes.
pub enum Token {
    /// Report an event and consume that many bytes.
    Emit(EventModel, nat),
    /// Drop that many bytes.
    Skip(nat),
    /// Wait for more bytes.
    Pending,
}

pub open spec fn unknown(bytes: Seq<u8>, len: int) -> Token {
    Token::Emit(EventModel::UnknownEscape(bytes.subrange(0, len)), len as nat)
}

/// Decoding of bytes that start with an Escape.
pub open spec fn escape_token(bytes: Seq<u8>) -> Token
    recommends
        bytes.len() > 0,
{
    if bytes.len() == 1 {
        Token::Pending
    } else {
        let second = bytes[1];
        if second == 91 {
            let f = final_index_from(bytes, 2);
            if f >= bytes.len() {
                Token::Pending
            } else {
                match csi_key(bytes.subrange(2, f), bytes[f]) {
                    Some((key, bits)) => Token::Emit(modified_key(key, bits), (f + 1) as nat),
                    None => unknown(bytes, f + 1),
                }
            }
        } else if second == 79 {
            if bytes.len() < 3 {
                Token::Pending
            } else {
                match cursor_key(bytes[2]) {
                    Some(key) => Token::Emit(plain_key(key), 3),
                    None => unknown(bytes, 3),
                }
            }
        } else if second == 27 {
            Token::Emit(modified_key(Key::Esc, 2), 2)
        } else if second == 13 || second == 10 {
            Token::Emit(modified_key(Key::Enter, 2), 2)
        } else if second == 9 {
            Token::Emit(modified_key(Key::Tab, 2), 2)
        } else if second == 127 || second == 8 {
            Token::Emit(modified_key(Key::Backspace, 2), 2)
        } else if 1 <= second <= 26 {
            Token::Emit(modified_key(Key::Char(control_letter(second)), 6), 2)
        } else {
            match utf8_prefix(bytes.drop_first()) {
                Utf8Prefix::Char(c, n) => Token::Emit(modified_key(Key::Char(c), 2), n + 1),
                Utf8Prefix::Pending => Token::Pending,
                Utf8Prefix::Invalid => unknown(bytes, 1),
            }
        }
    }
}

/// Decoding of the start of non-empty buffered bytes outside a paste.
pub open spec fn next_token(bytes: Seq<u8>) -> Token
    recommends
        bytes.len() > 0,
{
    let first = bytes[0];
    if first == 27 {
        escape_token(bytes)
    } else if first == 13 || first == 10 {
        Token::Emit(plain_key(Key::Enter), 1)
    } else if first == 9 {
        Token::Emit(plain_key(Key::Tab), 1)
    } else if first == 127 || first == 8 {
        Token::Emit(plain_key(Key::Backspace), 1)
    } else if 1 <= first <= 26 {
        Token::Emit(modified_key(Key::Char(control_letter(first)), 4), 1)
    } else if first <= 31 {
        Token::Skip(1)
    } else {
        match utf8_prefix(bytes) {
            Utf8Prefix::Char(c, n) => Token::Emit(plain_key(Key::Char(c)), n),
            Utf8Prefix::Pending => Token::Pending,
            Utf8Prefix::Invalid => Token::Skip(1),
        }
    }
}

/// The first index at or after `from` where `marker` occurs in `bytes`.
pub open spec fn find_from(bytes: Seq<u8>, marker: Seq<u8>, from: int) -> Option<int>
    decreases bytes.len() + 1 - from,
{
    if from + marker.len() > bytes.len() {
        None
    } else if bytes.subrange(from, from + marker.len()) == marker {
        Some(from)
    } else {
        find_from(bytes, marker, from + 1)
    }
}

/// The longest proper prefix of `marker`, of at most `longest` bytes, that
/// `bytes` ends with; 0 when there is none.
pub open spec fn marker_suffix_from(bytes: Seq<u8>, marker: Seq<u8>, longest: int) -> int
    decreases longest,
{
    if longest <= 0 {
        0
    } else if bytes.subrange(bytes.len() - longest, bytes.len() as int) == marker.subrange(0, longest) {
        longest
    } else {
        marker_suffix_from(bytes, marker, longest - 1)
    }
}

/// How many trailing bytes may be the start of the closing paste marker.
pub open spec fn partial_marker_len(bytes: Seq<u8>, marker: Seq<u8>) -> int {
    let longest = if marker.len() - 1 < bytes.len() {
        marker.len() - 1
    } else {
        bytes.len() as int
    };
    marker_suffix_from(bytes, marker, longest)
}

/// The text that `String::from_utf8_lossy` makes of some bytes.
pub uninterp spec fn utf8_lossy(bytes: Seq<u8>) -> Seq<char>;

/// The text of a paste's bytes: the characters valid UTF-8 encodes, else
/// what `String::from_utf8_lossy` makes of them.
pub open spec fn paste_text(bytes: Seq<u8>) -> Seq<char> {
    if valid_utf8(bytes) {
        decode_utf8(bytes)
    } else {
        utf8_lossy(bytes)
    }
}

/// The state of a decoder as values.
pub struct DecoderModel {
    pub pending: Seq<u8>,
    pub paste: Seq<u8>,
    pub in_paste: bool,
}

/// Decoding of all buffered bytes that can be decoded: the events reported,
/// and the state left for later bytes.
pub open spec fn decode_run(state: DecoderModel) -> (Seq<EventModel>, DecoderModel)
    decreases state.pending.len(),
{
    let bytes = state.pending;
    if state.in_paste {
        match find_from(bytes, paste_end(), 0) {
            Some(end) => {
                proof {
                    lemma_find_from_bounds(bytes, paste_end(), 0);
                }
                let rest = decode_run(
                    DecoderModel {
                        pending: bytes.subrange(end + 6, bytes.len() as int),
                        paste: Seq::empty(),
                        in_paste: false,
                    },
                );
                (
                    seq![EventModel::Paste(paste_text(state.paste + bytes.subrange(0, end)))]
                        + rest.0,
                    rest.1,
                )
            },
            None => {
                let cut = bytes.len() - partial_marker_len(bytes, paste_end());
                (
                    Seq::empty(),
                    DecoderModel {
                        pending: bytes.subrange(cut, bytes.len() as int),
                        paste: state.paste + bytes.subrange(0, cut),
                        in_paste: true,
                    },
                )
            },
        }
    } else if bytes.len() == 0 {
        (Seq::empty(), state)
    } else if bytes.len() >= 6 && bytes.subrange(0, 6) == paste_start() {
        decode_run(
            DecoderModel {
                pending: bytes.subrange(6, bytes.len() as int),
                paste: state.paste,
                in_paste: true,
            },
        )
    } else {
        proof {
            lemma_next_token_len(bytes);
        }
        match next_token(bytes) {
            Token::Pending => (Seq::empty(), state),
            Token::Skip(n) => decode_run(
                DecoderModel { pending: bytes.subrange(n as int, bytes.len() as int), ..state },
            ),
            Token::Emit(event, n) => {
                let rest = decode_run(
                    DecoderModel { pending: bytes.subrange(n as int, bytes.len() as int), ..state },
                );
                (seq![event] + rest.0, rest.1)
            },
        }
    }
}

/// The loop of [`Decoder::flush`] after a pending paste was handled: a
/// leading Escape becomes an Escape key, and bytes that cannot be decoded are
/// dropped one at a time.
pub open spec fn flush_run(state: DecoderModel) -> (Seq<EventModel>, DecoderModel)
    decreases state.pending.len(),
{
    if state.pending.len() == 0 {
        (Seq::empty(), state)
    } else if state.pending[0] == 27 {
        let rest = flush_run(
            DecoderModel { pending: state.pending.drop_first(), ..state },
        );
        (seq![plain_key(Key::Esc)] + rest.0, rest.1)
    } else {
        let decoded = decode_run(state);
        proof {
            lemma_decode_run_shrinks(state);
        }
        let after = if decoded.1.pending.len() > 0 {
            DecoderModel { pending: decoded.1.pending.drop_first(), ..decoded.1 }
        } else {
            decoded.1
        };
        let rest = flush_run(after);
        (decoded.0 + rest.0, rest.1)
    }
}

/// Flushing a decoder at the end of input.
pub open spec fn flush_model(state: DecoderModel) -> (Seq<EventModel>, DecoderModel) {
    if state.in_paste {
        (
            seq![EventModel::Paste(paste_text(state.paste + state.pending))],
            DecoderModel { pending: Seq::empty(), paste: Seq::empty(), in_paste: false },
        )
    } else {
        flush_run(state)
    }
}

pub open spec fn model_at(buf: Seq<u8>, pos: int, paste: Seq<u8>, in_paste: bool) -> DecoderModel {
    DecoderModel { pending: buf.subrange(pos, buf.len() as int), paste, in_paste }
}

/// How one decoding step relates the decoding before and after it.
pub open spec fn step_relation(
    buf: Seq<u8>,
    pos: int,
    paste: Seq<u8>,
    in_paste: bool,
    emitted: Option<Event>,
    next: int,
    next_paste: Seq<u8>,
    next_in_paste: bool,
    stop: bool,
) -> bool {
    let before = decode_run(model_at(buf, pos, paste, in_paste));
    let after_model = model_at(buf, next, next_paste, next_in_paste);
    let after = decode_run(after_model);
    &&& before == (emitted_view(emitted) + after.0, after.1)
    &&& stop ==> after == (Seq::<EventModel>::empty(), after_model)
}

pub open spec fn emitted_view(event: Option<Event>) -> Seq<EventModel> {
    match event {
        Some(e) => seq![e@],
        None => Seq::empty(),
    }
}

pub open spec fn events_view(events: Seq<Event>) -> Seq<EventModel> {
    events.map_values(|event: Event| event@)
}


// ---------------------------------------------------------------------------
// Outside calls
// ---------------------------------------------------------------------------

/// `std::str::from_utf8`: some text exactly when the bytes are valid UTF-8,
/// and then the characters they encode.
#[verifier::external_body]
fn utf8_text(bytes: &[u8]) -> (text: Option<&str>)
    ensures
        text is Some <==> valid_utf8(bytes@),
        text matches Some(t) ==> t@ == decode_utf8(bytes@),
{
    std::str::from_utf8(bytes).ok()
}

/// `String::from_utf8_lossy`: the text of the bytes, each invalid sequence
/// replaced; valid UTF-8 decodes to the characters it encodes.
#[verifier::external_body]
fn lossy_text(bytes: &[u8]) -> (text: String)
    ensures
        text@ == utf8_lossy(bytes@),
        valid_utf8(bytes@) ==> text@ == decode_utf8(bytes@),
{
    String::from_utf8_lossy(bytes).into_owned()
}

// ---------------------------------------------------------------------------
// Byte helpers
// ---------------------------------------------------------------------------

/// A copy of `buf[from..to]`.
pub fn copy_range(buf: &Vec<u8>, from: usize, to: usize) -> (out: Vec<u8>)
    requires
        from <= to <= buf.len(),
    ensures
        out@ == buf@.subrange(from as int, to as int),
{
    let mut out: Vec<u8> = Vec::new();
    let mut i = from;
    while i < to
        invariant
            from <= i <= to <= buf.len(),
            out@ == buf@.subrange(from as int, i as int),
        decreases to - i,
    {
        out.push(buf[i]);
        assert(out@ =~= buf@.subrange(from as int, i + 1));
        i += 1;
    }
    out
}

/// Append `buf[from..to]` to `dst`.
fn push_range(dst: &mut Vec<u8>, buf: &Vec<u8>, from: usize, to: usize)
    requires
        from <= to <= buf.len(),
    ensures
        final(dst)@ == old(dst)@ + buf@.subrange(from as int, to as int),
{
    let mut i = from;
    while i < to
        invariant
            from <= i <= to <= buf.len(),
            dst@ == old(dst)@ + buf@.subrange(from as int, i as int),
        decreases to - i,
    {
        dst.push(buf[i]);
        assert(dst@ =~= old(dst)@ + buf@.subrange(from as int, i + 1));
        i += 1;
    }
}

/// Append a slice to `dst`.
fn push_slice(dst: &mut Vec<u8>, bytes: &[u8])
    ensures
        final(dst)@ == old(dst)@ + bytes@,
{
    let mut i: usize = 0;
    while i < bytes.len()
        invariant
            i <= bytes@.len(),
            dst@ == old(dst)@ + bytes@.subrange(0, i as int),
        decreases bytes@.len() - i,
    {
        dst.push(bytes[i]);
        assert(dst@ =~= old(dst)@ + bytes@.subrange(0, i + 1));
        i += 1;
    }
    assert(bytes@.subrange(0, bytes@.len() as int) =~= bytes@);
}

/// Whether `marker` occurs in `buf` at `at`.
fn matches_at(buf: &Vec<u8>, at: usize, marker: &[u8]) -> (hit: bool)
    requires
        at <= buf.len(),
    ensures
        hit == (at + marker@.len() <= buf.len() && buf@.subrange(at as int, at + marker@.len())
            == marker@),
{
    if marker.len() > buf.len() - at {
        return false;
    }
    let mut k: usize = 0;
    while k < marker.len()
        invariant
            k <= marker@.len(),
            at + marker@.len() <= buf.len(),
            forall|j: int| 0 <= j < k ==> buf@[at + j] == marker@[j],
        decreases marker@.len() - k,
    {
        if buf[at + k] != marker[k] {
            assert(buf@.subrange(at as int, at + marker@.len())[k as int] != marker@[k as int]);
            return false;
        }
        k += 1;
    }
    assert(buf@.subrange(at as int, at + marker@.len()) =~= marker@);
    true
}

fn paste_start_marker() -> (marker: [u8; 6])
    ensures
        marker@ == paste_start(),
{
    let marker: [u8; 6] = [27, 91, 50, 48, 48, 126];
    assert(marker@ =~= paste_start());
    marker
}

fn paste_end_marker() -> (marker: [u8; 6])
    ensures
        marker@ == paste_end(),
{
    let marker: [u8; 6] = [27, 91, 50, 48, 49, 126];
    assert(marker@ =~= paste_end());
    marker
}

/// The first occurrence of `marker` in `buf[from..]`, relative to `from`.
fn find_marker(buf: &Vec<u8>, from: usize, marker: &[u8]) -> (found: Option<usize>)
    requires
        from <= buf.len(),
    ensures
        found matches Some(k) ==> find_from(buf@.subrange(from as int, buf@.len() as int), marker@, 0)
            == Some(k as int),
        found is None ==> find_from(buf@.subrange(from as int, buf@.len() as int), marker@, 0)
            is None,
{
    let ghost rest = buf@.subrange(from as int, buf@.len() as int);
    let available = buf.len() - from;
    if marker.len() > available {
        return None;
    }
    let last = available - marker.len();
    let mut k: usize = 0;
    while k <= last
        invariant
            from <= buf.len(),
            available == buf.len() - from,
            last == available - marker@.len(),
            rest == buf@.subrange(from as int, buf@.len() as int),
            find_from(rest, marker@, 0) == find_from(rest, marker@, k as int),
        decreases last + 1 - k,
    {
        let hit = matches_at(buf, from + k, marker);
        assert(rest.subrange(k as int, k + marker@.len()) =~= buf@.subrange(
            from + k,
            from + k + marker@.len(),
        ));
        if hit {
            return Some(k);
        }
        if k == last {
            assert(find_from(rest, marker@, k + 1) is None);
            return None;
        }
        k += 1;
    }
    None
}

/// How many bytes at the end of `buf[from..]` may start `marker`.
fn partial_marker_at(buf: &Vec<u8>, from: usize, marker: &[u8]) -> (keep: usize)
    requires
        from <= buf.len(),
        marker@.len() > 0,
    ensures
        keep == partial_marker_len(buf@.subrange(from as int, buf@.len() as int), marker@),
{
    let ghost rest = buf@.subrange(from as int, buf@.len() as int);
    let available = buf.len() - from;
    let mut longest = if marker.len() - 1 < available {
        marker.len() - 1
    } else {
        available
    };
    while longest > 0
        invariant
            from <= buf.len(),
            available == buf.len() - from,
            longest <= available,
            longest <= marker@.len(),
            rest == buf@.subrange(from as int, buf@.len() as int),
            partial_marker_len(rest, marker@) == marker_suffix_from(rest, marker@, longest as int),
        decreases longest,
    {
        let start = buf.len() - longest;
        let mut k: usize = 0;
        let mut same = true;
        while k < longest
            invariant
                k <= longest,
                start == buf.len() - longest,
                longest <= marker@.len(),
                same == (forall|j: int| 0 <= j < k ==> buf@[start + j] == marker@[j]),
            decreases longest - k,
        {
            if buf[start + k] != marker[k] {
                same = false;
            }
            k += 1;
        }
        assert(rest.subrange(rest.len() - longest, rest.len() as int) =~= buf@.subrange(
            start as int,
            buf@.len() as int,
        ));
        if same {
            assert(rest.subrange(rest.len() - longest, rest.len() as int) =~= marker@.subrange(
                0,
                longest as int,
            ));
            return longest;
        } else {
            proof {
                let j = choose|j: int| 0 <= j < longest && buf@[start + j] != marker@[j];
                assert(rest.subrange(rest.len() - longest, rest.len() as int)[j] != marker@.subrange(
                    0,
                    longest as int,
                )[j]);
            }
        }
        longest -= 1;
    }
    0
}

// ---------------------------------------------------------------------------
// Token decoding
// ---------------------------------------------------------------------------

enum Utf8Step {
    Char(char, usize),
    Pending,
    Invalid,
}

impl Utf8Step {
    spec fn view(self) -> Utf8Prefix {
        match self {
            Utf8Step::Char(c, n) => Utf8Prefix::Char(c, n as nat),
            Utf8Step::Pending => Utf8Prefix::Pending,
            Utf8Step::Invalid => Utf8Prefix::Invalid,
        }
    }
}

fn utf8_width_of(first: u8) -> (width: usize)
    ensures
        width == utf8_width(first),
{
    if first <= 0x7f {
        1
    } else if 0xc2 <= first && first <= 0xdf {
        2
    } else if 0xe0 <= first && first <= 0xef {
        3
    } else if 0xf0 <= first && first <= 0xf4 {
        4
    } else {
        0
    }
}

/// The UTF-8 prefix of `buf[from..]`.
fn utf8_prefix_at(buf: &Vec<u8>, from: usize) -> (step: Utf8Step)
    requires
        from < buf.len(),
    ensures
        step.view() == utf8_prefix(buf@.subrange(from as int, buf@.len() as int)),
        step matches Utf8Step::Char(_, n) ==> 1 <= n <= buf.len() - from,
{
    let ghost rest = buf@.subrange(from as int, buf@.len() as int);
    let width = utf8_width_of(buf[from]);
    if width == 0 {
        return Utf8Step::Invalid;
    }
    if buf.len() - from < width {
        return Utf8Step::Pending;
    }
    let unit = copy_range(buf, from, from + width);
    assert(unit@ =~= rest.subrange(0, width as int));
    match utf8_text(unit.as_slice()) {
        Some(text) => {
            if text.unicode_len() > 0 {
                Utf8Step::Char(text.get_char(0), width)
            } else {
                Utf8Step::Invalid
            }
        },
        None => Utf8Step::Invalid,
    }
}

fn control_letter_of(byte: u8) -> (c: char)
    requires
        1 <= byte <= 26,
    ensures
        c == control_letter(byte),
{
    (96 + byte) as char
}

fn cursor_key_of(final_byte: u8) -> (key: Option<Key>)
    ensures
        key == cursor_key(final_byte),
{
    if final_byte == 65 {
        Some(Key::Up)
    } else if final_byte == 66 {
        Some(Key::Down)
    } else if final_byte == 67 {
        Some(Key::Right)
    } else if final_byte == 68 {
        Some(Key::Left)
    } else if final_byte == 72 {
        Some(Key::Home)
    } else if final_byte == 70 {
        Some(Key::End)
    } else {
        None
    }
}

fn tilde_key_of(parameter: u16) -> (key: Option<Key>)
    ensures
        key == tilde_key(parameter),
{
    if parameter == 1 || parameter == 7 {
        Some(Key::Home)
    } else if parameter == 3 {
        Some(Key::Delete)
    } else if parameter == 4 || parameter == 8 {
        Some(Key::End)
    } else if parameter == 5 {
        Some(Key::PageUp)
    } else if parameter == 6 {
        Some(Key::PageDown)
    } else {
        None
    }
}

fn xterm_modifiers(parameter: u16) -> (bits: Option<u8>)
    ensures
        bits == xterm_modifier_bits(parameter),
{
    if 1 <= parameter && parameter <= 8 {
        Some((parameter - 1) as u8)
    } else {
        None
    }
}

proof fn lemma_decimal_prefix_le(digits: Seq<u8>, k: int)
    requires
        0 <= k <= digits.len(),
        forall|i: int| 0 <= i < digits.len() ==> is_digit(#[trigger] digits[i]),
    ensures
        0 <= decimal_value(digits.subrange(0, k)) <= decimal_value(digits),
    decreases digits.len(),
{
    if digits.len() > 0 {
        let shorter = digits.drop_last();
        if k == digits.len() {
            assert(digits.subrange(0, k) =~= digits);
            lemma_decimal_prefix_le(shorter, k - 1);
            assert(shorter.subrange(0, k - 1) =~= shorter);
        } else {
            lemma_decimal_prefix_le(shorter, k);
            assert(shorter.subrange(0, k) =~= digits.subrange(0, k));
            lemma_decimal_prefix_le(shorter, shorter.len() as int);
            assert(shorter.subrange(0, shorter.len() as int) =~= shorter);
        }
    } else {
        assert(digits.subrange(0, k) =~= digits);
    }
}

/// A `u16` written in decimal with an optional leading `+`.
fn parse_u16_of(part: &Vec<u8>) -> (value: Option<u16>)
    ensures
        value == parse_u16(part@),
{
    let start: usize = if part.len() > 0 && part[0] == 43 {
        1
    } else {
        0
    };
    let ghost digits = unsigned_digits(part@);
    assert(digits =~= part@.subrange(start as int, part@.len() as int));
    if start == part.len() {
        return None;
    }
    let mut value: u32 = 0;
    let mut i = start;
    while i < part.len()
        invariant
            start <= i <= part.len(),
            start < part.len(),
            digits == part@.subrange(start as int, part@.len() as int),
            digits == unsigned_digits(part@),
            forall|j: int| 0 <= j < i - start ==> is_digit(#[trigger] digits[j]),
            value == decimal_value(digits.subrange(0, i - start)),
            value <= 65535,
        decreases part.len() - i,
    {
        let byte = part[i];
        if byte < 48 || byte > 57 {
            assert(!is_digit(digits[i - start]));
            assert(!all_digits(digits));
            return None;
        }
        assert(digits.subrange(0, i + 1 - start).drop_last() =~= digits.subrange(0, i - start));
        let next = value * 10 + (byte - 48) as u32;
        assert(digits.subrange(0, i + 1 - start).last() == byte);
        assert(next == decimal_value(digits.subrange(0, i + 1 - start)));
        if next > 65535 {
            proof {
                if all_digits(digits) {
                    lemma_decimal_prefix_le(digits, i + 1 - start);
                    assert(decimal_value(digits) > 65535);
                }
            }
            return None;
        }
        value = next;
        i += 1;
    }
    assert(digits.subrange(0, digits.len() as int) =~= digits);
    Some(value as u16)
}

/// The first index of `target` in `bytes`, or the length.
fn index_of(bytes: &Vec<u8>, target: u8) -> (at: usize)
    ensures
        at == index_of_from(bytes@, target, 0),
{
    let mut i: usize = 0;
    while i < bytes.len()
        invariant
            i <= bytes.len(),
            index_of_from(bytes@, target, 0) == index_of_from(bytes@, target, i as int),
        decreases bytes.len() - i,
    {
        if bytes[i] == target {
            return i;
        }
        i += 1;
    }
    i
}

/// The `;`-separated parameters of a control sequence.
fn parse_param_list_of(bytes: &Vec<u8>) -> (params: Option<Vec<u16>>)
    ensures
        params matches Some(p) ==> parse_param_list(bytes@) == Some(p@),
        params is None ==> parse_param_list(bytes@) is None,
    decreases bytes@.len(),
{
    let split = index_of(bytes, 59);
    proof {
        lemma_index_of_from_bounds(bytes@, 59, 0);
    }
    let head = copy_range(bytes, 0, split);
    match parse_u16_of(&head) {
        None => None,
        Some(value) => {
            if split >= bytes.len() {
                let mut params = Vec::new();
                params.push(value);
                assert(params@ =~= seq![value]);
                Some(params)
            } else {
                let tail = copy_range(bytes, split + 1, bytes.len());
                match parse_param_list_of(&tail) {
                    None => None,
                    Some(rest) => {
                        let mut params = Vec::new();
                        params.push(value);
                        let mut rest = rest;
                        params.append(&mut rest);
                        assert(params@ =~= seq![value] + parse_param_list(tail@)->0);
                        Some(params)
                    },
                }
            }
        },
    }
}

/// The key and modifier bits of a complete `CSI` sequence.
fn csi_key_of(parameters: &Vec<u8>, final_byte: u8) -> (found: Option<(Key, u8)>)
    ensures
        found == csi_key(parameters@, final_byte),
{
    let params = if parameters.len() == 0 {
        let empty: Vec<u16> = Vec::new();
        assert(empty@ =~= Seq::<u16>::empty());
        Some(empty)
    } else {
        parse_param_list_of(parameters)
    };
    let params = match params {
        None => return None,
        Some(params) => params,
    };
    let bits = if params.len() > 1 {
        match xterm_modifiers(params[1]) {
            None => return None,
            Some(bits) => bits,
        }
    } else {
        0u8
    };
    match cursor_key_of(final_byte) {
        Some(key) => Some((key, bits)),
        None => {
            if final_byte == 90 {
                if params.len() == 0 {
                    Some((Key::Backtab, 1u8))
                } else {
                    None
                }
            } else if final_byte == 126 && params.len() > 0 {
                match tilde_key_of(params[0]) {
                    Some(key) => Some((key, bits)),
                    None => None,
                }
            } else {
                None
            }
        },
    }
}

enum Step {
    Emit(Event, usize),
    Skip(usize),
    Pending,
}

impl Step {
    spec fn view(self) -> Token {
        match self {
            Step::Emit(event, n) => Token::Emit(event@, n as nat),
            Step::Skip(n) => Token::Skip(n as nat),
            Step::Pending => Token::Pending,
        }
    }
}

fn key_event(key: Key, bits: u8) -> (event: Event)
    ensures
        event@ == modified_key(key, bits),
{
    Event::Key(KeyEvent { key, modifiers: Modifiers(bits) })
}

fn unknown_at(buf: &Vec<u8>, from: usize, len: usize) -> (step: Step)
    requires
        from + len <= buf.len(),
    ensures
        step.view() == unknown(buf@.subrange(from as int, buf@.len() as int), len as int),
{
    let bytes = copy_range(buf, from, from + len);
    assert(bytes@ =~= buf@.subrange(from as int, buf@.len() as int).subrange(0, len as int));
    Step::Emit(Event::UnknownEscape(bytes), len)
}

/// Decoding of `buf[from..]`, which starts with an Escape.
fn escape_step(buf: &Vec<u8>, from: usize) -> (step: Step)
    requires
        from < buf.len(),
    ensures
        step.view() == escape_token(buf@.subrange(from as int, buf@.len() as int)),
{
    let ghost rest = buf@.subrange(from as int, buf@.len() as int);
    let len = buf.len() - from;
    if len == 1 {
        return Step::Pending;
    }
    let second = buf[from + 1];
    if second == 91 {
        let mut f: usize = 2;
        while f < len && !(64 <= buf[from + f] && buf[from + f] <= 126)
            invariant
                2 <= f <= len,
                len == buf.len() - from,
                rest == buf@.subrange(from as int, buf@.len() as int),
                final_index_from(rest, 2) == final_index_from(rest, f as int),
            decreases len - f,
        {
            f += 1;
        }
        assert(f < len ==> rest[f as int] == buf@[from + f]);
        if f >= len {
            return Step::Pending;
        }
        let parameters = copy_range(buf, from + 2, from + f);
        assert(parameters@ =~= rest.subrange(2, f as int));
        match csi_key_of(&parameters, buf[from + f]) {
            Some((key, bits)) => Step::Emit(key_event(key, bits), f + 1),
            None => unknown_at(buf, from, f + 1),
        }
    } else if second == 79 {
        if len < 3 {
            return Step::Pending;
        }
        match cursor_key_of(buf[from + 2]) {
            Some(key) => Step::Emit(key_event(key, 0), 3),
            None => unknown_at(buf, from, 3),
        }
    } else if second == 27 {
        Step::Emit(key_event(Key::Esc, 2), 2)
    } else if second == 13 || second == 10 {
        Step::Emit(key_event(Key::Enter, 2), 2)
    } else if second == 9 {
        Step::Emit(key_event(Key::Tab, 2), 2)
    } else if second == 127 || second == 8 {
        Step::Emit(key_event(Key::Backspace, 2), 2)
    } else if 1 <= second && second <= 26 {
        Step::Emit(key_event(Key::Char(control_letter_of(second)), 6), 2)
    } else {
        let prefix = utf8_prefix_at(buf, from + 1);
        assert(buf@.subrange(from + 1, buf@.len() as int) =~= rest.drop_first());
        match prefix {
            Utf8Step::Char(c, n) => Step::Emit(key_event(Key::Char(c), 2), n + 1),
            Utf8Step::Pending => Step::Pending,
            Utf8Step::Invalid => unknown_at(buf, from, 1),
        }
    }
}

/// Decoding of non-empty `buf[from..]` outside a paste.
fn next_step(buf: &Vec<u8>, from: usize) -> (step: Step)
    requires
        from < buf.len(),
    ensures
        step.view() == next_token(buf@.subrange(from as int, buf@.len() as int)),
{
    let first = buf[from];
    if first == 27 {
        escape_step(buf, from)
    } else if first == 13 || first == 10 {
        Step::Emit(key_event(Key::Enter, 0), 1)
    } else if first == 9 {
        Step::Emit(key_event(Key::Tab, 0), 1)
    } else if first == 127 || first == 8 {
        Step::Emit(key_event(Key::Backspace, 0), 1)
    } else if 1 <= first && first <= 26 {
        Step::Emit(key_event(Key::Char(control_letter_of(first)), 4), 1)
    } else if first <= 31 {
        Step::Skip(1)
    } else {
        match utf8_prefix_at(buf, from) {
            Utf8Step::Char(c, n) => Step::Emit(key_event(Key::Char(c), 0), n),
            Utf8Step::Pending => Step::Pending,
            Utf8Step::Invalid => Step::Skip(1),
        }
    }
}

// ---------------------------------------------------------------------------
// The decoder
// ---------------------------------------------------------------------------

/// A streaming decoder from terminal input bytes to events.
#[derive(Debug)]
pub struct Decoder {
    pending: Vec<u8>,
    paste: Vec<u8>,
    in_paste: bool,
}

impl View for Decoder {
    type V = DecoderModel;

    closed spec fn view(&self) -> DecoderModel {
        DecoderModel { pending: self.pending@, paste: self.paste@, in_paste: self.in_paste }
    }
}

impl Default for Decoder {
    fn default() -> (decoder: Self)
        ensures
            decoder@ == (DecoderModel { pending: Seq::empty(), paste: Seq::empty(), in_paste: false }),
    {
        Decoder::new()
    }
}

impl Decoder {
    pub fn new() -> (decoder: Self)
        ensures
            decoder@ == (DecoderModel { pending: Seq::empty(), paste: Seq::empty(), in_paste: false }),
    {
        Decoder { pending: Vec::new(), paste: Vec::new(), in_paste: false }
    }

    /// One step of decoding `buf[pos..]` inside a paste.
    fn paste_step(&mut self, buf: &Vec<u8>, pos: usize, end_marker: &[u8; 6]) -> (result: (
        Option<Event>,
        usize,
        bool,
    ))
        requires
            pos <= buf.len(),
            end_marker@ == paste_end(),
            old(self).in_paste,
            old(self).pending@ == Seq::<u8>::empty(),
        ensures
            final(self).pending@ == Seq::<u8>::empty(),
            pos <= result.1 <= buf.len(),
            !result.2 ==> pos < result.1,
            step_relation(buf@, pos as int, old(self).paste@, old(self).in_paste, result.0, result.1 as int,
                final(self).paste@, final(self).in_paste, result.2),
    {
        let ghost rest = buf@.subrange(pos as int, buf@.len() as int);
        match find_marker(buf, pos, end_marker) {
            Some(end) => {
                proof {
                    lemma_find_from_bounds(rest, paste_end(), 0);
                }
                push_range(&mut self.paste, buf, pos, pos + end);
                assert(buf@.subrange(pos as int, pos + end) =~= rest.subrange(0, end as int));
                let text = lossy_text(self.paste.as_slice());
                self.paste.clear();
                self.in_paste = false;
                assert(buf@.subrange(pos + end + 6, buf@.len() as int) =~= rest.subrange(
                    end + 6,
                    rest.len() as int,
                ));
                (Some(Event::Paste(text)), pos + end + 6, false)
            },
            None => {
                let keep = partial_marker_at(buf, pos, end_marker);
                proof {
                    lemma_partial_marker_len_bounds(rest, paste_end());
                }
                let cut = buf.len() - pos - keep;
                push_range(&mut self.paste, buf, pos, pos + cut);
                assert(buf@.subrange(pos as int, pos + cut) =~= rest.subrange(0, cut as int));
                assert(buf@.subrange(pos + cut, buf@.len() as int) =~= rest.subrange(
                    cut as int,
                    rest.len() as int,
                ));
                proof {
                    let kept = rest.subrange(cut as int, rest.len() as int);
                    let after = model_at(buf@, pos + cut, self.paste@, self.in_paste);
                    lemma_find_none_after_cut(rest, cut as int);
                    lemma_partial_marker_idempotent(rest, cut as int);
                    assert(kept.subrange(0, kept.len() as int) =~= kept);
                    assert(kept.subrange(0, 0) =~= Seq::<u8>::empty());
                    assert(self.paste@ + Seq::<u8>::empty() =~= self.paste@);
                    assert(decode_run(after) == (Seq::<EventModel>::empty(), after));
                }
                (None, pos + cut, true)
            },
        }
    }

    /// One step of decoding `buf[pos..]` outside a paste.
    fn plain_step(&mut self, buf: &Vec<u8>, pos: usize, start_marker: &[u8; 6]) -> (result: (
        Option<Event>,
        usize,
        bool,
    ))
        requires
            pos <= buf.len(),
            start_marker@ == paste_start(),
            !old(self).in_paste,
            old(self).pending@ == Seq::<u8>::empty(),
        ensures
            final(self).pending@ == Seq::<u8>::empty(),
            final(self).paste@ == old(self).paste@,
            pos <= result.1 <= buf.len(),
            !result.2 ==> pos < result.1,
            step_relation(buf@, pos as int, old(self).paste@, old(self).in_paste, result.0, result.1 as int,
                final(self).paste@, final(self).in_paste, result.2),
    {
        let ghost rest = buf@.subrange(pos as int, buf@.len() as int);
        if pos == buf.len() {
            return (None, pos, true);
        }
        if matches_at(buf, pos, start_marker) {
            assert(buf@.subrange(pos as int, pos + 6) =~= rest.subrange(0, 6));
            assert(buf@.subrange(pos + 6, buf@.len() as int) =~= rest.subrange(6, rest.len() as int));
            self.in_paste = true;
            return (None, pos + 6, false);
        }
        assert(rest.len() >= 6 ==> buf@.subrange(pos as int, pos + 6) =~= rest.subrange(0, 6));
        proof {
            lemma_next_token_len(rest);
        }
        match next_step(buf, pos) {
            Step::Pending => (None, pos, true),
            Step::Skip(n) => {
                assert(buf@.subrange(pos + n, buf@.len() as int) =~= rest.subrange(
                    n as int,
                    rest.len() as int,
                ));
                (None, pos + n, false)
            },
            Step::Emit(event, n) => {
                assert(buf@.subrange(pos + n, buf@.len() as int) =~= rest.subrange(
                    n as int,
                    rest.len() as int,
                ));
                (Some(event), pos + n, false)
            },
        }
    }

    /// Decode `bytes` after what is already buffered, reporting every event
    /// that the bytes so far determine and keeping the rest for later.
    pub fn feed(&mut self, bytes: &[u8]) -> (events: Vec<Event>)
        ensures
            (events_view(events@), final(self)@) == decode_run(
                DecoderModel { pending: old(self)@.pending + bytes@, ..old(self)@ },
            ),
    {
        let mut buf: Vec<u8> = Vec::new();
        std::mem::swap(&mut buf, &mut self.pending);
        push_slice(&mut buf, bytes);
        let ghost init = model_at(buf@, 0, self.paste@, self.in_paste);
        assert(buf@.subrange(0, buf@.len() as int) =~= buf@);
        let start_marker = paste_start_marker();
        let end_marker = paste_end_marker();
        let mut events: Vec<Event> = Vec::new();
        let mut pos: usize = 0;
        assert(events_view(events@) =~= Seq::<EventModel>::empty());
        loop
            invariant_except_break
                pos <= buf.len(),
                start_marker@ == paste_start(),
                end_marker@ == paste_end(),
                self.pending@ == Seq::<u8>::empty(),
                decode_run(init) == ({
                    let now = decode_run(model_at(buf@, pos as int, self.paste@, self.in_paste));
                    (events_view(events@) + now.0, now.1)
                }),
            ensures
                pos <= buf.len(),
                decode_run(init) == (events_view(events@), model_at(buf@, pos as int, self.paste@, self.in_paste)),
            decreases buf.len() - pos,
        {
            let ghost before = events@;
            let (emitted, next, stop) = if self.in_paste {
                self.paste_step(&buf, pos, &end_marker)
            } else {
                self.plain_step(&buf, pos, &start_marker)
            };
            match emitted {
                Some(event) => {
                    let ghost seen = event@;
                    events.push(event);
                    assert(events_view(events@) =~= events_view(before) + seq![seen]);
                },
                None => {},
            }
            pos = next;
            if stop {
                assert(events_view(events@) + Seq::<EventModel>::empty() =~= events_view(events@));
                break;
            }
        }
        self.pending = copy_range(&buf, pos, buf.len());
        events
    }

    /// Decode everything still buffered at the end of input: a lone Escape
    /// becomes the Escape key, an open paste is reported with what it holds,
    /// and bytes that cannot be decoded are dropped.
    pub fn flush(&mut self) -> (events: Vec<Event>)
        ensures
            (events_view(events@), final(self)@) == flush_model(old(self)@),
    {
        let mut events: Vec<Event> = Vec::new();
        if self.in_paste {
            let mut rest: Vec<u8> = Vec::new();
            std::mem::swap(&mut rest, &mut self.pending);
            self.paste.append(&mut rest);
            self.in_paste = false;
            let text = lossy_text(self.paste.as_slice());
            events.push(Event::Paste(text));
            self.paste.clear();
            assert(events_view(events@) =~= flush_model(old(self)@).0);
            return events;
        }
        while self.pending.len() > 0
            invariant
                flush_run(old(self)@) == ({
                    let now = flush_run(self@);
                    (events_view(events@) + now.0, now.1)
                }),
            decreases self.pending@.len(),
        {
            let ghost now = self@;
            if self.pending[0] == 27 {
                self.pending.remove(0);
                let ghost before = events@;
                events.push(Event::key(Key::Esc));
                assert(events_view(events@) =~= events_view(before) + seq![plain_key(Key::Esc)]);
                assert(self@ == DecoderModel { pending: now.pending.drop_first(), ..now });
                assert(self.pending@ =~= now.pending.drop_first());
            } else {
                let empty: [u8; 0] = [];
                assert(now.pending + empty@ =~= now.pending);
                let mut decoded = self.feed(&empty);
                proof {
                    lemma_decode_run_shrinks(now);
                }
                let ghost before = events@;
                let ghost got = decoded@;
                events.append(&mut decoded);
                assert(events_view(events@) =~= events_view(before) + events_view(got));
                if self.pending.len() > 0 {
                    let ghost fed = self@;
                    self.pending.remove(0);
                    assert(self.pending@ =~= fed.pending.drop_first());
                }
            }
        }
        assert(events_view(events@) + Seq::<EventModel>::empty() =~= events_view(events@));
        events
    }

    /// Whether the buffer holds exactly one Escape, whose meaning another
    /// byte may still change.
    pub fn escape_pending(&self) -> (pending: bool)
        ensures
            pending == (self@.pending == seq![27u8]),
    {
        let pending = self.pending.len() == 1 && self.pending[0] == 27;
        assert(pending ==> self.pending@ =~= seq![27u8]);
        pending
    }

    /// Resolve a lone buffered Escape as the Escape key, keeping any other
    /// partial input for later.
    pub fn flush_escape(&mut self) -> (event: Option<Event>)
        ensures
            old(self)@.pending == seq![27u8] ==> (event matches Some(e) && e@ == plain_key(Key::Esc)
                && final(self)@ == (DecoderModel { pending: Seq::empty(), ..old(self)@ })),
            old(self)@.pending != seq![27u8] ==> event is None && final(self)@ == old(self)@,
    {
        if self.escape_pending() {
            self.pending.remove(0);
            assert(self.pending@ =~= Seq::<u8>::empty());
            Some(Event::key(Key::Esc))
        } else {
            None
        }
    }
}

/// Decode a complete byte sequence: feed it, then flush.
pub fn decode_all(bytes: &[u8]) -> (events: Vec<Event>)
    ensures
        events_view(events@) == ({
            let fed = decode_run(
                DecoderModel { pending: bytes@, paste: Seq::empty(), in_paste: false },
            );
            fed.0 + flush_model(fed.1).0
        }),
{
    let mut decoder = Decoder::new();
    assert(Seq::<u8>::empty() + bytes@ =~= bytes@);
    let mut events = decoder.feed(bytes);
    let ghost fed = events@;
    let mut rest = decoder.flush();
    let ghost flushed = rest@;
    events.append(&mut rest);
    assert(events_view(events@) =~= events_view(fed) + events_view(flushed));
    events
}

// ---------------------------------------------------------------------------
// Lemmas
// ---------------------------------------------------------------------------

pub proof fn lemma_index_of_from_bounds(bytes: Seq<u8>, target: u8, from: int)
    requires
        0 <= from,
    ensures
        from <= index_of_from(bytes, target, from) <= bytes.len() || (from > bytes.len()
            && index_of_from(bytes, target, from) == bytes.len()),
        index_of_from(bytes, target, from) < bytes.len() ==> bytes[index_of_from(bytes, target, from)] == target,
    decreases bytes.len() - from,
{
    if from < bytes.len() && bytes[from] != target {
        lemma_index_of_from_bounds(bytes, target, from + 1);
    }
}

pub proof fn lemma_final_index_from_bounds(bytes: Seq<u8>, from: int)
    requires
        0 <= from <= bytes.len(),
    ensures
        from <= final_index_from(bytes, from) <= bytes.len(),
        final_index_from(bytes, from) < bytes.len() ==> is_final_byte(bytes[final_index_from(bytes, from)]),
        forall|i: int| from <= i < final_index_from(bytes, from) ==> !is_final_byte(#[trigger] bytes[i]),
    decreases bytes.len() - from,
{
    if from < bytes.len() && !is_final_byte(bytes[from]) {
        lemma_final_index_from_bounds(bytes, from + 1);
    }
}

pub proof fn lemma_find_from_bounds(bytes: Seq<u8>, marker: Seq<u8>, from: int)
    requires
        0 <= from,
    ensures
        find_from(bytes, marker, from) matches Some(at) ==> from <= at && at + marker.len() <= bytes.len()
            && bytes.subrange(at, at + marker.len()) == marker,
    decreases bytes.len() + 1 - from,
{
    if from + marker.len() <= bytes.len() && bytes.subrange(from, from + marker.len()) != marker {
        lemma_find_from_bounds(bytes, marker, from + 1);
    }
}

pub proof fn lemma_next_token_len(bytes: Seq<u8>)
    requires
        bytes.len() > 0,
    ensures
        next_token(bytes) matches Token::Emit(_, n) ==> 1 <= n <= bytes.len(),
        next_token(bytes) matches Token::Skip(n) ==> 1 <= n <= bytes.len(),
{
    if bytes.len() > 1 && bytes[0] == 27 && bytes[1] == 91 {
        lemma_final_index_from_bounds(bytes, 2);
    }
}

pub proof fn lemma_decode_run_shrinks(state: DecoderModel)
    ensures
        decode_run(state).1.pending.len() <= state.pending.len(),
    decreases state.pending.len(),
{
    let bytes = state.pending;
    if state.in_paste {
        lemma_find_from_bounds(bytes, paste_end(), 0);
        match find_from(bytes, paste_end(), 0) {
            Some(end) => {
                lemma_decode_run_shrinks(
                    DecoderModel {
                        pending: bytes.subrange(end + 6, bytes.len() as int),
                        paste: Seq::empty(),
                        in_paste: false,
                    },
                );
            },
            None => {
                lemma_partial_marker_len_bounds(bytes, paste_end());
            },
        }
    } else if bytes.len() == 0 {
    } else if bytes.len() >= 6 && bytes.subrange(0, 6) == paste_start() {
        lemma_decode_run_shrinks(
            DecoderModel {
                pending: bytes.subrange(6, bytes.len() as int),
                paste: state.paste,
                in_paste: true,
            },
        );
    } else {
        lemma_next_token_len(bytes);
        match next_token(bytes) {
            Token::Pending => {},
            Token::Skip(n) => {
                lemma_decode_run_shrinks(
                    DecoderModel { pending: bytes.subrange(n as int, bytes.len() as int), ..state },
                );
            },
            Token::Emit(_, n) => {
                lemma_decode_run_shrinks(
                    DecoderModel { pending: bytes.subrange(n as int, bytes.len() as int), ..state },
                );
            },
        }
    }
}

/// After cutting everything but a possible marker start, the kept bytes
/// hold no marker either.
pub proof fn lemma_find_none_after_cut(bytes: Seq<u8>, cut: int)
    requires
        find_from(bytes, paste_end(), 0) is None,
        0 <= cut <= bytes.len(),
        bytes.len() - cut < 6,
    ensures
        find_from(bytes.subrange(cut, bytes.len() as int), paste_end(), 0) is None,
{
}

/// Cutting again leaves the same bytes.
pub proof fn lemma_partial_marker_idempotent(bytes: Seq<u8>, cut: int)
    requires
        cut == bytes.len() - partial_marker_len(bytes, paste_end()),
        0 <= cut <= bytes.len(),
    ensures
        partial_marker_len(bytes.subrange(cut, bytes.len() as int), paste_end()) == bytes.len() - cut,
{
    let kept = bytes.subrange(cut, bytes.len() as int);
    let k = bytes.len() - cut;
    lemma_partial_marker_len_bounds(bytes, paste_end());
    lemma_marker_suffix_witness(bytes, paste_end(), if 5 < bytes.len() { 5 } else { bytes.len() as int });
    if k > 0 {
        assert(kept.subrange(kept.len() - k, kept.len() as int) =~= kept);
        assert(bytes.subrange(bytes.len() - k, bytes.len() as int) =~= kept);
    }
    assert(kept.len() == k);
    let longest = if 5 < kept.len() { 5 } else { kept.len() as int };
    assert(longest == k);
    if k > 0 {
        assert(marker_suffix_from(kept, paste_end(), k) == k);
    }
}

pub proof fn lemma_marker_suffix_witness(bytes: Seq<u8>, marker: Seq<u8>, longest: int)
    ensures
        marker_suffix_from(bytes, marker, longest) > 0 ==> bytes.subrange(
            bytes.len() - marker_suffix_from(bytes, marker, longest),
            bytes.len() as int,
        ) == marker.subrange(0, marker_suffix_from(bytes, marker, longest)),
    decreases longest,
{
    if longest > 0 && bytes.subrange(bytes.len() - longest, bytes.len() as int) != marker.subrange(0, longest) {
        lemma_marker_suffix_witness(bytes, marker, longest - 1);
    }
}

pub proof fn lemma_marker_suffix_from_bounds(bytes: Seq<u8>, marker: Seq<u8>, longest: int)
    ensures
        longest <= 0 ==> marker_suffix_from(bytes, marker, longest) == 0,
        longest > 0 ==> 0 <= marker_suffix_from(bytes, marker, longest) <= longest,
    decreases longest,
{
    if longest > 0 {
        lemma_marker_suffix_from_bounds(bytes, marker, longest - 1);
    }
}

pub proof fn lemma_partial_marker_len_bounds(bytes: Seq<u8>, marker: Seq<u8>)
    requires
        marker.len() > 0,
    ensures
        0 <= partial_marker_len(bytes, marker) <= bytes.len(),
        partial_marker_len(bytes, marker) < marker.len(),
{
    let longest = if marker.len() - 1 < bytes.len() {
        marker.len() - 1
    } else {
        bytes.len() as int
    };
    lemma_marker_suffix_from_bounds(bytes, marker, longest);
}


/// The parameter a single ASCII digit writes.
proof fn lemma_one_digit_parameter(digit: u8)
    requires
        48 <= digit <= 57,
    ensures
        parse_params(seq![digit]) == Some(seq![(digit - 48) as u16]),
{
    let bytes = seq![digit];
    reveal_with_fuel(index_of_from, 2);
    assert(index_of_from(bytes, 59, 0) == 1);
    assert(bytes.subrange(0, 1) =~= bytes);
    assert(unsigned_digits(bytes) == bytes);
    assert(bytes.drop_last() =~= Seq::<u8>::empty());
    assert(decimal_value(Seq::<u8>::empty()) == 0);
    assert(bytes.last() == digit);
    assert(decimal_value(bytes) == decimal_value(bytes.drop_last()) * 10 + (bytes.last() - 48));
    assert(decimal_value(bytes) == digit - 48);
    assert(all_digits(bytes));
}

/// A complete `ESC [ d ~` with one digit `d` as the start of the buffered
/// bytes, whatever follows it.
proof fn lemma_tilde_token(digit: u8, rest: Seq<u8>)
    requires
        48 <= digit <= 57,
    ensures
        ({
            let bytes = seq![27u8, 91u8, digit, 126u8] + rest;
            &&& bytes.len() >= 4
            &&& next_token(bytes) == match tilde_key((digit - 48) as u16) {
                Some(key) => Token::Emit(plain_key(key), 4),
                None => unknown(bytes, 4),
            }
        }),
{
    let bytes = seq![27u8, 91u8, digit, 126u8] + rest;
    assert(bytes[0] == 27u8 && bytes[1] == 91u8 && bytes[2] == digit && bytes[3] == 126u8);
    reveal_with_fuel(final_index_from, 3);
    assert(final_index_from(bytes, 2) == 3);
    assert(bytes.subrange(2, 3) =~= seq![digit]);
    lemma_one_digit_parameter(digit);
    assert(plain_key(Key::PageUp) == modified_key(Key::PageUp, 0));
}

/// A key sequence that `next_token` reads whole, at the start of the
/// buffered bytes, comes out as one event followed by the decoding of what
/// follows.
proof fn lemma_emitted_first(prefix: Seq<u8>, event: EventModel, rest: Seq<u8>, paste: Seq<u8>)
    requires
        prefix.len() >= 3,
        prefix[0] == 27u8,
        prefix[2] != 50u8,
        next_token(prefix + rest) == Token::Emit(event, prefix.len()),
    ensures
        decode_run(DecoderModel { pending: prefix + rest, paste, in_paste: false }) == ({
            let after = decode_run(DecoderModel { pending: rest, paste, in_paste: false });
            (seq![event] + after.0, after.1)
        }),
{
    let bytes = prefix + rest;
    assert(bytes.subrange(prefix.len() as int, bytes.len() as int) =~= rest);
    assert(bytes[2] == prefix[2]);
    assert(bytes.len() >= 6 ==> bytes.subrange(0, 6)[2] != paste_start()[2]);
}

/// The key `ESC [ X` or `ESC O X` names for a final byte `X`.
proof fn lemma_cursor_token(introducer: u8, final_byte: u8, rest: Seq<u8>)
    requires
        introducer == 91u8 || introducer == 79u8,
        64 <= final_byte <= 126,
        cursor_key(final_byte) is Some,
    ensures
        next_token(seq![27u8, introducer, final_byte] + rest) == Token::Emit(plain_key(cursor_key(final_byte)->0), 3),
{
    let bytes = seq![27u8, introducer, final_byte] + rest;
    assert(bytes[0] == 27u8 && bytes[1] == introducer && bytes[2] == final_byte);
    reveal_with_fuel(final_index_from, 2);
    assert(final_index_from(bytes, 2) == 2);
    assert(bytes.subrange(2, 2) =~= Seq::<u8>::empty());
    assert(plain_key(cursor_key(final_byte)->0) == modified_key(cursor_key(final_byte)->0, 0));
}

pub open spec fn plain_key_event(key: Key) -> EventModel {
    EventModel::Key(KeyEvent { key, modifiers: Modifiers(0) })
}

/// The xterm keys written `ESC [ n ~`: 1 and 7 are Home, 3 is Delete, 4 and
/// 8 are End, 5 is Page Up and 6 is Page Down. Each decodes to exactly one
/// key with no modifier, whatever bytes follow.
pub proof fn law_tilde_keys_decode(rest: Seq<u8>, paste: Seq<u8>)
    ensures
        ({
            let run = |digit: u8| decode_run(DecoderModel { pending: seq![27u8, 91u8, digit, 126u8] + rest, paste, in_paste: false });
            let after = decode_run(DecoderModel { pending: rest, paste, in_paste: false });
            let one = |key: Key| (seq![plain_key_event(key)] + after.0, after.1);
            &&& run(49u8) == one(Key::Home)
            &&& run(51u8) == one(Key::Delete)
            &&& run(52u8) == one(Key::End)
            &&& run(53u8) == one(Key::PageUp)
            &&& run(54u8) == one(Key::PageDown)
            &&& run(55u8) == one(Key::Home)
            &&& run(56u8) == one(Key::End)
        }),
{
    let digits = seq![49u8, 51u8, 52u8, 53u8, 54u8, 55u8, 56u8];
    assert forall|i: int| 0 <= i < digits.len() implies {
        let d = #[trigger] digits[i];
        decode_run(DecoderModel { pending: seq![27u8, 91u8, d, 126u8] + rest, paste, in_paste: false }) == ({
            let after = decode_run(DecoderModel { pending: rest, paste, in_paste: false });
            (seq![plain_key(tilde_key((d - 48) as u16)->0)] + after.0, after.1)
        })
    } by {
        let d = digits[i];
        lemma_tilde_token(d, rest);
        lemma_emitted_first(seq![27u8, 91u8, d, 126u8], plain_key(tilde_key((d - 48) as u16)->0), rest, paste);
    }
    assert(digits[0] == 49u8 && digits[1] == 51u8 && digits[2] == 52u8 && digits[3] == 53u8);
    assert(digits[4] == 54u8 && digits[5] == 55u8 && digits[6] == 56u8);
}

/// The arrow, Home and End keys as xterm sends them, after `ESC [` or
/// `ESC O`: A is Up, B is Down, C is Right, D is Left, H is Home and F is
/// End. Each decodes to exactly one key with no modifier, whatever bytes
/// follow.
pub proof fn law_cursor_keys_decode(introducer: u8, rest: Seq<u8>, paste: Seq<u8>)
    requires
        introducer == 91u8 || introducer == 79u8,
    ensures
        ({
            let run = |letter: u8| decode_run(DecoderModel { pending: seq![27u8, introducer, letter] + rest, paste, in_paste: false });
            let after = decode_run(DecoderModel { pending: rest, paste, in_paste: false });
            let one = |key: Key| (seq![plain_key_event(key)] + after.0, after.1);
            &&& run(65u8) == one(Key::Up)
            &&& run(66u8) == one(Key::Down)
            &&& run(67u8) == one(Key::Right)
            &&& run(68u8) == one(Key::Left)
            &&& run(72u8) == one(Key::Home)
            &&& run(70u8) == one(Key::End)
        }),
{
    let letters = seq![65u8, 66u8, 67u8, 68u8, 72u8, 70u8];
    assert forall|i: int| 0 <= i < letters.len() implies {
        let x = #[trigger] letters[i];
        decode_run(DecoderModel { pending: seq![27u8, introducer, x] + rest, paste, in_paste: false }) == ({
            let after = decode_run(DecoderModel { pending: rest, paste, in_paste: false });
            (seq![plain_key(cursor_key(x)->0)] + after.0, after.1)
        })
    } by {
        let x = letters[i];
        lemma_cursor_token(introducer, x, rest);
        lemma_emitted_first(seq![27u8, introducer, x], plain_key(cursor_key(x)->0), rest, paste);
    }
    assert(letters[0] == 65u8 && letters[1] == 66u8 && letters[2] == 67u8);
    assert(letters[3] == 68u8 && letters[4] == 72u8 && letters[5] == 70u8);
}


proof fn lemma_two_digit_parameters(first: u8, second: u8)
    requires
        48 <= first <= 57,
        48 <= second <= 57,
    ensures
        parse_params(seq![first, 59u8, second]) == Some(seq![(first - 48) as u16, (second - 48) as u16]),
{
    let bytes = seq![first, 59u8, second];
    reveal_with_fuel(index_of_from, 3);
    assert(index_of_from(bytes, 59, 0) == 1);
    assert(bytes.subrange(0, 1) =~= seq![first]);
    assert(bytes.subrange(2, 3) =~= seq![second]);
    lemma_one_digit_parameter(first);
    lemma_one_digit_parameter(second);
    let head = seq![first];
    assert(unsigned_digits(head) == head);
    assert(head.drop_last() =~= Seq::<u8>::empty());
    assert(decimal_value(head) == decimal_value(head.drop_last()) * 10 + (head.last() - 48));
    assert(all_digits(head));
    assert(parse_param_list(seq![second]) == Some(seq![(second - 48) as u16]));
    assert(seq![(first - 48) as u16] + seq![(second - 48) as u16] =~= seq![(first - 48) as u16, (second - 48) as u16]);
}

/// The xterm modifier parameter: `ESC [ 1 ; m A` is the Up key with the
/// modifiers `m - 1` encodes (1 Shift, 2 Alt, 4 Control, summed), for `m`
/// from 1 to 8; so is `m` after any other key the table names.
pub proof fn law_modified_up_key_decodes(m: u8, rest: Seq<u8>)
    requires
        1 <= m <= 8,
    ensures
        next_token(seq![27u8, 91u8, 49u8, 59u8, (48u8 + m) as u8, 65u8] + rest) == Token::Emit(
            EventModel::Key(KeyEvent { key: Key::Up, modifiers: Modifiers((m - 1) as u8) }),
            6,
        ),
{
    let bytes = seq![27u8, 91u8, 49u8, 59u8, (48u8 + m) as u8, 65u8] + rest;
    assert(bytes[0] == 27u8 && bytes[1] == 91u8 && bytes[2] == 49u8 && bytes[3] == 59u8);
    assert(bytes[4] == 48 + m && bytes[5] == 65u8);
    reveal_with_fuel(final_index_from, 5);
    assert(final_index_from(bytes, 2) == 5);
    assert(bytes.subrange(2, 5) =~= seq![49u8, 59u8, (48u8 + m) as u8]);
    lemma_two_digit_parameters(49u8, (48u8 + m) as u8);
}


/// A byte that `next_token` reads alone, at the start of the buffered bytes,
/// comes out as one event followed by the decoding of what follows.
proof fn lemma_byte_emitted_first(byte: u8, event: EventModel, rest: Seq<u8>, paste: Seq<u8>)
    requires
        byte != 27u8,
        next_token(seq![byte] + rest) == Token::Emit(event, 1),
    ensures
        decode_run(DecoderModel { pending: seq![byte] + rest, paste, in_paste: false }) == ({
            let after = decode_run(DecoderModel { pending: rest, paste, in_paste: false });
            (seq![event] + after.0, after.1)
        }),
{
    let bytes = seq![byte] + rest;
    assert(bytes[0] == byte);
    assert(bytes.subrange(1, bytes.len() as int) =~= rest);
    assert(bytes.len() >= 6 ==> bytes.subrange(0, 6)[0] != paste_start()[0]);
}

/// The control bytes: carriage return and line feed are Enter, 9 is Tab,
/// 127 and 8 are Backspace, and any other byte from 1 to 26 is its letter
/// (`a` for 1, `z` for 26) with Control held. Each decodes to exactly one
/// key, whatever bytes follow.
pub proof fn law_control_bytes_decode(byte: u8, rest: Seq<u8>, paste: Seq<u8>)
    requires
        1 <= byte <= 26 || byte == 127,
    ensures
        ({
            let run = decode_run(DecoderModel { pending: seq![byte] + rest, paste, in_paste: false });
            let after = decode_run(DecoderModel { pending: rest, paste, in_paste: false });
            exists|key: KeyEvent|
                {
                    &&& run == (seq![EventModel::Key(key)] + after.0, after.1)
                    &&& (byte == 13 || byte == 10) ==> key == (KeyEvent { key: Key::Enter, modifiers: Modifiers(0) })
                    &&& byte == 9 ==> key == (KeyEvent { key: Key::Tab, modifiers: Modifiers(0) })
                    &&& (byte == 127 || byte == 8) ==> key == (KeyEvent { key: Key::Backspace, modifiers: Modifiers(0) })
                    &&& (byte != 8 && byte != 9 && byte != 10 && byte != 13 && byte != 127) ==> key.modifiers
                        == Modifiers(4)
                    &&& (byte != 8 && byte != 9 && byte != 10 && byte != 13 && byte != 127) ==> (key.key matches Key::Char(
                        c,
                    ) && c as int == 96 + byte)
                }
        }),
{
    let bytes = seq![byte] + rest;
    assert(bytes[0] == byte);
    let token = next_token(bytes);
    let key = match token {
        Token::Emit(EventModel::Key(k), _) => k,
        _ => KeyEvent { key: Key::Esc, modifiers: Modifiers(0) },
    };
    assert(token == Token::Emit(EventModel::Key(key), 1));
    lemma_byte_emitted_first(byte, EventModel::Key(key), rest, paste);
    if byte != 8 && byte != 9 && byte != 10 && byte != 13 && byte != 127 {
        assert(key.key == Key::Char(control_letter(byte)));
        let code = (96 + byte) as u8;
        assert(code == 96 + byte);
        assert(control_letter(byte) == code as char);
        assert((code as char) as int == code as int);
    }
}


/// Escape before a control byte is that key with Alt held: Escape again is
/// Alt-Escape, carriage return or line feed Alt-Enter, 9 Alt-Tab, 127 or 8
/// Alt-Backspace, and any other byte from 1 to 26 its letter with Alt and
/// Control held. Each pair decodes to exactly one key, whatever follows.
pub proof fn law_alt_control_bytes_decode(byte: u8, rest: Seq<u8>, paste: Seq<u8>)
    requires
        1 <= byte <= 27 || byte == 127,
    ensures
        ({
            let run = decode_run(DecoderModel { pending: seq![27u8, byte] + rest, paste, in_paste: false });
            let after = decode_run(DecoderModel { pending: rest, paste, in_paste: false });
            exists|key: KeyEvent|
                {
                    &&& run == (seq![EventModel::Key(key)] + after.0, after.1)
                    &&& byte == 27 ==> key == (KeyEvent { key: Key::Esc, modifiers: Modifiers(2) })
                    &&& (byte == 13 || byte == 10) ==> key == (KeyEvent { key: Key::Enter, modifiers: Modifiers(2) })
                    &&& byte == 9 ==> key == (KeyEvent { key: Key::Tab, modifiers: Modifiers(2) })
                    &&& (byte == 127 || byte == 8) ==> key == (KeyEvent { key: Key::Backspace, modifiers: Modifiers(2) })
                    &&& (byte != 8 && byte != 9 && byte != 10 && byte != 13 && byte != 27 && byte != 127)
                        ==> key.modifiers == Modifiers(6)
                    &&& (byte != 8 && byte != 9 && byte != 10 && byte != 13 && byte != 27 && byte != 127) ==> (
                    key.key matches Key::Char(c) && c as int == 96 + byte)
                }
        }),
{
    let bytes = seq![27u8, byte] + rest;
    assert(bytes[0] == 27u8 && bytes[1] == byte);
    let token = next_token(bytes);
    let key = match token {
        Token::Emit(EventModel::Key(k), _) => k,
        _ => KeyEvent { key: Key::Esc, modifiers: Modifiers(0) },
    };
    assert(token == Token::Emit(EventModel::Key(key), 2));
    assert(bytes.subrange(2, bytes.len() as int) =~= rest);
    assert(bytes.len() >= 6 ==> bytes.subrange(0, 6)[1] != paste_start()[1]);
    assert(!(bytes.len() >= 6 && bytes.subrange(0, 6) == paste_start()));
    let after = decode_run(DecoderModel { pending: rest, paste, in_paste: false });
    assert(decode_run(DecoderModel { pending: bytes, paste, in_paste: false }) == (seq![EventModel::Key(key)] + after.0, after.1));
    if byte != 8 && byte != 9 && byte != 10 && byte != 13 && byte != 27 && byte != 127 {
        let code = (96 + byte) as u8;
        assert(code == 96 + byte);
        assert(control_letter(byte) == code as char);
        assert((code as char) as int == code as int);
    }
}


/// A printable ASCII byte is the key of its character, with no modifier,
/// decoded alone whatever bytes follow; after Escape it is that key with
/// Alt held.
pub proof fn law_printable_ascii_decodes(byte: u8, rest: Seq<u8>, paste: Seq<u8>)
    requires
        32 <= byte <= 126,
    ensures
        ({
            let after = decode_run(DecoderModel { pending: rest, paste, in_paste: false });
            &&& decode_run(DecoderModel { pending: seq![byte] + rest, paste, in_paste: false }) == (seq![
                EventModel::Key(KeyEvent { key: Key::Char(byte as char), modifiers: Modifiers(0) }),
            ] + after.0, after.1)
            &&& byte != 91 && byte != 79 ==> decode_run(
                DecoderModel { pending: seq![27u8, byte] + rest, paste, in_paste: false },
            ) == (seq![EventModel::Key(KeyEvent { key: Key::Char(byte as char), modifiers: Modifiers(2) })] + after.0, after.1)
        }),
{
    let c = byte as char;
    assert((c as u32) as u8 == byte);
    let chars = seq![c];
    assert(vstd::utf8::is_ascii_chars(chars));
    vstd::utf8::is_ascii_chars_encode_utf8(chars);
    vstd::utf8::encode_utf8_valid_utf8(chars);
    vstd::utf8::encode_utf8_decode_utf8(chars);
    assert(vstd::utf8::encode_utf8(chars) =~= seq![byte]);
    let bytes = seq![byte] + rest;
    assert(bytes.subrange(0, 1) =~= seq![byte]);
    assert(utf8_prefix(bytes) == Utf8Prefix::Char(c, 1));
    assert(next_token(bytes) == Token::Emit(plain_key(Key::Char(c)), 1));
    lemma_byte_emitted_first(byte, plain_key(Key::Char(c)), rest, paste);
    if byte != 91 && byte != 79 {
        let alt = seq![27u8, byte] + rest;
        assert(alt[0] == 27u8 && alt[1] == byte);
        assert(alt.drop_first() =~= bytes);
        assert(next_token(alt) == Token::Emit(modified_key(Key::Char(c), 2), 2));
        assert(alt.subrange(2, alt.len() as int) =~= rest);
        assert(alt.len() >= 6 ==> alt.subrange(0, 6)[1] != paste_start()[1]);
        assert(!(alt.len() >= 6 && alt.subrange(0, 6) == paste_start()));
    }
}


proof fn lemma_find_first_marker(bytes: Seq<u8>, marker: Seq<u8>, from: int, at: int)
    requires
        0 <= from <= at,
        at + marker.len() <= bytes.len(),
        bytes.subrange(at, at + marker.len()) == marker,
        forall|k: int| from <= k < at ==> #[trigger] bytes.subrange(k, k + marker.len()) != marker,
    ensures
        find_from(bytes, marker, from) == Some(at),
    decreases at - from,
{
    if from < at {
        assert(bytes.subrange(from, from + marker.len()) != marker);
        lemma_find_from_bounds(bytes, marker, from + 1);
        lemma_find_first_marker(bytes, marker, from + 1, at);
    }
}

/// A bracketed paste: `ESC [ 200 ~`, the pasted bytes and `ESC [ 201 ~`
/// decode to exactly one paste event of the pasted bytes' text, whatever
/// bytes follow, when the closing marker first stands right after the
/// pasted bytes.
pub proof fn law_bracketed_paste_decodes(body: Seq<u8>, rest: Seq<u8>)
    requires
        forall|k: int|
            0 <= k < body.len() ==> #[trigger] (body + paste_end() + rest).subrange(k, k + 6) != paste_end(),
    ensures
        ({
            let after = decode_run(DecoderModel { pending: rest, paste: Seq::empty(), in_paste: false });
            decode_run(DecoderModel { pending: paste_start() + body + paste_end() + rest, paste: Seq::empty(), in_paste: false })
                == (seq![EventModel::Paste(paste_text(body))] + after.0, after.1)
        }),
{
    let inner = body + paste_end() + rest;
    let all = paste_start() + body + paste_end() + rest;
    assert(all =~= paste_start() + inner);
    assert(all.subrange(0, 6) =~= paste_start());
    assert(all.subrange(6, all.len() as int) =~= inner);
    assert(inner.subrange(body.len() as int, body.len() as int + 6) =~= paste_end());
    assert(paste_end().len() == 6);
    assert forall|k: int| 0 <= k < body.len() implies #[trigger] inner.subrange(k, k + paste_end().len())
        != paste_end() by {
        assert(inner.subrange(k, k + 6) != paste_end());
    }
    lemma_find_first_marker(inner, paste_end(), 0, body.len() as int);
    assert(find_from(inner, paste_end(), 0) == Some(body.len() as int));
    assert(inner.subrange(0, body.len() as int) =~= body);
    assert(inner.subrange(body.len() as int + 6, inner.len() as int) =~= rest);
    assert(Seq::<u8>::empty() + body =~= body);
    let opened = DecoderModel { pending: inner, paste: Seq::empty(), in_paste: true };
    let start = DecoderModel { pending: all, paste: Seq::empty(), in_paste: false };
    assert(decode_run(start) == decode_run(opened));
    let after = decode_run(DecoderModel { pending: rest, paste: Seq::empty(), in_paste: false });
    assert(decode_run(opened) == (seq![EventModel::Paste(paste_text(body))] + after.0, after.1));
}

} // verus!
