//! Feeding a decoder its input in pieces decodes it as feeding it at once:
//! the events of the pieces, one after another, are the events of the
//! whole, and the decoder is left in the same state.

use vstd::prelude::*;

use crate::terminal::decoder::{
    decode_run, escape_token, flush_model, final_index_from, find_from, is_final_byte, lemma_final_index_from_bounds,
    lemma_find_from_bounds, lemma_marker_suffix_from_bounds, lemma_marker_suffix_witness, lemma_next_token_len,
    lemma_partial_marker_len_bounds, marker_suffix_from, next_token, partial_marker_len, paste_end, paste_start,
    utf8_prefix, utf8_width, DecoderModel, Token, Utf8Prefix,
};

verus! {

/// A decoder state with more bytes buffered after what it holds.
pub open spec fn with_more(state: DecoderModel, bytes: Seq<u8>) -> DecoderModel {
    DecoderModel { pending: state.pending + bytes, ..state }
}

/// What feeding `bytes` to a decoder in `state` reports, and the state it
/// leaves.
pub open spec fn feed_model(state: DecoderModel, bytes: Seq<u8>) -> (Seq<crate::bang_core::event::EventModel>, DecoderModel) {
    decode_run(with_more(state, bytes))
}

/// Feeding two pieces one after the other reports the events of feeding
/// them at once, and leaves the decoder in the same state.
pub proof fn law_feeding_in_pieces_decodes_alike(state: DecoderModel, first: Seq<u8>, second: Seq<u8>)
    ensures
        ({
            let (early, middle) = feed_model(state, first);
            let (late, last) = feed_model(middle, second);
            feed_model(state, first + second) == (early + late, last)
        }),
{
    lemma_decode_run_extends(with_more(state, first), second);
    assert(with_more(with_more(state, first), second) == with_more(state, first + second)) by {
        assert(state.pending + first + second =~= state.pending + (first + second));
    }
}

/// Input fed in two pieces and then flushed at its end gives the events of
/// the whole input fed at once and flushed.
pub proof fn law_pieces_then_flush_decode_alike(state: DecoderModel, first: Seq<u8>, second: Seq<u8>)
    ensures
        ({
            let (early, middle) = feed_model(state, first);
            let (late, last) = feed_model(middle, second);
            let (whole, after) = feed_model(state, first + second);
            early + late + flush_model(last).0 == whole + flush_model(after).0
        }),
{
    law_feeding_in_pieces_decodes_alike(state, first, second);
}

/// The pieces of an input joined in order.
pub open spec fn joined_pieces(pieces: Seq<Seq<u8>>) -> Seq<u8>
    decreases pieces.len(),
{
    if pieces.len() == 0 {
        Seq::empty()
    } else {
        joined_pieces(pieces.drop_last()) + pieces.last()
    }
}

/// What feeding `pieces` one after another to a decoder in `state` reports,
/// and the state it leaves.
pub open spec fn feed_pieces(state: DecoderModel, pieces: Seq<Seq<u8>>) -> (Seq<crate::bang_core::event::EventModel>, DecoderModel)
    decreases pieces.len(),
{
    if pieces.len() <= 1 {
        feed_model(state, if pieces.len() == 0 { Seq::empty() } else { pieces[0] })
    } else {
        let (early, middle) = feed_pieces(state, pieces.drop_last());
        let (late, last) = feed_model(middle, pieces.last());
        (early + late, last)
    }
}

/// Feeding an input in any number of pieces reports the events of feeding
/// it at once, and leaves the decoder in the same state.
pub proof fn law_feeding_any_pieces_decodes_alike(state: DecoderModel, pieces: Seq<Seq<u8>>)
    ensures
        feed_pieces(state, pieces) == feed_model(state, joined_pieces(pieces)),
    decreases pieces.len(),
{
    if pieces.len() == 0 {
    } else if pieces.len() == 1 {
        assert(joined_pieces(pieces) =~= pieces[0]) by {
            assert(joined_pieces(pieces.drop_last()) == Seq::<u8>::empty());
            assert(pieces.last() == pieces[0]);
        }
    } else {
        let rest = pieces.drop_last();
        law_feeding_any_pieces_decodes_alike(state, rest);
        law_feeding_in_pieces_decodes_alike(state, joined_pieces(rest), pieces.last());
    }
}

/// Decoding buffered bytes with more after them: the events the bytes alone
/// determine, then the decoding of what they leave with the more bytes.
pub proof fn lemma_decode_run_extends(m: DecoderModel, x: Seq<u8>)
    ensures
        decode_run(with_more(m, x)) == (
            decode_run(m).0 + decode_run(with_more(decode_run(m).1, x)).0,
            decode_run(with_more(decode_run(m).1, x)).1,
        ),
    decreases m.pending.len(),
{
    let bytes = m.pending;
    let y = bytes + x;
    let rest_of_m = decode_run(with_more(decode_run(m).1, x));
    if m.in_paste {
        lemma_find_from_bounds(bytes, paste_end(), 0);
        match find_from(bytes, paste_end(), 0) {
            Some(end) => {
                lemma_find_extends(bytes, paste_end(), x, 0);
                let inner = DecoderModel {
                    pending: bytes.subrange(end + 6, bytes.len() as int),
                    paste: Seq::empty(),
                    in_paste: false,
                };
                assert(y.subrange(end + 6, y.len() as int) =~= inner.pending + x);
                assert(y.subrange(0, end) =~= bytes.subrange(0, end));
                lemma_decode_run_extends(inner, x);
                assert(with_more(inner, x) == DecoderModel {
                    pending: y.subrange(end + 6, y.len() as int),
                    paste: Seq::empty(),
                    in_paste: false,
                });
                let head = seq![crate::bang_core::event::EventModel::Paste(
                    crate::terminal::decoder::paste_text(m.paste + bytes.subrange(0, end)),
                )];
                assert(head + decode_run(inner).0 + decode_run(with_more(decode_run(inner).1, x)).0 =~= head + (
                decode_run(inner).0 + decode_run(with_more(decode_run(inner).1, x)).0));
            },
            None => {
                lemma_paste_pending_extends(bytes, m.paste, x);
                let cut = bytes.len() - partial_marker_len(bytes, paste_end());
                lemma_partial_marker_len_bounds(bytes, paste_end());
                assert(decode_run(m).1 == DecoderModel {
                    pending: bytes.subrange(cut, bytes.len() as int),
                    paste: m.paste + bytes.subrange(0, cut),
                    in_paste: true,
                });
                assert(decode_run(m).0 + rest_of_m.0 =~= rest_of_m.0);
            },
        }
    } else if bytes.len() == 0 {
        assert(with_more(m, x) =~= with_more(decode_run(m).1, x));
        assert(decode_run(m).0 + rest_of_m.0 =~= rest_of_m.0);
    } else if bytes.len() >= 6 && bytes.subrange(0, 6) == paste_start() {
        let inner = DecoderModel { pending: bytes.subrange(6, bytes.len() as int), paste: m.paste, in_paste: true };
        assert(y.subrange(0, 6) =~= bytes.subrange(0, 6));
        assert(y.subrange(6, y.len() as int) =~= inner.pending + x);
        assert(with_more(inner, x) == DecoderModel { pending: y.subrange(6, y.len() as int), paste: m.paste, in_paste: true });
        lemma_decode_run_extends(inner, x);
    } else {
        lemma_next_token_len(bytes);
        match next_token(bytes) {
            Token::Pending => {
                assert(decode_run(m) == (Seq::<crate::bang_core::event::EventModel>::empty(), m));
                assert(decode_run(m).0 + rest_of_m.0 =~= rest_of_m.0);
            },
            Token::Skip(n) => {
                lemma_not_paste_start(bytes, x);
                lemma_token_extends(bytes, x);
                let inner = DecoderModel { pending: bytes.subrange(n as int, bytes.len() as int), ..m };
                assert(y.subrange(n as int, y.len() as int) =~= inner.pending + x);
                assert(with_more(inner, x) == DecoderModel { pending: y.subrange(n as int, y.len() as int), ..with_more(m, x) });
                lemma_decode_run_extends(inner, x);
            },
            Token::Emit(event, n) => {
                lemma_not_paste_start(bytes, x);
                lemma_token_extends(bytes, x);
                let inner = DecoderModel { pending: bytes.subrange(n as int, bytes.len() as int), ..m };
                assert(y.subrange(n as int, y.len() as int) =~= inner.pending + x);
                assert(with_more(inner, x) == DecoderModel { pending: y.subrange(n as int, y.len() as int), ..with_more(m, x) });
                lemma_decode_run_extends(inner, x);
                assert(seq![event] + decode_run(inner).0 + decode_run(with_more(decode_run(inner).1, x)).0 =~= seq![event]
                    + (decode_run(inner).0 + decode_run(with_more(decode_run(inner).1, x)).0));
            },
        }
    }
}

/// Bytes that do not start a paste, and decode to something, do not start
/// one with more bytes after them either.
proof fn lemma_not_paste_start(bytes: Seq<u8>, x: Seq<u8>)
    requires
        bytes.len() > 0,
        !(bytes.len() >= 6 && bytes.subrange(0, 6) == paste_start()),
        !(next_token(bytes) is Pending),
    ensures
        !((bytes + x).len() >= 6 && (bytes + x).subrange(0, 6) == paste_start()),
{
    let y = bytes + x;
    if y.len() >= 6 && y.subrange(0, 6) == paste_start() {
        if bytes.len() >= 6 {
            assert(y.subrange(0, 6) =~= bytes.subrange(0, 6));
        } else {
            assert forall|i: int| 0 <= i < bytes.len() implies bytes[i] == paste_start()[i] by {
                assert(y.subrange(0, 6)[i] == y[i]);
            }
            lemma_paste_start_prefix_pending(bytes);
        }
    }
}

/// A proper beginning of the paste marker waits for more bytes.
proof fn lemma_paste_start_prefix_pending(bytes: Seq<u8>)
    requires
        0 < bytes.len() < 6,
        forall|i: int| 0 <= i < bytes.len() ==> bytes[i] == paste_start()[i],
    ensures
        next_token(bytes) is Pending,
{
    assert(bytes[0] == 27u8);
    if bytes.len() >= 2 {
        assert(bytes[1] == 91u8);
        lemma_final_index_from_bounds(bytes, 2);
        let f = final_index_from(bytes, 2);
        if f < bytes.len() {
            assert(bytes[f] == paste_start()[f]);
            assert(!is_final_byte(bytes[f]));
        }
    }
}

/// A found final byte stays the first one with more bytes after it.
proof fn lemma_final_index_extends(bytes: Seq<u8>, x: Seq<u8>, from: int)
    requires
        0 <= from,
        final_index_from(bytes, from) < bytes.len(),
    ensures
        final_index_from(bytes + x, from) == final_index_from(bytes, from),
    decreases bytes.len() - from,
{
    if from < bytes.len() && !is_final_byte(bytes[from]) {
        assert((bytes + x)[from] == bytes[from]);
        lemma_final_index_extends(bytes, x, from + 1);
    } else if from < bytes.len() {
        assert((bytes + x)[from] == bytes[from]);
    }
}

/// A decoded character stays decoded with more bytes after it.
proof fn lemma_utf8_extends(s: Seq<u8>, x: Seq<u8>)
    requires
        s.len() > 0,
        !(utf8_prefix(s) is Pending),
    ensures
        utf8_prefix(s + x) == utf8_prefix(s),
{
    let y = s + x;
    assert(y[0] == s[0]);
    let width = utf8_width(s[0]);
    if width > 0 && s.len() >= width {
        assert(y.subrange(0, width as int) =~= s.subrange(0, width as int));
    }
}

/// A token that does not wait for more bytes is the same with more bytes
/// after it.
proof fn lemma_token_extends(bytes: Seq<u8>, x: Seq<u8>)
    requires
        bytes.len() > 0,
        !(next_token(bytes) is Pending),
    ensures
        next_token(bytes + x) == next_token(bytes),
{
    let y = bytes + x;
    assert(y[0] == bytes[0]);
    let first = bytes[0];
    if first == 27 {
        assert(bytes.len() > 1);
        assert(y[1] == bytes[1]);
        let second = bytes[1];
        if second == 91 {
            lemma_final_index_from_bounds(bytes, 2);
            let f = final_index_from(bytes, 2);
            lemma_final_index_extends(bytes, x, 2);
            assert(y[f] == bytes[f]);
            assert(y.subrange(2, f) =~= bytes.subrange(2, f));
            assert(y.subrange(0, f + 1) =~= bytes.subrange(0, f + 1));
        } else if second == 79 {
            assert(y[2] == bytes[2]);
            assert(y.subrange(0, 3) =~= bytes.subrange(0, 3));
        } else if !(second == 27 || second == 13 || second == 10 || second == 9 || second == 127 || second == 8 || (1
            <= second <= 26)) {
            assert(y.drop_first() =~= bytes.drop_first() + x);
            lemma_utf8_extends(bytes.drop_first(), x);
            assert(y.subrange(0, 1) =~= bytes.subrange(0, 1));
        }
        assert(escape_token(y) == escape_token(bytes));
    } else if !(first == 13 || first == 10 || first == 9 || first == 127 || first == 8 || first <= 31) {
        lemma_utf8_extends(bytes, x);
    }
}

/// A found marker stays the first one with more bytes after it.
proof fn lemma_find_extends(bytes: Seq<u8>, marker: Seq<u8>, x: Seq<u8>, from: int)
    requires
        0 <= from,
        find_from(bytes, marker, from) is Some,
    ensures
        find_from(bytes + x, marker, from) == find_from(bytes, marker, from),
    decreases bytes.len() + 1 - from,
{
    let y = bytes + x;
    if from + marker.len() <= bytes.len() {
        assert(y.subrange(from, from + marker.len()) =~= bytes.subrange(from, from + marker.len()));
        if bytes.subrange(from, from + marker.len()) != marker {
            lemma_find_extends(bytes, marker, x, from + 1);
        }
    }
}

/// No marker is found where none stands.
proof fn lemma_find_none(bytes: Seq<u8>, marker: Seq<u8>, from: int, p: int)
    requires
        0 <= from <= p,
        p + marker.len() <= bytes.len(),
        find_from(bytes, marker, from) is None,
    ensures
        bytes.subrange(p, p + marker.len()) != marker,
    decreases p - from,
{
    if from < p {
        lemma_find_none(bytes, marker, from + 1, p);
    }
}

/// Positions where the marker does not stand can be passed over.
proof fn lemma_find_skip(y: Seq<u8>, marker: Seq<u8>, from: int, to: int)
    requires
        0 <= from <= to,
        forall|p: int| from <= p < to ==> !(p + marker.len() <= y.len() && #[trigger] y.subrange(p, p + marker.len()) == marker),
    ensures
        find_from(y, marker, from) == find_from(y, marker, to),
    decreases to - from,
{
    if from < to {
        if from + marker.len() > y.len() {
            lemma_find_beyond(y, marker, to);
        } else {
            lemma_find_skip(y, marker, from + 1, to);
        }
    }
}

proof fn lemma_find_beyond(y: Seq<u8>, marker: Seq<u8>, from: int)
    requires
        from + marker.len() > y.len(),
    ensures
        find_from(y, marker, from) is None,
{
}

/// Searching from a position is searching what follows it.
proof fn lemma_find_shift(y: Seq<u8>, marker: Seq<u8>, c: int, j: int)
    requires
        0 <= c <= y.len(),
        0 <= j,
    ensures
        find_from(y, marker, c + j) == match find_from(y.subrange(c, y.len() as int), marker, j) {
            Some(k) => Some(k + c),
            None => None::<int>,
        },
    decreases y.len() + 1 - c - j,
{
    let z = y.subrange(c, y.len() as int);
    if c + j + marker.len() <= y.len() {
        assert(y.subrange(c + j, c + j + marker.len()) =~= z.subrange(j, j + marker.len()));
        if z.subrange(j, j + marker.len()) != marker {
            lemma_find_shift(y, marker, c, j + 1);
            assert(c + (j + 1) == c + j + 1);
        }
    }
}

/// No suffix longer than the one found is a beginning of the marker.
proof fn lemma_suffix_longest(bytes: Seq<u8>, marker: Seq<u8>, longest: int, j: int)
    requires
        marker_suffix_from(bytes, marker, longest) < j <= longest,
    ensures
        bytes.subrange(bytes.len() - j, bytes.len() as int) != marker.subrange(0, j),
    decreases longest,
{
    if longest > 0 && bytes.subrange(bytes.len() - longest, bytes.len() as int) != marker.subrange(0, longest) {
        if j < longest {
            lemma_suffix_longest(bytes, marker, longest - 1, j);
        }
    }
}

/// The longest search of the closing marker's beginnings.
spec fn longest_of(bytes: Seq<u8>) -> int {
    if 5 < bytes.len() {
        5
    } else {
        bytes.len() as int
    }
}

/// Whether the last `j` bytes begin the closing marker.
spec fn ends_with_start(bytes: Seq<u8>, j: int) -> bool {
    bytes.subrange(bytes.len() - j, bytes.len() as int) == paste_end().subrange(0, j)
}

/// In a paste, bytes that hold no closing marker decode with more bytes as
/// the bytes they keep back do, after the rest joined the paste.
proof fn lemma_paste_pending_extends(bytes: Seq<u8>, paste: Seq<u8>, x: Seq<u8>)
    requires
        find_from(bytes, paste_end(), 0) is None,
    ensures
        ({
            let cut = bytes.len() - partial_marker_len(bytes, paste_end());
            decode_run(DecoderModel { pending: bytes + x, paste, in_paste: true }) == decode_run(
                DecoderModel {
                    pending: bytes.subrange(cut, bytes.len() as int) + x,
                    paste: paste + bytes.subrange(0, cut),
                    in_paste: true,
                },
            )
        }),
{
    let marker = paste_end();
    let q = partial_marker_len(bytes, marker);
    lemma_partial_marker_len_bounds(bytes, marker);
    let cut = bytes.len() - q;
    let y = bytes + x;
    let z = y.subrange(cut, y.len() as int);
    assert(z =~= bytes.subrange(cut, bytes.len() as int) + x);
    assert(q == marker_suffix_from(bytes, marker, longest_of(bytes)));
    // No marker starts before the kept bytes.
    assert forall|p: int| 0 <= p < cut implies !(p + marker.len() <= y.len() && #[trigger] y.subrange(p, p + marker.len())
        == marker) by {
        if p + marker.len() <= y.len() && y.subrange(p, p + marker.len()) == marker {
            if p + 6 <= bytes.len() {
                assert(y.subrange(p, p + 6) =~= bytes.subrange(p, p + 6));
                lemma_find_none(bytes, marker, 0, p);
            } else {
                let l = bytes.len() - p;
                assert(bytes.subrange(bytes.len() - l, bytes.len() as int) =~= marker.subrange(0, l)) by {
                    assert forall|i: int| 0 <= i < l implies bytes.subrange(bytes.len() - l, bytes.len() as int)[i]
                        == marker.subrange(0, l)[i] by {
                        assert(y.subrange(p, p + 6)[i] == y[p + i]);
                    }
                }
                lemma_suffix_longest(bytes, marker, longest_of(bytes), l);
            }
        }
    }
    lemma_find_skip(y, marker, 0, cut);
    lemma_find_shift(y, marker, cut, 0);
    lemma_find_from_bounds(z, marker, 0);
    match find_from(z, marker, 0) {
        Some(k) => {
            assert(find_from(y, marker, 0) == Some(cut + k));
            assert(paste + y.subrange(0, cut + k) =~= paste + bytes.subrange(0, cut) + z.subrange(0, k));
            assert(y.subrange(cut + k + 6, y.len() as int) =~= z.subrange(k + 6, z.len() as int));
        },
        None => {
            assert(find_from(y, marker, 0) is None);
            lemma_partial_marker_len_bounds(y, marker);
            lemma_partial_marker_len_bounds(z, marker);
            let qy = partial_marker_len(y, marker);
            let qz = partial_marker_len(z, marker);
            assert(qy == marker_suffix_from(y, marker, longest_of(y)));
            assert(qz == marker_suffix_from(z, marker, longest_of(z)));
            lemma_marker_suffix_witness(y, marker, longest_of(y));
            lemma_marker_suffix_witness(z, marker, longest_of(z));
            lemma_marker_suffix_from_bounds(y, marker, longest_of(y));
            lemma_marker_suffix_from_bounds(z, marker, longest_of(z));
            // The suffix found for the whole lies within the kept bytes.
            if qy > z.len() {
                let p = y.len() - qy;
                let l = bytes.len() - p;
                assert(bytes.subrange(bytes.len() - l, bytes.len() as int) =~= marker.subrange(0, l)) by {
                    assert forall|i: int| 0 <= i < l implies bytes.subrange(bytes.len() - l, bytes.len() as int)[i]
                        == marker.subrange(0, l)[i] by {
                        assert(y.subrange(y.len() - qy, y.len() as int)[i] == y[p + i]);
                        assert(marker.subrange(0, qy)[i] == marker[i]);
                    }
                }
                lemma_suffix_longest(bytes, marker, longest_of(bytes), l);
            }
            assert(qy <= z.len());
            if qy > 0 {
                assert(z.subrange(z.len() - qy, z.len() as int) =~= y.subrange(y.len() - qy, y.len() as int));
            }
            if qz > 0 {
                assert(z.subrange(z.len() - qz, z.len() as int) =~= y.subrange(y.len() - qz, y.len() as int));
            }
            if qy > qz {
                lemma_suffix_longest(z, marker, longest_of(z), qy);
            }
            if qz > qy {
                lemma_suffix_longest(y, marker, longest_of(y), qz);
            }
            assert(qy == qz);
            let cut_y = y.len() - qy;
            let cut_z = z.len() - qz;
            assert(y.subrange(cut_y, y.len() as int) =~= z.subrange(cut_z, z.len() as int));
            assert(paste + y.subrange(0, cut_y) =~= paste + bytes.subrange(0, cut) + z.subrange(0, cut_z));
        },
    }
}

} // verus!
