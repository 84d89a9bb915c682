//! Lines on the wire: every stratum message is one JSON object on one line,
//! ended by `\n`, and no line read may be longer than 4096 bytes. A line
//! that is too long ends the connection it came on.

use bytes::BytesMut;
use tokio_util::codec::{AnyDelimiterCodec, Decoder};
use vstd::prelude::*;

verus! {

/// The newline that ends every line.
pub const NEWLINE: u8 = 10u8;

/// The longest line read: a notify is about 400 bytes and a submit about
/// 1750, so 4096 holds every message.
pub const MAX_LINE: usize = 4096usize;

/// The bytes a line's newline is looked for in: at most one more than the
/// longest line.
pub open spec fn search_window(bytes: Seq<u8>) -> Seq<u8> {
    if bytes.len() <= MAX_LINE {
        bytes
    } else {
        bytes.subrange(0, MAX_LINE + 1)
    }
}

/// `AnyDelimiterCodec::new_with_max_length` with `\n` as delimiter and
/// `MAX_LINE` as limit, then its `decode` on the buffered bytes (moved into
/// a `BytesMut` and back). From that fresh state the codec looks for the
/// first `\n` among the first `MAX_LINE + 1` bytes: if there is one, it
/// takes the line before it and the newline off the front and gives the
/// line; if there is none and more than `MAX_LINE` bytes are buffered, it
/// fails (`None` here) and takes nothing; otherwise it waits for more
/// bytes, taking nothing.
#[verifier::external_body]
fn split_line(buf: &mut Vec<u8>) -> (chunk: Option<Option<Vec<u8>>>)
    ensures
        if search_window(old(buf)@).contains(NEWLINE) {
            chunk matches Some(Some(line)) && !line@.contains(NEWLINE) && old(buf)@ == line@ + seq![
                NEWLINE,
            ] + final(buf)@
        } else if old(buf)@.len() > MAX_LINE {
            chunk is None && final(buf)@ == old(buf)@
        } else {
            chunk == Some(None::<Vec<u8>>) && final(buf)@ == old(buf)@
        },
{
    let mut codec = AnyDelimiterCodec::new_with_max_length(vec![b'\n'], vec![b'\n'], MAX_LINE);
    let mut bytes = BytesMut::from(&buf[..]);
    let result = codec.decode(&mut bytes);
    *buf = bytes.to_vec();
    match result {
        Ok(Some(chunk)) => Some(Some(chunk.to_vec())),
        Ok(None) => Some(None),
        Err(_) => None,
    }
}

/// Why no line can be read.
#[derive(PartialEq, Eq, Structural, Clone, Copy, Debug)]
pub enum FrameError {
    /// More than `MAX_LINE` bytes arrived without a newline.
    LineTooLong,
}

/// The next complete line of the buffered bytes, without its newline: the
/// bytes before the first newline, taken off the front of the buffer with
/// it. While no newline has arrived and at most `MAX_LINE` bytes are
/// buffered, `None`, taking nothing; once more than `MAX_LINE` bytes come
/// before any newline, the line is too long, and nothing is taken.
pub fn next_line(buf: &mut Vec<u8>) -> (line: Result<Option<Vec<u8>>, FrameError>)
    ensures
        if search_window(old(buf)@).contains(NEWLINE) {
            &&& line matches Ok(Some(l)) && !l@.contains(NEWLINE) && l@.len() <= MAX_LINE
                && old(buf)@ == l@ + seq![NEWLINE] + final(buf)@
        } else if old(buf)@.len() > MAX_LINE {
            line == Err::<Option<Vec<u8>>, FrameError>(FrameError::LineTooLong) && final(buf)@
                == old(buf)@
        } else {
            line == Ok::<Option<Vec<u8>>, FrameError>(None) && final(buf)@ == old(buf)@
        },
{
    let ghost before = buf@;
    match split_line(buf) {
        Some(chunk) => {
            proof {
                if chunk is Some {
                    lemma_line_fits(before, chunk->0@, buf@);
                }
            }
            Ok(chunk)
        },
        None => Err(FrameError::LineTooLong),
    }
}

/// A line taken from before the first newline of the search window is no
/// longer than `MAX_LINE`.
proof fn lemma_line_fits(bytes: Seq<u8>, line: Seq<u8>, rest: Seq<u8>)
    requires
        search_window(bytes).contains(NEWLINE),
        !line.contains(NEWLINE),
        bytes == line + seq![NEWLINE] + rest,
    ensures
        line.len() <= MAX_LINE,
{
    if line.len() > MAX_LINE {
        let w = search_window(bytes);
        let k = choose|k: int| 0 <= k < w.len() && w[k] == NEWLINE;
        assert(w[k] == bytes[k]);
        assert(bytes[k] == line[k]);
        assert(line.contains(NEWLINE));
    }
}

/// Whether `bytes` holds a newline.
fn has_newline(bytes: &[u8]) -> (found: bool)
    ensures
        found == bytes@.contains(NEWLINE),
{
    let mut i: usize = 0;
    while i < bytes.len()
        invariant
            i <= bytes@.len(),
            forall|k: int| 0 <= k < i ==> bytes@[k] != NEWLINE,
        decreases bytes@.len() - i,
    {
        if bytes[i] == NEWLINE {
            return true;
        }
        i = i + 1;
    }
    false
}

/// The line that carries a JSON text: the text, then a newline. A text that
/// holds a newline itself cannot be one line, and gets none.
pub fn frame_line(json: &[u8]) -> (frame: Option<Vec<u8>>)
    ensures
        match frame {
            Some(f) => !json@.contains(NEWLINE) && f@ == json@ + seq![NEWLINE],
            None => json@.contains(NEWLINE),
        },
{
    if has_newline(json) {
        return None;
    }
    let mut frame: Vec<u8> = Vec::new();
    let mut i: usize = 0;
    while i < json.len()
        invariant
            i <= json@.len(),
            frame@ == json@.subrange(0, i as int),
        decreases json@.len() - i,
    {
        frame.push(json[i]);
        i = i + 1;
    }
    frame.push(NEWLINE);
    assert(json@.subrange(0, json@.len() as int) =~= json@);
    Some(frame)
}

/// Line law: a framed line holds exactly one newline, its last byte, and
/// reading it back gives the text it was made from.
pub proof fn law_one_message_per_line(json: Seq<u8>)
    requires
        !json.contains(NEWLINE),
    ensures
        ({
            let frame = json + seq![NEWLINE];
            &&& frame.last() == NEWLINE
            &&& forall|k: int| 0 <= k < frame.len() - 1 ==> frame[k] != NEWLINE
            &&& frame.subrange(0, frame.len() - 1) == json
        }),
{
    let frame = json + seq![NEWLINE];
    assert(frame.subrange(0, frame.len() - 1) =~= json);
    assert forall|k: int| 0 <= k < frame.len() - 1 implies frame[k] != NEWLINE by {
        assert(frame[k] == json[k]);
        if json[k] == NEWLINE {
            assert(json.contains(NEWLINE));
        }
    }
}

} // verus!
