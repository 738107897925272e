//! Cutting a byte stream into lines of bounded length: bytes past the limit
//! are dropped up to the next newline, and a cut line is marked.

use vstd::prelude::*;

verus! {

/// The text `String::from_utf8_lossy` makes of some bytes.
pub uninterp spec fn lossy_utf8(bytes: Seq<u8>) -> Seq<char>;

/// Whether every byte is ASCII.
pub open spec fn all_ascii(bytes: Seq<u8>) -> bool {
    forall|i: int| 0 <= i < bytes.len() ==> bytes[i] < 0x80
}

/// Bytes decoded as UTF-8, each invalid sequence replaced by U+FFFD:
/// `String::from_utf8_lossy`. Claims that the result depends on the bytes
/// alone, and that ASCII bytes decode to the characters with the same codes.
#[verifier::external_body]
fn utf8_lossy(bytes: &[u8]) -> (s: String)
    ensures
        s@ == lossy_utf8(bytes@),
        all_ascii(bytes@) ==> s@ == ascii_text(bytes@),
{
    String::from_utf8_lossy(bytes).into_owned()
}

/// How many more bytes a line of `len` bytes may take under the limit.
pub open spec fn room(max_line_bytes: usize, len: nat) -> nat {
    if len >= max_line_bytes {
        0
    } else {
        (max_line_bytes - len) as nat
    }
}

/// The first `room` of `bytes`, or all of them when they fit.
pub open spec fn kept_bytes(bytes: Seq<u8>, room: nat) -> Seq<u8> {
    if room >= bytes.len() {
        bytes
    } else {
        bytes.take(room as int)
    }
}

/// Appends `bytes` to a line, keeping at most `max_line_bytes` bytes in it;
/// when bytes have to be dropped, `truncated` is set.
pub fn append_line_bytes(line: &mut Vec<u8>, bytes: &[u8], max_line_bytes: usize, truncated: &mut bool)
    ensures
        final(line)@ == old(line)@ + kept_bytes(bytes@, room(max_line_bytes, old(line)@.len())),
        *final(truncated) == (*old(truncated) || room(max_line_bytes, old(line)@.len()) < bytes@.len()),
{
    let remaining = max_line_bytes.saturating_sub(line.len());
    let take = if remaining >= bytes.len() {
        bytes.len()
    } else {
        remaining
    };
    let ghost start = line@;
    let mut i: usize = 0;
    while i < take
        invariant
            take <= bytes@.len(),
            i <= take,
            line@ == start + bytes@.take(i as int),
        decreases take - i,
    {
        line.push(bytes[i]);
        proof {
            assert(bytes@.take(i + 1) =~= bytes@.take(i as int).push(bytes@[i as int]));
            assert(line@ =~= start + bytes@.take(i + 1));
        }
        i = i + 1;
    }
    if remaining < bytes.len() {
        *truncated = true;
    } else {
        proof {
            assert(bytes@.take(bytes@.len() as int) =~= bytes@);
        }
    }
}

/// The marker appended to a line that was cut at the limit.
pub open spec fn truncation_marker() -> Seq<char> {
    " ... [truncated]"@
}

/// The text of a finished line: the kept bytes decoded, and the marker when
/// bytes were dropped.
pub open spec fn line_text(bytes: Seq<u8>, truncated: bool) -> Seq<char> {
    if truncated {
        lossy_utf8(bytes) + truncation_marker()
    } else {
        lossy_utf8(bytes)
    }
}

/// The text of ASCII bytes: each byte as the character with its code.
pub open spec fn ascii_text(bytes: Seq<u8>) -> Seq<char> {
    bytes.map_values(|b: u8| b as char)
}

/// The text of a finished line of ASCII bytes: its bytes as characters,
/// and the marker when bytes were dropped.
pub open spec fn ascii_line_text(bytes: Seq<u8>, truncated: bool) -> Seq<char> {
    if truncated {
        ascii_text(bytes) + truncation_marker()
    } else {
        ascii_text(bytes)
    }
}

/// The position of the first newline in `bytes`.
pub open spec fn first_newline(bytes: Seq<u8>) -> Option<int> {
    if exists|i: int| 0 <= i < bytes.len() && bytes[i] == 10u8 {
        Some(choose|i: int| 0 <= i < bytes.len() && bytes[i] == 10u8 && forall|j: int| 0 <= j < i ==> bytes[j] != 10u8)
    } else {
        None
    }
}

/// Collects the bytes of the current line from the chunks a reader hands
/// out, keeping at most `max_line_bytes` of them.
pub struct LineReader {
    pub line: Vec<u8>,
    pub truncated: bool,
    pub max_line_bytes: usize,
}

impl LineReader {
    /// The reader's invariant: the kept bytes stay within the limit.
    pub open spec fn wf(&self) -> bool {
        self.line@.len() <= self.max_line_bytes
    }

    /// A reader with an empty line.
    pub fn new(max_line_bytes: usize) -> (r: Self)
        ensures
            r.wf(),
            r.line@.len() == 0,
            !r.truncated,
            r.max_line_bytes == max_line_bytes,
    {
        LineReader { line: Vec::new(), truncated: false, max_line_bytes }
    }

    /// Takes in a chunk of input: up to and including its first newline if
    /// it has one (then the line is complete), else all of it. Returns how
    /// many bytes were used and whether a line ended.
    pub fn feed(&mut self, buffer: &[u8]) -> (r: (usize, bool))
        requires
            old(self).wf(),
        ensures
            final(self).wf(),
            final(self).max_line_bytes == old(self).max_line_bytes,
            match first_newline(buffer@) {
                Some(n) => {
                    &&& r == ((n + 1) as usize, true)
                    &&& final(self).line@ == old(self).line@ + kept_bytes(
                        buffer@.take(n),
                        room(old(self).max_line_bytes, old(self).line@.len()),
                    )
                    &&& final(self).truncated == (old(self).truncated || room(
                        old(self).max_line_bytes,
                        old(self).line@.len(),
                    ) < n)
                },
                None => {
                    &&& r == (buffer@.len() as usize, false)
                    &&& final(self).line@ == old(self).line@ + kept_bytes(
                        buffer@,
                        room(old(self).max_line_bytes, old(self).line@.len()),
                    )
                    &&& final(self).truncated == (old(self).truncated || room(
                        old(self).max_line_bytes,
                        old(self).line@.len(),
                    ) < buffer@.len())
                },
            },
    {
        let mut i: usize = 0;
        while i < buffer.len() && buffer[i] != 10u8
            invariant
                i <= buffer@.len(),
                forall|j: int| 0 <= j < i ==> buffer@[j] != 10u8,
            decreases buffer@.len() - i,
        {
            i = i + 1;
        }
        let ghost room_before = room(self.max_line_bytes, self.line@.len());
        let ends_line = i < buffer.len();
        let chunk_end = i;
        let mut kept: Vec<u8> = Vec::new();
        let mut k: usize = 0;
        while k < chunk_end
            invariant
                k <= chunk_end,
                chunk_end <= buffer@.len(),
                kept@ == buffer@.take(k as int),
            decreases chunk_end - k,
        {
            kept.push(buffer[k]);
            proof {
                assert(buffer@.take(k + 1) =~= buffer@.take(k as int).push(buffer@[k as int]));
            }
            k = k + 1;
        }
        append_line_bytes(&mut self.line, kept.as_slice(), self.max_line_bytes, &mut self.truncated);
        proof {
            if ends_line {
                assert(buffer@[i as int] == 10u8);
                let c = choose|c: int|
                    0 <= c < buffer@.len() && buffer@[c] == 10u8 && forall|j: int| 0 <= j < c ==> buffer@[j] != 10u8;
                assert(c == i as int);
            } else {
                assert(kept@ =~= buffer@);
            }
        }
        if ends_line {
            (i + 1, true)
        } else {
            (i, false)
        }
    }

    /// Hands out the finished line's text and starts a new, empty line.
    pub fn take_line(&mut self) -> (s: String)
        requires
            old(self).wf(),
        ensures
            s@ == line_text(old(self).line@, old(self).truncated),
            all_ascii(old(self).line@) ==> s@ == ascii_line_text(old(self).line@, old(self).truncated),
            final(self).wf(),
            final(self).line@.len() == 0,
            !final(self).truncated,
            final(self).max_line_bytes == old(self).max_line_bytes,
    {
        let mut s = utf8_lossy(self.line.as_slice());
        if self.truncated {
            s.append(" ... [truncated]");
            proof {
                reveal_strlit(" ... [truncated]");
            }
        }
        self.line = Vec::new();
        self.truncated = false;
        s
    }

    /// At the end of the input: the last line, if it has any bytes or was cut.
    pub fn finish(&mut self) -> (r: Option<String>)
        requires
            old(self).wf(),
        ensures
            final(self).wf(),
            final(self).max_line_bytes == old(self).max_line_bytes,
            match r {
                Some(s) => {
                    &&& (old(self).line@.len() > 0 || old(self).truncated)
                    &&& s@ == line_text(old(self).line@, old(self).truncated)
                    &&& all_ascii(old(self).line@) ==> s@ == ascii_line_text(old(self).line@, old(self).truncated)
                },
                None => old(self).line@.len() == 0 && !old(self).truncated,
            },
    {
        if self.line.len() > 0 || self.truncated {
            Some(self.take_line())
        } else {
            None
        }
    }
}

} // verus!
