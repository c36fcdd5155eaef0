//! Byte framing: one request per line, without letting a missing newline grow
//! a buffer.
//!
//! Bytes arrive in chunks of whatever size the socket hands out. The readers
//! here are fed those chunks; what they report is a function of the bytes
//! alone, never of where one chunk ended and the next began.

use crate::discovery::{a_path_is_joined_by_one_slash, join_path, path_joined};
use crate::json::{JsonView, parse_value, parsed_json};
use crate::local_api::protocol::{id_text, normalize_id, salvage_id, salvaged};
use crate::text::{
    chars_of, dec, dec_usize, has_prefix, has_suffix, is_space, is_white, matches_at, occurs_at,
    string_of, trim_end, trim_start, trimmed_end, trimmed_start,
};
use vstd::prelude::*;
use vstd::utf8::*;

verus! {

broadcast use vstd::string::group_string_axioms;

/// Ceiling on one request line.
pub const MAX_LINE_BYTES: usize = 65536;

/// Ceiling on one frame of the command-line bridge, aligned with the server's.
pub const MAX_FRAME_BYTES: usize = 65536;

/// The newline byte.
pub const NEWLINE: u8 = 10;

/// The carriage return byte.
pub const RETURN: u8 = 13;

/// Where the first newline stands, or the length when there is none.
pub open spec fn newline_at(s: Seq<u8>) -> int
    decreases s.len(),
{
    if s.len() == 0 || s[0] == NEWLINE {
        0
    } else {
        1 + newline_at(s.skip(1))
    }
}

/// The first newline is where it is: nothing before it, and it or the end at
/// it.
pub proof fn lemma_newline_at(s: Seq<u8>)
    ensures
        0 <= newline_at(s) <= s.len(),
        forall|i: int| 0 <= i < newline_at(s) ==> #[trigger] s[i] != NEWLINE,
        newline_at(s) < s.len() ==> s[newline_at(s)] == NEWLINE,
    decreases s.len(),
{
    if s.len() > 0 && s[0] != NEWLINE {
        let t = s.skip(1);
        lemma_newline_at(t);
        assert forall|i: int| 0 <= i < newline_at(s) implies #[trigger] s[i] != NEWLINE by {
            if i > 0 {
                assert(t[i - 1] == s[i]);
            }
        }
    }
}

proof fn lemma_newline_unique(s: Seq<u8>, n: int)
    requires
        0 <= n <= s.len(),
        forall|i: int| 0 <= i < n ==> #[trigger] s[i] != NEWLINE,
        n < s.len() ==> s[n] == NEWLINE,
    ensures
        newline_at(s) == n,
{
    lemma_newline_at(s);
    if newline_at(s) < n {
        assert(s[newline_at(s)] != NEWLINE);
    }
    if n < newline_at(s) {
        assert(s[n] != NEWLINE);
    }
}

proof fn lemma_newline_concat(a: Seq<u8>, b: Seq<u8>)
    ensures
        newline_at(a) < a.len() ==> newline_at(a + b) == newline_at(a),
        newline_at(a) == a.len() ==> newline_at(a + b) == a.len() + newline_at(b),
{
    lemma_newline_at(a);
    lemma_newline_at(b);
    let s = a + b;
    if newline_at(a) < a.len() {
        assert(s[newline_at(a)] == a[newline_at(a)]);
        assert forall|i: int| 0 <= i < newline_at(a) implies #[trigger] s[i] != NEWLINE by {
            assert(s[i] == a[i]);
        }
        lemma_newline_unique(s, newline_at(a));
    } else {
        let n = a.len() + newline_at(b);
        assert forall|i: int| 0 <= i < n implies #[trigger] s[i] != NEWLINE by {
            if i < a.len() {
                assert(s[i] == a[i]);
            } else {
                assert(s[i] == b[i - a.len()]);
            }
        }
        if n < s.len() {
            assert(s[n] == b[newline_at(b)]);
        }
        lemma_newline_unique(s, n);
    }
}

fn find_newline(buffer: &[u8]) -> (n: usize)
    ensures
        n == newline_at(buffer@),
{
    let mut n: usize = 0;
    while n < buffer.len() && buffer[n] != NEWLINE
        invariant
            n <= buffer@.len(),
            forall|i: int| 0 <= i < n ==> #[trigger] buffer@[i] != NEWLINE,
        decreases buffer@.len() - n,
    {
        n = n + 1;
    }
    proof {
        lemma_newline_unique(buffer@, n as int);
    }
    n
}

/// Append `buffer[..to]` to `out`.
fn extend(out: &mut Vec<u8>, buffer: &[u8], to: usize)
    requires
        to <= buffer@.len(),
    ensures
        final(out)@ == old(out)@ + buffer@.take(to as int),
{
    let ghost start = out@;
    let mut i: usize = 0;
    proof {
        assert(start + buffer@.take(0) =~= start);
    }
    while i < to
        invariant
            i <= to <= buffer@.len(),
            out@ == start + buffer@.take(i as int),
        decreases to - i,
    {
        out.push(buffer[i]);
        i = i + 1;
        proof {
            assert(out@ =~= start + buffer@.take(i as int));
        }
    }
}

// ---------------------------------------------------------------------
// The server's reader
// ---------------------------------------------------------------------

/// A line, or the beginning of one that passed the bound.
#[derive(Debug, PartialEq, Eq)]
pub enum BoundedLine {
    Complete(Vec<u8>),
    Oversized(Vec<u8>),
}

/// What the bytes received so far amount to.
#[verifier::ext_equal]
pub enum LineView {
    /// No line yet.
    Pending,
    /// A line, after `used` bytes.
    Complete { line: Seq<u8>, used: int },
    /// More than the bound without a newline; the reader stopped after `used`
    /// bytes and kept what fits.
    Oversized { prefix: Seq<u8>, used: int },
}

/// A line without the carriage return that closed it.
pub open spec fn strip_return(line: Seq<u8>) -> Seq<u8> {
    if line.len() > 0 && line.last() == RETURN {
        line.drop_last()
    } else {
        line
    }
}

/// The first line of `s`, bounded by `max` bytes of content.
pub open spec fn first_line(s: Seq<u8>, max: int) -> LineView {
    let n = newline_at(s);
    if n > max {
        LineView::Oversized { prefix: s.take(max), used: max + 1 }
    } else if n < s.len() {
        LineView::Complete { line: strip_return(s.take(n)), used: n + 1 }
    } else {
        LineView::Pending
    }
}

/// The line that the end of input leaves: what is there, unless nothing is.
pub open spec fn last_line(s: Seq<u8>) -> Option<Seq<u8>> {
    if s.len() == 0 {
        None
    } else {
        Some(s)
    }
}

/// Once the bytes hold a line, more bytes do not change it: what is reported
/// does not depend on how the stream was cut into chunks.
pub proof fn a_line_does_not_depend_on_what_follows(a: Seq<u8>, b: Seq<u8>, max: int)
    requires
        0 <= max,
        !(first_line(a, max) is Pending),
    ensures
        first_line(a + b, max) == first_line(a, max),
{
    lemma_newline_at(a);
    lemma_newline_at(a + b);
    lemma_newline_concat(a, b);
    lemma_newline_at(b);
    let n = newline_at(a);
    if n > max {
        assert((a + b).take(max) =~= a.take(max));
    } else {
        assert((a + b).take(n) =~= a.take(n));
    }
}

/// No frame is longer than the bound.
pub proof fn frames_stay_within_the_bound(s: Seq<u8>, max: int)
    requires
        0 <= max,
    ensures
        first_line(s, max) matches LineView::Complete { line, used } ==> line.len() <= max && used
            <= s.len(),
        first_line(s, max) matches LineView::Oversized { prefix, used } ==> prefix.len() == max
            && used <= s.len(),
        first_line(s, max) is Pending ==> s.len() <= max,
{
    lemma_newline_at(s);
}

/// Collects one line from the chunks it is fed.
pub struct LineReader {
    line: Vec<u8>,
    max: usize,
}

/// What feeding one chunk did.
#[derive(Debug, PartialEq, Eq)]
pub struct Fed {
    /// How many bytes of the chunk were used; the rest belongs to later lines.
    pub consumed: usize,
    /// The line, once there is one.
    pub line: Option<BoundedLine>,
}

impl LineReader {
    /// What was collected for the line that is being read.
    pub closed spec fn collected(&self) -> Seq<u8> {
        self.line@
    }

    /// The bound.
    pub closed spec fn bound(&self) -> nat {
        self.max as nat
    }

    #[verifier::type_invariant]
    spec fn collected_is_pending(self) -> bool {
        &&& self.line@.len() <= self.max
        &&& newline_at(self.line@) == self.line@.len()
    }

    /// A reader for lines of at most `max` bytes.
    pub fn new(max: usize) -> (r: Self)
        ensures
            r.collected() == Seq::<u8>::empty(),
            r.bound() == max,
    {
        LineReader { line: Vec::new(), max }
    }

    /// Read on in `buffer`. When a line comes out the reader is empty again
    /// and ready for the next one.
    pub fn feed(&mut self, buffer: &[u8]) -> (r: Fed)
        ensures
            final(self).bound() == old(self).bound(),
            r.consumed <= buffer@.len(),
            match first_line(old(self).collected() + buffer@, old(self).bound() as int) {
                LineView::Pending => {
                    &&& r.line is None
                    &&& r.consumed == buffer@.len()
                    &&& final(self).collected() == old(self).collected() + buffer@
                },
                LineView::Complete { line, used } => {
                    &&& r.line matches Some(BoundedLine::Complete(l)) && l@ == line
                    &&& r.consumed == used - old(self).collected().len()
                    &&& final(self).collected() == Seq::<u8>::empty()
                },
                LineView::Oversized { prefix, used } => {
                    &&& r.line matches Some(BoundedLine::Oversized(l)) && l@ == prefix
                    &&& r.consumed == used - old(self).collected().len()
                    &&& final(self).collected() == Seq::<u8>::empty()
                },
            },
    {
        proof {
            use_type_invariant(&*self);
            lemma_newline_concat(self.line@, buffer@);
            lemma_newline_at(buffer@);
            lemma_newline_at(self.line@ + buffer@);
        }
        let ghost held = self.line@;
        let ghost all = held + buffer@;
        let max = self.max;
        let content = find_newline(buffer);
        let mut line: Vec<u8> = Vec::new();
        core::mem::swap(&mut self.line, &mut line);
        let remaining: usize = max - line.len();
        if content > remaining {
            extend(&mut line, buffer, remaining);
            proof {
                assert(line@ =~= all.take(max as int));
            }
            return Fed { consumed: remaining + 1, line: Some(BoundedLine::Oversized(line)) };
        }
        extend(&mut line, buffer, content);
        if content < buffer.len() {
            proof {
                assert(line@ =~= all.take(held.len() + content));
            }
            let ghost whole = line@;
            if line.len() > 0 && line[line.len() - 1] == RETURN {
                let _ = line.pop();
            }
            proof {
                assert(line@ =~= strip_return(whole));
            }
            return Fed { consumed: content + 1, line: Some(BoundedLine::Complete(line)) };
        }
        proof {
            assert(buffer@.take(content as int) =~= buffer@);
        }
        core::mem::swap(&mut self.line, &mut line);
        Fed { consumed: content, line: None }
    }

    /// The input ended: what was collected is the last line, if there is any.
    pub fn finish(&mut self) -> (r: Option<BoundedLine>)
        ensures
            final(self).bound() == old(self).bound(),
            final(self).collected() == Seq::<u8>::empty(),
            match last_line(old(self).collected()) {
                Some(line) => r matches Some(BoundedLine::Complete(l)) && l@ == line,
                None => r is None,
            },
    {
        let mut line: Vec<u8> = Vec::new();
        core::mem::swap(&mut self.line, &mut line);
        if line.len() == 0 {
            None
        } else {
            Some(BoundedLine::Complete(line))
        }
    }
}

// ---------------------------------------------------------------------
// The bridge's reader
// ---------------------------------------------------------------------

/// What the bytes of a bridge frame received so far amount to.
#[verifier::ext_equal]
pub enum FrameView {
    Pending,
    /// A frame with its newline.
    Complete(Seq<u8>),
    /// More than the bound without a newline.
    TooLong,
}

/// The first frame of `s`: unlike a server line it keeps its bytes as they
/// are, newline and carriage return too, because the bridge does not interpret
/// what it forwards.
pub open spec fn first_frame(s: Seq<u8>, max: int) -> FrameView {
    let n = newline_at(s);
    if n > max {
        FrameView::TooLong
    } else if n < s.len() {
        FrameView::Complete(s.take(n + 1))
    } else {
        FrameView::Pending
    }
}

/// Collects one raw frame from the chunks it is fed.
pub struct FrameReader {
    frame: Vec<u8>,
    max: usize,
}

/// What feeding one chunk to the bridge did.
#[derive(Debug, PartialEq, Eq)]
pub enum FedFrame {
    /// The chunk is used up and the frame goes on.
    More,
    /// The frame is whole; `consumed` bytes of the chunk were used.
    Frame { frame: Vec<u8>, consumed: usize },
    /// The frame passed the bound: nothing of it may be forwarded.
    TooLong { message: String },
}

impl FrameReader {
    /// What was collected for the frame that is being read.
    pub closed spec fn collected(&self) -> Seq<u8> {
        self.frame@
    }

    /// The bound.
    pub closed spec fn bound(&self) -> nat {
        self.max as nat
    }

    #[verifier::type_invariant]
    spec fn collected_is_pending(self) -> bool {
        &&& self.frame@.len() <= self.max
        &&& newline_at(self.frame@) == self.frame@.len()
    }

    /// A reader for frames of at most `max` bytes, the newline not counted.
    pub fn new(max: usize) -> (r: Self)
        ensures
            r.collected() == Seq::<u8>::empty(),
            r.bound() == max,
    {
        FrameReader { frame: Vec::new(), max }
    }

    /// Read on in `buffer`.
    pub fn feed(&mut self, buffer: &[u8]) -> (r: FedFrame)
        ensures
            final(self).bound() == old(self).bound(),
            match first_frame(old(self).collected() + buffer@, old(self).bound() as int) {
                FrameView::Pending => {
                    &&& r is More
                    &&& final(self).collected() == old(self).collected() + buffer@
                },
                FrameView::Complete(f) => {
                    &&& r matches FedFrame::Frame { frame, consumed } && frame@ == f && consumed
                        == f.len() - old(self).collected().len() && consumed <= buffer@.len()
                    &&& final(self).collected() == Seq::<u8>::empty()
                },
                FrameView::TooLong => {
                    &&& r matches FedFrame::TooLong { message } && message@
                        == "JSONL frame exceeds "@ + dec(old(self).bound() as int) + " bytes"@
                    &&& final(self).collected() == Seq::<u8>::empty()
                },
            },
    {
        proof {
            use_type_invariant(&*self);
            lemma_newline_concat(self.frame@, buffer@);
            lemma_newline_at(buffer@);
            lemma_newline_at(self.frame@ + buffer@);
        }
        let ghost held = self.frame@;
        let ghost all = held + buffer@;
        let max = self.max;
        let content = find_newline(buffer);
        let mut frame: Vec<u8> = Vec::new();
        core::mem::swap(&mut self.frame, &mut frame);
        if content > max - frame.len() {
            let mut message = "JSONL frame exceeds ".to_owned();
            message.append(dec_usize(max).as_str());
            message.append(" bytes");
            return FedFrame::TooLong { message };
        }
        extend(&mut frame, buffer, content);
        if content < buffer.len() {
            frame.push(NEWLINE);
            proof {
                assert(frame@ =~= all.take(held.len() + content + 1));
            }
            return FedFrame::Frame { frame, consumed: content + 1 };
        }
        proof {
            assert(buffer@.take(content as int) =~= buffer@);
        }
        core::mem::swap(&mut self.frame, &mut frame);
        FedFrame::More
    }

    /// The input ended: what was collected is forwarded as it is.
    pub fn finish(&mut self) -> (r: Option<Vec<u8>>)
        ensures
            final(self).bound() == old(self).bound(),
            final(self).collected() == Seq::<u8>::empty(),
            match last_line(old(self).collected()) {
                Some(f) => r matches Some(v) && v@ == f,
                None => r is None,
            },
    {
        let mut frame: Vec<u8> = Vec::new();
        core::mem::swap(&mut self.frame, &mut frame);
        if frame.len() == 0 {
            None
        } else {
            Some(frame)
        }
    }
}

/// A complete bridge frame is forwarded byte for byte: it is a prefix of what
/// arrived, up to and with its newline.
pub proof fn the_bridge_preserves_bytes(s: Seq<u8>, max: int)
    requires
        0 <= max,
    ensures
        first_frame(s, max) matches FrameView::Complete(f) ==> f.len() <= s.len() && f == s.take(
            f.len() as int,
        ) && f.last() == NEWLINE,
{
    lemma_newline_at(s);
    if first_frame(s, max) is Complete {
        let n = newline_at(s);
        assert(s.take(n + 1).last() == s[n]);
    }
}

// ---------------------------------------------------------------------
// Salvaging a request id
// ---------------------------------------------------------------------

/// `String::from_utf8` of std: the text a byte string encodes, `None` when it
/// is not valid UTF-8.
#[verifier::external_body]
pub(crate) fn utf8_text(bytes: Vec<u8>) -> (r: Option<String>)
    ensures
        r is Some <==> valid_utf8(bytes@),
        r matches Some(s) ==> s@ == decode_utf8(bytes@),
{
    String::from_utf8(bytes).ok()
}

/// Whether the text before position `at` ends an object's opening or another
/// member, so that a member name may stand there.
pub open spec fn member_may_start(s: Seq<char>, at: int) -> bool {
    let before = trimmed_end(s.take(at));
    before.len() > 0 && (before.last() == '{' || before.last() == ',')
}

/// The text after the colon that follows position `at`.
pub open spec fn after_colon(s: Seq<char>, at: int) -> Option<Seq<char>> {
    let rest = trimmed_start(s.skip(at));
    if rest.len() > 0 && rest[0] == ':' {
        Some(trimmed_start(rest.skip(1)))
    } else {
        None
    }
}

/// The first unescaped double quote in `v` at or after `i`.
pub open spec fn closing_quote(v: Seq<char>, i: int, escaped: bool) -> Option<int>
    decreases v.len() - i,
{
    if i < 0 || i >= v.len() {
        None
    } else if escaped {
        closing_quote(v, i + 1, false)
    } else if v[i] == '\\' {
        closing_quote(v, i + 1, true)
    } else if v[i] == '"' {
        Some(i)
    } else {
        closing_quote(v, i + 1, false)
    }
}

/// Whether `c` ends a bare JSON token.
pub open spec fn ends_token(c: char) -> bool {
    c == ',' || c == '}' || is_space(c)
}

/// Where the bare JSON token that `v` begins with ends.
pub open spec fn token_end(v: Seq<char>) -> int
    decreases v.len(),
{
    if v.len() == 0 || ends_token(v[0]) {
        0
    } else {
        1 + token_end(v.skip(1))
    }
}

/// The id that a member's value text gives, when it is complete.
pub open spec fn id_in_value(v: Seq<char>) -> Option<Seq<char>> {
    if v.len() > 0 && v[0] == '"' {
        match closing_quote(v, 1, false) {
            Some(k) => match parsed_json(v.take(k + 1)) {
                Ok(JsonView::Text(t)) => Some(t),
                _ => None,
            },
            None => None,
        }
    } else {
        match parsed_json(v.take(token_end(v))) {
            Ok(j) => id_text(j),
            Err(_) => None,
        }
    }
}

/// The id that the `"id"` at position `at` names, when it is a member name.
pub open spec fn id_at(s: Seq<char>, at: int) -> Option<Seq<char>> {
    if member_may_start(s, at) {
        match after_colon(s, at + 4) {
            Some(v) => id_in_value(v),
            None => None,
        }
    } else {
        None
    }
}

/// The id that the first usable `"id"` in `s[at..]` names, or nothing. Only a
/// member of the outermost object names one: `depth` is how many objects and
/// lists are open before `at`, `quoted` says that `at` is inside a text, and
/// `escaped` that a backslash stands before it.
pub open spec fn id_from(
    s: Seq<char>,
    at: int,
    depth: nat,
    quoted: bool,
    escaped: bool,
) -> Seq<char>
    decreases s.len() - at,
{
    if at < 0 || at >= s.len() {
        Seq::empty()
    } else if quoted {
        let ends = !escaped && s[at] == '"';
        id_from(s, at + 1, depth, !ends, !escaped && s[at] == '\\')
    } else if s[at] == '"' {
        if depth == 1 && occurs_at(s, "\"id\""@, at) && id_at(s, at) is Some {
            id_at(s, at)->0
        } else {
            id_from(s, at + 1, depth, true, false)
        }
    } else if s[at] == '{' || s[at] == '[' {
        id_from(s, at + 1, depth + 1, false, false)
    } else if s[at] == '}' || s[at] == ']' {
        if depth <= 1 {
            Seq::empty()
        } else {
            id_from(s, at + 1, (depth - 1) as nat, false, false)
        }
    } else {
        id_from(s, at + 1, depth, false, false)
    }
}

/// The id that can be recovered from a text that is cut short: a member of the
/// object it begins with.
pub open spec fn id_in_prefix(s: Seq<char>) -> Seq<char> {
    let body = trimmed_start(s);
    if body.len() > 0 && body[0] == '{' {
        id_from(body, 0, 0, false, false)
    } else {
        Seq::empty()
    }
}

/// The id that can be recovered from a line.
pub open spec fn salvaged_from_line(s: Seq<char>) -> Seq<char> {
    match parsed_json(s) {
        Ok(j) => salvaged(j),
        Err(_) => id_in_prefix(s),
    }
}

/// The id that can be recovered from the bytes of a line.
pub open spec fn salvaged_from_bytes(line: Seq<u8>) -> Seq<char> {
    if valid_utf8(line) {
        salvaged_from_line(decode_utf8(line))
    } else {
        Seq::empty()
    }
}

fn find_closing_quote(v: &Vec<char>) -> (r: Option<usize>)
    ensures
        match closing_quote(v@, 1, false) {
            Some(k) => r matches Some(i) && i == k && k < v@.len(),
            None => r is None,
        },
{
    let mut i: usize = 1;
    let mut escaped = false;
    while i < v.len()
        invariant
            closing_quote(v@, i as int, escaped) == closing_quote(v@, 1, false),
        decreases v@.len() - i,
    {
        if escaped {
            escaped = false;
        } else if v[i] == '\\' {
            escaped = true;
        } else if v[i] == '"' {
            return Some(i);
        }
        i = i + 1;
    }
    None
}

fn find_token_end(v: &Vec<char>) -> (n: usize)
    ensures
        n == token_end(v@),
        n <= v@.len(),
{
    let mut n: usize = 0;
    proof {
        assert(v@.skip(0) =~= v@);
    }
    while n < v.len()
        invariant
            n <= v@.len(),
            token_end(v@) == n + token_end(v@.skip(n as int)),
        decreases v@.len() - n,
    {
        let c = v[n];
        if c == ',' || c == '}' || is_white(c) {
            return n;
        }
        n = n + 1;
        proof {
            assert(v@.skip(n as int - 1).skip(1) =~= v@.skip(n as int));
        }
    }
    n
}

/// The id that a member's value text gives, when it is complete.
fn read_id_value(value: &str) -> (r: Option<String>)
    ensures
        match id_in_value(value@) {
            Some(t) => r matches Some(s) && s@ == t,
            None => r is None,
        },
{
    let v = chars_of(value);
    if v.len() > 0 && v[0] == '"' {
        match find_closing_quote(&v) {
            Some(k) => {
                let token = string_of(&v, 0, k + 1);
                proof {
                    assert(v@.subrange(0, k as int + 1) =~= v@.take(k as int + 1));
                }
                match parse_value(token.as_str()) {
                    Ok(raw) => match raw.as_str() {
                        Some(s) => Some(s.to_owned()),
                        None => None,
                    },
                    Err(_) => None,
                }
            },
            None => None,
        }
    } else {
        let end = find_token_end(&v);
        let token = string_of(&v, 0, end);
        proof {
            assert(v@.subrange(0, end as int) =~= v@.take(end as int));
        }
        match parse_value(token.as_str()) {
            Ok(raw) => normalize_id(&raw),
            Err(_) => None,
        }
    }
}

fn read_id_at(v: &Vec<char>, at: usize) -> (r: Option<String>)
    requires
        at + 4 <= v.len(),
    ensures
        match id_at(v@, at as int) {
            Some(t) => r matches Some(s) && s@ == t,
            None => r is None,
        },
{
    let head = string_of(v, 0, at);
    let before = chars_of(trim_end(head.as_str()).as_str());
    proof {
        assert(v@.subrange(0, at as int) =~= v@.take(at as int));
    }
    if before.len() == 0 {
        return None;
    }
    let last = before[before.len() - 1];
    if last != '{' && last != ',' {
        return None;
    }
    let tail = string_of(v, at + 4, v.len());
    proof {
        assert(v@.subrange(at as int + 4, v@.len() as int) =~= v@.skip(at as int + 4));
    }
    let rest = trim_start(tail.as_str());
    let chars = chars_of(rest.as_str());
    if chars.len() == 0 || chars[0] != ':' {
        return None;
    }
    let after = string_of(&chars, 1, chars.len());
    proof {
        assert(chars@.subrange(1, chars@.len() as int) =~= chars@.skip(1));
    }
    read_id_value(trim_start(after.as_str()).as_str())
}

/// The id that can be recovered from a text that is cut short.
fn read_id_in_prefix(line: &str) -> (r: String)
    ensures
        r@ == id_in_prefix(line@),
{
    let body = trim_start(line);
    let v = chars_of(body.as_str());
    if v.len() == 0 || v[0] != '{' {
        return String::new();
    }
    let key = chars_of("\"id\"");
    proof {
        reveal_strlit("\"id\"");
    }
    let mut at: usize = 0;
    let mut depth: usize = 0;
    let mut quoted = false;
    let mut escaped = false;
    while at < v.len()
        invariant
            key@ == "\"id\""@,
            key@.len() == 4,
            depth <= at <= v@.len(),
            id_in_prefix(line@) == id_from(v@, 0, 0, false, false),
            id_from(v@, at as int, depth as nat, quoted, escaped) == id_from(
                v@,
                0,
                0,
                false,
                false,
            ),
        decreases v@.len() - at,
    {
        let c = v[at];
        if quoted {
            quoted = escaped || c != '"';
            escaped = !escaped && c == '\\';
        } else if c == '"' {
            if depth == 1 && matches_at(&v, &key, at) {
                match read_id_at(&v, at) {
                    Some(id) => {
                        return id;
                    },
                    None => {},
                }
            }
            quoted = true;
            escaped = false;
        } else {
            escaped = false;
            if c == '{' || c == '[' {
                depth = depth + 1;
            } else if c == '}' || c == ']' {
                if depth <= 1 {
                    return String::new();
                }
                depth = depth - 1;
            }
        }
        at = at + 1;
    }
    String::new()
}

/// The id that can be recovered from a line.
///
/// A line that parses gives its own id. A truncated one can still hold a
/// complete id near its start: only a member of the outermost object is looked
/// at, because neither arbitrary text nor what is nested in the params is the
/// request's id.
pub fn salvage_id_from_line(line: &str) -> (r: String)
    ensures
        r@ == salvaged_from_line(line@),
{
    match parse_value(line) {
        Ok(raw) => salvage_id(&raw),
        Err(_) => read_id_in_prefix(line),
    }
}

/// The id that can be recovered from the bytes of a line, `""` when there is
/// none.
pub fn salvage_id_from_bytes(line: &Vec<u8>) -> (r: String)
    ensures
        r@ == salvaged_from_bytes(line@),
{
    let mut copy: Vec<u8> = Vec::new();
    extend(&mut copy, line.as_slice(), line.len());
    proof {
        assert(Seq::<u8>::empty() + line@.take(line@.len() as int) =~= line@);
    }
    match utf8_text(copy) {
        Some(text) => salvage_id_from_line(text.as_str()),
        None => String::new(),
    }
}

/// Where the socket is.
pub open spec fn socket_path(socket: Option<Seq<char>>, home: Seq<char>) -> Seq<char> {
    match socket {
        Some(path) => path,
        None => path_joined(home, "api.sock"@),
    }
}

/// The socket the bridge connects to: the one that was named, else the one in
/// the home directory.
pub fn resolve_socket_path(socket: Option<&str>, home: &str) -> (r: String)
    ensures
        r@ == match socket {
            Some(path) => socket_path(Some(path@), home@),
            None => socket_path(None, home@),
        },
{
    match socket {
        Some(path) => path.to_owned(),
        None => join_path(home, "api.sock"),
    }
}

/// The socket is where it is said to be, and otherwise in the home directory.
pub proof fn a_named_socket_is_taken(path: Seq<char>, home: Seq<char>)
    ensures
        socket_path(Some(path), home) == path,
        has_prefix(socket_path(None, home), home),
        has_suffix(socket_path(None, home), "api.sock"@),
{
    a_path_is_joined_by_one_slash(home, "api.sock"@);
}

/// The id that a request opens with is found even where the rest of it is cut off
/// or broken; what is no object has none.
pub proof fn an_id_that_comes_first_is_found(value: Seq<char>, line: Seq<char>)
    requires
        value.len() > 0,
        !is_space(value[0]),
        id_in_value(value) is Some,
    ensures
        id_in_prefix("{\"id\":"@ + value) == id_in_value(value)->0,
        line.len() > 0 && !is_space(line[0]) && line[0] != '{' ==> id_in_prefix(line).len() == 0,
{
    reveal_strlit("{\"id\":");
    reveal_strlit("\"id\"");
    let s = "{\"id\":"@ + value;
    assert(s[0] == '{' && s[1] == '"' && s[5] == ':');
    assert(trimmed_start(s) == s);
    assert(s.subrange(1, 5) =~= "\"id\""@);
    assert(occurs_at(s, "\"id\""@, 1));
    let open = s.take(1);
    assert(open =~= seq!['{']);
    assert(trimmed_end(open) == open);
    assert(member_may_start(s, 1));
    let rest = s.skip(5);
    assert(rest[0] == ':');
    assert(trimmed_start(rest) == rest);
    assert(rest.skip(1) =~= value);
    assert(trimmed_start(value) == value);
    assert(after_colon(s, 5) == Some(value));
    assert(id_at(s, 1) == id_in_value(value));
    assert(id_from(s, 1, 1, false, false) == id_in_value(value)->0);
    assert(id_from(s, 0, 0, false, false) == id_from(s, 1, 1, false, false));
}

/// What the line is read from decides: the id of a line that is a value is the id
/// in that value, and bytes that are no text have none.
pub proof fn a_whole_line_has_its_own_id(line: Seq<u8>, j: JsonView)
    ensures
        valid_utf8(line) && parsed_json(decode_utf8(line)) == Ok::<JsonView, Seq<char>>(j)
            ==> salvaged_from_bytes(line) == salvaged(j),
        !valid_utf8(line) ==> salvaged_from_bytes(line).len() == 0,
{
}

proof fn lemma_closing(v: Seq<char>, i: int, end: int)
    requires
        0 <= i <= end < v.len(),
        v[end] == '"',
        forall|k: int| i <= k < end ==> #[trigger] v[k] != '"' && v[k] != '\\',
    ensures
        closing_quote(v, i, false) == Some(end),
    decreases end - i,
{
    if i < end {
        assert(v[i] != '"' && v[i] != '\\');
        lemma_closing(v, i + 1, end);
    }
}

/// A string ends at the first quote that is not escaped: what stands behind a
/// backslash never ends it.
pub proof fn a_string_ends_at_its_own_quote(
    v: Seq<char>,
    i: int,
    end: int,
)
    requires
        0 <= i <= end < v.len(),
        v[end] == '"',
        forall|k: int| i <= k < end ==> #[trigger] v[k] != '"' && v[k] != '\\',
    ensures
        closing_quote(v, i, false) == Some(end),
        i >= 2 && v[i - 2] == '\\' ==> closing_quote(v, i - 2, false) == Some(end),
        i >= 1 ==> closing_quote(v, i - 1, true) == Some(end),
{
    lemma_closing(v, i, end);
}

/// A bare value ends in front of the first comma, brace or white space, and at the
/// end of the line where there is none.
pub proof fn a_bare_value_ends_at_a_delimiter(v: Seq<char>)
    ensures
        0 <= token_end(v) <= v.len(),
        token_end(v) < v.len() ==> v[token_end(v)] == ',' || v[token_end(v)] == '}' || is_space(
            v[token_end(v)],
        ),
        forall|k: int|
            0 <= k < token_end(v) ==> #[trigger] v[k] != ',' && v[k] != '}' && !is_space(v[k]),
    decreases v.len(),
{
    if v.len() > 0 && !ends_token(v[0]) {
        let rest = v.skip(1);
        a_bare_value_ends_at_a_delimiter(rest);
        assert forall|k: int| 0 <= k < token_end(v) implies #[trigger] v[k] != ',' && v[k] != '}'
            && !is_space(v[k]) by {
            if k > 0 {
                assert(rest[k - 1] == v[k]);
            }
        }
    }
}

} // verus!
