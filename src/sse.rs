//! Incremental Server-Sent-Events parser.
//!
//! Input is buffered as bytes; text is decoded only once a whole field value
//! has been assembled, so a multi-byte character split across chunks is kept
//! intact.
use vstd::prelude::*;

verus! {

/// A byte string as text, invalid sequences replaced by U+FFFD.
pub uninterp spec fn lossy_text(b: Seq<u8>) -> Seq<char>;

/// Relies on String::from_utf8_lossy: valid UTF-8 decodes to its characters,
/// and the result depends on the bytes alone.
#[verifier::external_body]
fn utf8_lossy(b: &[u8]) -> (r: String)
    ensures
        r@ == lossy_text(b@),
        vstd::utf8::valid_utf8(b@) ==> r@ == vstd::utf8::decode_utf8(b@),
{
    String::from_utf8_lossy(b).into_owned()
}

/// One dispatched event.
#[derive(Debug, Clone, PartialEq)]
pub struct SseEvent {
    pub event: Option<String>,
    pub data: String,
    pub id: Option<String>,
}

/// An event as raw field values, each the bytes after its prefix:
/// (last event name, data values in order, last id).
pub type EventBytes = (Option<Seq<u8>>, Seq<Seq<u8>>, Option<Seq<u8>>);

/// An event as text: (event name, data, id).
pub type EventText = (Option<Seq<char>>, Seq<char>, Option<Seq<char>>);

/// The text of a byte string: its characters when it is valid UTF-8, else
/// the decoding with invalid sequences replaced.
pub open spec fn text_of(b: Seq<u8>) -> Seq<char> {
    if vstd::utf8::valid_utf8(b) {
        vstd::utf8::decode_utf8(b)
    } else {
        lossy_text(b)
    }
}

/// Unicode white space (the `White_Space` property).
pub open spec fn is_space(c: char) -> bool {
    let v = c as u32;
    (9 <= v <= 13) || v == 32 || v == 0x85 || v == 0xA0 || v == 0x1680 || (0x2000 <= v <= 0x200A)
        || v == 0x2028 || v == 0x2029 || v == 0x202F || v == 0x205F || v == 0x3000
}

/// Index of the first non-space character at or after `i`.
pub open spec fn skip_space(s: Seq<char>, i: int) -> int
    decreases s.len() - i,
{
    if 0 <= i < s.len() && is_space(s[i]) {
        skip_space(s, i + 1)
    } else {
        i
    }
}

/// End of `s[lo..j]` with trailing white space removed.
pub open spec fn back_space(s: Seq<char>, lo: int, j: int) -> int
    decreases j - lo,
{
    if lo < j <= s.len() && is_space(s[j - 1]) {
        back_space(s, lo, j - 1)
    } else {
        j
    }
}

/// `s` with leading and trailing white space removed.
pub open spec fn trim_text(s: Seq<char>) -> Seq<char> {
    let a = skip_space(s, 0);
    s.subrange(a, back_space(s, a, s.len() as int))
}

/// The text of a field value: decoded, then trimmed of white space.
pub open spec fn value_text(b: Seq<u8>) -> Seq<char> {
    trim_text(text_of(b))
}

pub open spec fn opt_text(o: Option<Seq<u8>>) -> Option<Seq<char>> {
    match o {
        Some(b) => Some(value_text(b)),
        None => None,
    }
}

/// Texts joined with line feeds.
pub open spec fn join_text(d: Seq<Seq<char>>) -> Seq<char>
    decreases d.len(),
{
    if d.len() == 0 {
        Seq::empty()
    } else if d.len() == 1 {
        d[0]
    } else {
        join_text(d.drop_last()) + seq!['\n'] + d.last()
    }
}

/// The data values of an event as text.
pub open spec fn data_texts(d: Seq<Seq<u8>>) -> Seq<Seq<char>> {
    d.map_values(|b: Seq<u8>| value_text(b))
}

pub open spec fn decoded(m: EventBytes) -> EventText {
    (opt_text(m.0), join_text(data_texts(m.1)), opt_text(m.2))
}

pub open spec fn opt_str(o: Option<String>) -> Option<Seq<char>> {
    match o {
        Some(s) => Some(s@),
        None => None,
    }
}

impl SseEvent {
    pub open spec fn text(&self) -> EventText {
        (opt_str(self.event), self.data@, opt_str(self.id))
    }
}

/// Index of the first line feed at or after `i`.
pub open spec fn newline_from(b: Seq<u8>, i: int) -> Option<int>
    decreases b.len() - i,
{
    if i < 0 || i >= b.len() {
        None
    } else if b[i] == 10 {
        Some(i)
    } else {
        newline_from(b, i + 1)
    }
}

/// The lines of `b` from `start` on; a final line feed opens no new line.
pub open spec fn lines_from(b: Seq<u8>, start: int) -> Seq<Seq<u8>>
    decreases b.len() - start,
{
    if start < 0 || start >= b.len() {
        Seq::empty()
    } else {
        match newline_from(b, start) {
            Some(k) => if start <= k < b.len() {
                seq![b.subrange(start, k)] + lines_from(b, k + 1)
            } else {
                Seq::empty()
            },
            None => seq![b.subrange(start, b.len() as int)],
        }
    }
}

pub open spec fn has_prefix(l: Seq<u8>, p: Seq<u8>) -> bool {
    p.len() <= l.len() && l.subrange(0, p.len() as int) == p
}

pub open spec fn event_tag() -> Seq<u8> {
    seq![101u8, 118, 101, 110, 116, 58]
}

pub open spec fn data_tag() -> Seq<u8> {
    seq![100u8, 97, 116, 97, 58]
}

pub open spec fn id_tag() -> Seq<u8> {
    seq![105u8, 100, 58]
}

/// The raw value after prefix `p`.
pub open spec fn field_value(l: Seq<u8>, p: Seq<u8>) -> Seq<u8> {
    l.subrange(p.len() as int, l.len() as int)
}

/// The fields of a block's lines: last event name, data values in order,
/// last id. Lines with other prefixes are ignored.
pub open spec fn block_fields(lines: Seq<Seq<u8>>) -> (Option<Seq<u8>>, Seq<Seq<u8>>, Option<Seq<u8>>)
    decreases lines.len(),
{
    if lines.len() == 0 {
        (None, Seq::empty(), None)
    } else {
        let (e, d, i) = block_fields(lines.drop_last());
        let l = lines.last();
        if has_prefix(l, event_tag()) {
            (Some(field_value(l, event_tag())), d, i)
        } else if has_prefix(l, data_tag()) {
            (e, d.push(field_value(l, data_tag())), i)
        } else if has_prefix(l, id_tag()) {
            (e, d, Some(field_value(l, id_tag())))
        } else {
            (e, d, i)
        }
    }
}

/// The event one block yields; none when it has no data line.
pub open spec fn parse_block(block: Seq<u8>) -> Option<EventBytes> {
    let (e, d, i) = block_fields(lines_from(block, 0));
    if d.len() == 0 {
        None
    } else {
        Some((e, d, i))
    }
}

/// Index of the first blank-line terminator (two line feeds) at or after `i`.
pub open spec fn term_from(b: Seq<u8>, i: int) -> Option<int>
    decreases b.len() - i,
{
    if i < 0 || i + 1 >= b.len() {
        None
    } else if b[i] == 10 && b[i + 1] == 10 {
        Some(i)
    } else {
        term_from(b, i + 1)
    }
}

/// The events of every complete block of `buf`, in order, and the bytes
/// left over after the last terminator.
pub open spec fn drain(buf: Seq<u8>) -> (Seq<EventBytes>, Seq<u8>)
    decreases buf.len(),
{
    match term_from(buf, 0) {
        Some(p) => if 0 <= p && p + 2 <= buf.len() {
            let (evs, rest) = drain(buf.subrange(p + 2, buf.len() as int));
            match parse_block(buf.subrange(0, p)) {
                Some(m) => (seq![m] + evs, rest),
                None => (evs, rest),
            }
        } else {
            (Seq::empty(), buf)
        },
        None => (Seq::empty(), buf),
    }
}

pub open spec fn bytes_list(v: Seq<Vec<u8>>) -> Seq<Seq<u8>> {
    v.map_values(|x: Vec<u8>| x@)
}

pub open spec fn opt_bytes(o: Option<Vec<u8>>) -> Option<Seq<u8>> {
    match o {
        Some(v) => Some(v@),
        None => None,
    }
}

/// A copy of `b[from..to]`.
fn copy_range(b: &[u8], from: usize, to: usize) -> (r: Vec<u8>)
    requires
        from <= to <= b@.len(),
    ensures
        r@ == b@.subrange(from as int, to as int),
{
    let mut out: Vec<u8> = Vec::new();
    let mut i: usize = from;
    while i < to
        invariant
            from <= i <= to,
            to <= b@.len(),
            out@ == b@.subrange(from as int, i as int),
        decreases to - i,
    {
        out.push(b[i]);
        assert(b@.subrange(from as int, i + 1) == b@.subrange(from as int, i as int).push(b@[i as int]));
        i = i + 1;
    }
    out
}

/// Whether `l` starts with `p`.
fn starts_with(l: &[u8], p: &[u8]) -> (r: bool)
    ensures
        r == has_prefix(l@, p@),
{
    if p.len() > l.len() {
        return false;
    }
    let mut i: usize = 0;
    while i < p.len()
        invariant
            p@.len() <= l@.len(),
            i <= p@.len(),
            l@.subrange(0, i as int) == p@.subrange(0, i as int),
        decreases p@.len() - i,
    {
        if l[i] != p[i] {
            assert(l@.subrange(0, p@.len() as int)[i as int] != p@[i as int]);
            return false;
        }
        assert(l@.subrange(0, i + 1) == l@.subrange(0, i as int).push(l@[i as int]));
        assert(p@.subrange(0, i + 1) == p@.subrange(0, i as int).push(p@[i as int]));
        i = i + 1;
    }
    assert(p@.subrange(0, p@.len() as int) == p@);
    true
}

fn event_prefix() -> (r: Vec<u8>)
    ensures
        r@ == event_tag(),
{
    let r = vec![101u8, 118, 101, 110, 116, 58];
    assert(r@ == event_tag());
    r
}

fn data_prefix() -> (r: Vec<u8>)
    ensures
        r@ == data_tag(),
{
    let r = vec![100u8, 97, 116, 97, 58];
    assert(r@ == data_tag());
    r
}

fn id_prefix() -> (r: Vec<u8>)
    ensures
        r@ == id_tag(),
{
    let r = vec![105u8, 100, 58];
    assert(r@ == id_tag());
    r
}

/// The lines of a block.
fn split_lines(b: &[u8]) -> (r: Vec<Vec<u8>>)
    ensures
        bytes_list(r@) == lines_from(b@, 0),
{
    let n = b.len();
    let mut out: Vec<Vec<u8>> = Vec::new();
    let mut start: usize = 0;
    while start < n
        invariant
            n == b@.len(),
            start <= n,
            lines_from(b@, 0) == bytes_list(out@) + lines_from(b@, start as int),
        decreases n - start,
    {
        let mut j: usize = start;
        while j < n && b[j] != 10
            invariant
                n == b@.len(),
                start <= j <= n,
                newline_from(b@, start as int) == newline_from(b@, j as int),
            decreases n - j,
        {
            j = j + 1;
        }
        let line = copy_range(b, start, j);
        let ghost before = out@;
        out.push(line);
        assert(bytes_list(out@) == bytes_list(before).push(b@.subrange(start as int, j as int)));
        if j < n {
            assert(lines_from(b@, start as int) == seq![b@.subrange(start as int, j as int)]
                + lines_from(b@, j + 1));
            start = j + 1;
        } else {
            assert(lines_from(b@, start as int) == seq![b@.subrange(start as int, j as int)]);
            assert(lines_from(b@, n as int) == Seq::<Seq<u8>>::empty());
            start = n;
        }
    }
    assert(lines_from(b@, start as int) == Seq::<Seq<u8>>::empty());
    out
}

/// The raw value of `line` after its first `skip` bytes.
fn value_after(line: &Vec<u8>, skip: usize) -> (r: Vec<u8>)
    requires
        skip <= line@.len(),
    ensures
        r@ == line@.subrange(skip as int, line@.len() as int),
{
    copy_range(line.as_slice(), skip, line.len())
}

fn is_space_char(c: char) -> (r: bool)
    ensures
        r == is_space(c),
{
    let v = c as u32;
    (9 <= v && v <= 13) || v == 32 || v == 0x85 || v == 0xA0 || v == 0x1680 || (0x2000 <= v && v
        <= 0x200A) || v == 0x2028 || v == 0x2029 || v == 0x202F || v == 0x205F || v == 0x3000
}

/// `s` without leading and trailing white space.
fn trim_str(s: &str) -> (r: String)
    ensures
        r@ == trim_text(s@),
{
    let n = s.unicode_len();
    let mut a: usize = 0;
    while a < n && is_space_char(s.get_char(a))
        invariant
            n == s@.len(),
            a <= n,
            skip_space(s@, 0) == skip_space(s@, a as int),
        decreases n - a,
    {
        a = a + 1;
    }
    let mut e: usize = n;
    while e > a && is_space_char(s.get_char(e - 1))
        invariant
            n == s@.len(),
            a <= e <= n,
            a == skip_space(s@, 0),
            back_space(s@, a as int, n as int) == back_space(s@, a as int, e as int),
        decreases e - a,
    {
        e = e - 1;
    }
    String::from_str(s.substring_char(a, e))
}

/// The text of a field value.
fn decode_value(b: &[u8]) -> (r: String)
    ensures
        r@ == value_text(b@),
{
    let t = utf8_lossy(b);
    trim_str(t.as_str())
}

/// Data values as text, joined with line feeds.
fn join_data(d: &Vec<Vec<u8>>) -> (r: String)
    ensures
        r@ == join_text(data_texts(bytes_list(d@))),
{
    let ghost all = data_texts(bytes_list(d@));
    let mut out = String::new();
    let mut k: usize = 0;
    while k < d.len()
        invariant
            k <= d@.len(),
            all == data_texts(bytes_list(d@)),
            all.len() == d@.len(),
            out@ == join_text(all.subrange(0, k as int)),
        decreases d@.len() - k,
    {
        proof {
            reveal_strlit("\n");
        }
        let ghost prev = all.subrange(0, k as int);
        let ghost next = all.subrange(0, k + 1);
        assert(next.drop_last() == prev);
        if k > 0 {
            out.append("\n");
        }
        let v = decode_value(d[k].as_slice());
        assert(v@ == all[k as int]);
        out.append(v.as_str());
        if k == 0 {
            assert(out@ =~= next[0]);
        } else {
            assert(out@ =~= join_text(prev) + seq!['\n'] + next.last());
        }
        k = k + 1;
    }
    assert(all.subrange(0, d@.len() as int) == all);
    out
}

fn decode_opt(o: &Option<Vec<u8>>) -> (r: Option<String>)
    ensures
        opt_str(r) == opt_text(opt_bytes(*o)),
{
    match o {
        Some(v) => Some(decode_value(v.as_slice())),
        None => None,
    }
}

/// The wire-level event a buffered block yields, if any.
pub open spec fn block_event(block: Seq<u8>) -> Option<EventText> {
    match parse_block(block) {
        Some(m) => Some(decoded(m)),
        None => None,
    }
}

pub open spec fn event_text(r: Option<SseEvent>) -> Option<EventText> {
    match r {
        Some(e) => Some(e.text()),
        None => None,
    }
}

/// The events of a sequence of raw events, decoded.
pub open spec fn decoded_all(ms: Seq<EventBytes>) -> Seq<EventText> {
    ms.map_values(|m: EventBytes| decoded(m))
}

pub open spec fn texts(es: Seq<SseEvent>) -> Seq<EventText> {
    es.map_values(|e: SseEvent| e.text())
}

/// The buffered-byte state of a parser.
pub struct SseParser {
    buffer: Vec<u8>,
}

impl View for SseParser {
    type V = Seq<u8>;

    closed spec fn view(&self) -> Seq<u8> {
        self.buffer@
    }
}

impl SseParser {
    pub fn new() -> (r: Self)
        ensures
            r@ == Seq::<u8>::empty(),
    {
        SseParser { buffer: Vec::new() }
    }

    /// Parses one event block: `event:` and `id:` lines set those fields
    /// (the last one wins), `data:` lines are collected in order and joined
    /// with line feeds, other lines are ignored. Each value is the text after
    /// its prefix, trimmed of Unicode white space at both ends. A block
    /// without a `data:` line yields no event.
    pub fn parse_event(block: &[u8]) -> (r: Option<SseEvent>)
        ensures
            event_text(r) == block_event(block@),
    {
        let lines = split_lines(block);
        let ep = event_prefix();
        let dp = data_prefix();
        let ip = id_prefix();
        let mut event: Option<Vec<u8>> = None;
        let mut data: Vec<Vec<u8>> = Vec::new();
        let mut id: Option<Vec<u8>> = None;
        let mut k: usize = 0;
        while k < lines.len()
            invariant
                k <= lines@.len(),
                bytes_list(lines@) == lines_from(block@, 0),
                ep@ == event_tag(),
                dp@ == data_tag(),
                ip@ == id_tag(),
                (opt_bytes(event), bytes_list(data@), opt_bytes(id)) == block_fields(
                    bytes_list(lines@).subrange(0, k as int),
                ),
            decreases lines@.len() - k,
        {
            let ghost sub = bytes_list(lines@).subrange(0, k + 1);
            assert(sub.drop_last() == bytes_list(lines@).subrange(0, k as int));
            assert(sub.last() == lines@[k as int]@);
            let line = &lines[k];
            if starts_with(line.as_slice(), ep.as_slice()) {
                event = Some(value_after(line, ep.len()));
            } else if starts_with(line.as_slice(), dp.as_slice()) {
                let v = value_after(line, dp.len());
                let ghost before = data@;
                data.push(v);
                assert(bytes_list(data@) == bytes_list(before).push(v@));
            } else if starts_with(line.as_slice(), ip.as_slice()) {
                id = Some(value_after(line, ip.len()));
            }
            k = k + 1;
        }
        assert(bytes_list(lines@).subrange(0, lines@.len() as int) == bytes_list(lines@));
        if data.len() == 0 {
            return None;
        }
        let joined = join_data(&data);
        Some(SseEvent { event: decode_opt(&event), data: joined, id: decode_opt(&id) })
    }

    /// Appends a chunk and returns the events of every block the buffer now
    /// completes, in order; the bytes after the last terminator stay buffered.
    pub fn feed(&mut self, chunk: &[u8]) -> (r: Vec<SseEvent>)
        ensures
            final(self)@ == drain(old(self)@ + chunk@).1,
            texts(r@) == decoded_all(drain(old(self)@ + chunk@).0),
    {
        self.buffer.extend_from_slice(chunk);
        let ghost total = self.buffer@;
        let mut events: Vec<SseEvent> = Vec::new();
        loop
            invariant
                total == old(self)@ + chunk@,
                drain(total).1 == drain(self.buffer@).1,
                decoded_all(drain(total).0) == texts(events@) + decoded_all(drain(self.buffer@).0),
            decreases self.buffer@.len(),
        {
            let found = find_terminator(self.buffer.as_slice());
            match found {
                None => {
                    assert(drain(self.buffer@) == (Seq::<EventBytes>::empty(), self.buffer@));
                    assert(texts(events@) + decoded_all(Seq::<EventBytes>::empty()) == texts(events@));
                    assert(self@ == self.buffer@);
                    return events;
                },
                Some(p) => {
                    let ghost buf = self.buffer@;
                    assert(p + 2 <= self.buffer@.len());
                    let block = copy_range(self.buffer.as_slice(), 0, p);
                    let end = self.buffer.len();
                    let rest = copy_range(self.buffer.as_slice(), p + 2, end);
                    self.buffer = rest;
                    let ghost tail = drain(self.buffer@);
                    if let Some(ev) = Self::parse_event(block.as_slice()) {
                        let ghost m = parse_block(block@).unwrap();
                        assert(drain(buf).0 == seq![m] + tail.0);
                        assert(decoded_all(seq![m] + tail.0) == seq![decoded(m)] + decoded_all(tail.0));
                        let ghost before = events@;
                        events.push(ev);
                        assert(texts(events@) == texts(before).push(ev.text()));
                    } else {
                        assert(drain(buf).0 == tail.0);
                    }
                },
            }
        }
    }
}

impl Default for SseParser {
    fn default() -> (r: Self)
        ensures
            r@ == Seq::<u8>::empty(),
    {
        Self::new()
    }
}

/// Index of the first blank-line terminator in `b`.
fn find_terminator(b: &[u8]) -> (r: Option<usize>)
    ensures
        match r {
            Some(p) => term_from(b@, 0) == Some(p as int) && p + 2 <= b@.len(),
            None => term_from(b@, 0) is None,
        },
{
    let n = b.len();
    let mut i: usize = 0;
    while n > 0 && i < n - 1
        invariant
            n == b@.len(),
            term_from(b@, 0) == term_from(b@, i as int),
        decreases n - i,
    {
        if b[i] == 10 && b[i + 1] == 10 {
            return Some(i);
        }
        i = i + 1;
    }
    None
}

proof fn lemma_term_from_append(buf: Seq<u8>, b: Seq<u8>, i: int)
    requires
        0 <= i,
        term_from(buf, i) is Some,
    ensures
        term_from(buf + b, i) == term_from(buf, i),
    decreases buf.len() - i,
{
    if i + 1 < buf.len() {
        assert((buf + b)[i] == buf[i]);
        assert((buf + b)[i + 1] == buf[i + 1]);
        if !(buf[i] == 10 && buf[i + 1] == 10) {
            lemma_term_from_append(buf, b, i + 1);
        }
    }
}

proof fn lemma_drain_append(buf: Seq<u8>, b: Seq<u8>)
    ensures
        drain(buf + b) == (drain(buf).0 + drain(drain(buf).1 + b).0, drain(drain(buf).1 + b).1),
    decreases buf.len(),
{
    match term_from(buf, 0) {
        Some(p) => {
            lemma_term_from_append(buf, b, 0);
            if 0 <= p && p + 2 <= buf.len() {
                let tail = buf.subrange(p + 2, buf.len() as int);
                assert((buf + b).subrange(p + 2, (buf + b).len() as int) =~= tail + b);
                assert((buf + b).subrange(0, p) =~= buf.subrange(0, p));
                lemma_drain_append(tail, b);
                let d = drain(tail);
                let e = drain(d.1 + b);
                match parse_block(buf.subrange(0, p)) {
                    Some(m) => {
                        assert(seq![m] + (d.0 + e.0) =~= (seq![m] + d.0) + e.0);
                    },
                    None => {},
                }
            } else {
                assert(drain(buf) == (Seq::<EventBytes>::empty(), buf));
                assert(Seq::<EventBytes>::empty() + drain(buf + b).0 =~= drain(buf + b).0);
            }
        },
        None => {
            assert(Seq::<EventBytes>::empty() + drain(buf + b).0 =~= drain(buf + b).0);
        },
    }
}

/// Chunk boundaries do not matter: feeding `a` and then `b` yields, in
/// order, the events of feeding `a + b` at once, and leaves the same bytes
/// buffered.
pub proof fn lemma_feed_split(pending: Seq<u8>, a: Seq<u8>, b: Seq<u8>)
    ensures
        drain(drain(pending + a).1 + b).1 == drain(pending + (a + b)).1,
        decoded_all(drain(pending + a).0) + decoded_all(drain(drain(pending + a).1 + b).0)
            == decoded_all(drain(pending + (a + b)).0),
{
    assert(pending + (a + b) =~= (pending + a) + b);
    lemma_drain_append(pending + a, b);
    let x = drain(pending + a).0;
    let y = drain(drain(pending + a).1 + b).0;
    assert(decoded_all(x + y) =~= decoded_all(x) + decoded_all(y));
}

} // verus!
