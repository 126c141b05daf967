//! The Server-Sent-Events wire grammar: records are separated by a blank
//! line, a record's `data:` lines are joined by newlines into one payload,
//! and a record with no `data:` line yields nothing. Other fields, the
//! `event:` name among them, are read past and not forwarded: consumers get
//! the data content verbatim and parse it themselves.
//!
//! The parser accumulates bytes across arbitrarily chunked network reads;
//! `lemma_rechunking` shows that the chunk division never changes the
//! extracted payloads.

use vstd::prelude::*;

verus! {

/// A frame boundary: two consecutive line feeds at position `i`.
pub open spec fn sep_at(s: Seq<u8>, i: int) -> bool {
    0 <= i && i + 1 < s.len() && s[i] == 10 && s[i + 1] == 10
}

/// The position of the first frame boundary of `s`, if there is one.
pub open spec fn find_sep(s: Seq<u8>) -> Option<int>
    decreases s.len(),
{
    if s.len() < 2 {
        None
    } else if s[0] == 10 && s[1] == 10 {
        Some(0)
    } else {
        match find_sep(s.skip(1)) {
            None => None,
            Some(i) => Some(i + 1),
        }
    }
}

/// `find_sep` returns the least boundary position, or `None` when `s` holds
/// no boundary at all.
pub proof fn lemma_find_sep_spec(s: Seq<u8>)
    ensures
        match find_sep(s) {
            Some(i) => sep_at(s, i) && forall|j: int| 0 <= j < i ==> !sep_at(s, j),
            None => forall|j: int| !sep_at(s, j),
        },
    decreases s.len(),
{
    if s.len() < 2 {
    } else if s[0] == 10 && s[1] == 10 {
    } else {
        lemma_find_sep_spec(s.skip(1));
        assert forall|j: int| 1 <= j implies sep_at(s, j) == sep_at(s.skip(1), j - 1) by {
            assert(j < s.len() ==> s.skip(1)[j - 1] == s[j]);
            assert(j + 1 < s.len() ==> s.skip(1)[j] == s[j + 1]);
        }
        match find_sep(s.skip(1)) {
            None => {
                assert forall|j: int| !sep_at(s, j) by {
                    if 1 <= j {
                        assert(!sep_at(s.skip(1), j - 1));
                    }
                }
            },
            Some(i) => {
                assert(sep_at(s.skip(1), i));
                assert(sep_at(s, i + 1));
                assert forall|j: int| 0 <= j < i + 1 implies !sep_at(s, j) by {
                    if 1 <= j {
                        assert(!sep_at(s.skip(1), j - 1));
                    }
                }
            },
        }
    }
}

/// Converse direction: a least boundary position determines `find_sep`.
pub proof fn lemma_find_sep_of(s: Seq<u8>, i: int)
    requires
        sep_at(s, i),
        forall|j: int| 0 <= j < i ==> !sep_at(s, j),
    ensures
        find_sep(s) == Some(i),
{
    lemma_find_sep_spec(s);
    match find_sep(s) {
        None => {
            assert(!sep_at(s, i));
        },
        Some(k) => {
            if k < i {
                assert(!sep_at(s, k));
            }
            if i < k {
                assert(!sep_at(s, i));
            }
        },
    }
}

/// A copy of `v[a..b]`.
pub fn subvec(v: &Vec<u8>, a: usize, b: usize) -> (r: Vec<u8>)
    requires
        a <= b <= v@.len(),
    ensures
        r@ == v@.subrange(a as int, b as int),
{
    let mut r: Vec<u8> = Vec::new();
    let mut i: usize = a;
    while i < b
        invariant
            a <= i <= b <= v@.len(),
            r@ == v@.subrange(a as int, i as int),
        decreases b - i,
    {
        r.push(v[i]);
        i = i + 1;
        assert(r@ =~= v@.subrange(a as int, i as int));
    }
    r
}

/// Scans for the first frame boundary.
fn find_sep_exec(v: &Vec<u8>) -> (r: Option<usize>)
    ensures
        match r {
            Some(i) => find_sep(v@) == Some(i as int) && i + 1 < v@.len(),
            None => find_sep(v@) is None,
        },
{
    let n = v.len();
    let mut i: usize = 0;
    let mut found: bool = false;
    loop
        invariant_except_break
            !found,
        invariant
            i <= n,
            n == v@.len(),
            forall|j: int| 0 <= j < i ==> !sep_at(v@, j),
        ensures
            found ==> find_sep(v@) == Some(i as int) && i as int + 1 < v@.len(),
            !found ==> find_sep(v@) is None,
        decreases n - i,
    {
        if n < 2 || i >= n - 1 {
            proof {
                lemma_find_sep_spec(v@);
                assert forall|j: int| !sep_at(v@, j) by {
                    if i <= j {
                        assert(j + 1 >= n);
                    }
                }
                if find_sep(v@) is Some {
                    assert(sep_at(v@, find_sep(v@)->0));
                }
            }
            break;
        }
        if v[i] == 10 && v[i + 1] == 10 {
            found = true;
            proof {
                lemma_find_sep_of(v@, i as int);
            }
            break;
        }
        i = i + 1;
    }
    if found {
        Some(i)
    } else {
        None
    }
}

/// A line feed at position `i`.
pub open spec fn lf_at(s: Seq<u8>, i: int) -> bool {
    0 <= i < s.len() && s[i] == 10
}

/// The position of the first line feed of `s`, if there is one.
pub open spec fn find_lf(s: Seq<u8>) -> Option<int>
    decreases s.len(),
{
    if s.len() == 0 {
        None
    } else if s[0] == 10 {
        Some(0)
    } else {
        match find_lf(s.skip(1)) {
            None => None,
            Some(i) => Some(i + 1),
        }
    }
}

/// `find_lf` returns the least line-feed position, or `None` when `s` holds
/// no line feed at all.
pub proof fn lemma_find_lf_spec(s: Seq<u8>)
    ensures
        match find_lf(s) {
            Some(i) => lf_at(s, i) && forall|j: int| 0 <= j < i ==> !lf_at(s, j),
            None => forall|j: int| !lf_at(s, j),
        },
    decreases s.len(),
{
    if s.len() == 0 {
    } else if s[0] == 10 {
    } else {
        lemma_find_lf_spec(s.skip(1));
        assert forall|j: int| 1 <= j implies lf_at(s, j) == lf_at(s.skip(1), j - 1) by {
            assert(j < s.len() ==> s.skip(1)[j - 1] == s[j]);
        }
        match find_lf(s.skip(1)) {
            None => {
                assert forall|j: int| !lf_at(s, j) by {
                    if 1 <= j {
                        assert(!lf_at(s.skip(1), j - 1));
                    }
                }
            },
            Some(i) => {
                assert(lf_at(s.skip(1), i));
                assert(lf_at(s, i + 1));
                assert forall|j: int| 0 <= j < i + 1 implies !lf_at(s, j) by {
                    if 1 <= j {
                        assert(!lf_at(s.skip(1), j - 1));
                    }
                }
            },
        }
    }
}

/// Converse direction: a least line-feed position determines `find_lf`.
pub proof fn lemma_find_lf_of(s: Seq<u8>, i: int)
    requires
        lf_at(s, i),
        forall|j: int| 0 <= j < i ==> !lf_at(s, j),
    ensures
        find_lf(s) == Some(i),
{
    lemma_find_lf_spec(s);
    match find_lf(s) {
        None => {
            assert(!lf_at(s, i));
        },
        Some(k) => {
            if k < i {
                assert(!lf_at(s, k));
            }
            if i < k {
                assert(!lf_at(s, i));
            }
        },
    }
}

/// Scans for the first line feed.
fn find_lf_exec(v: &Vec<u8>) -> (r: Option<usize>)
    ensures
        match r {
            Some(i) => find_lf(v@) == Some(i as int) && i < v@.len(),
            None => find_lf(v@) is None,
        },
{
    let n = v.len();
    let mut i: usize = 0;
    let mut found: bool = false;
    loop
        invariant_except_break
            !found,
        invariant
            i <= n,
            n == v@.len(),
            forall|j: int| 0 <= j < i ==> !lf_at(v@, j),
        ensures
            found ==> find_lf(v@) == Some(i as int) && (i as int) < v@.len(),
            !found ==> find_lf(v@) is None,
        decreases n - i,
    {
        if i >= n {
            proof {
                lemma_find_lf_spec(v@);
                if find_lf(v@) is Some {
                    assert(lf_at(v@, find_lf(v@)->0));
                }
            }
            break;
        }
        if v[i] == 10 {
            found = true;
            proof {
                lemma_find_lf_of(v@, i as int);
            }
            break;
        }
        i = i + 1;
    }
    if found {
        Some(i)
    } else {
        None
    }
}

/// ASCII whitespace, as trimmed from the front of a data field.
pub open spec fn is_ws(b: u8) -> bool {
    b == 32 || b == 9 || b == 12 || b == 13
}

/// `l` with its leading whitespace dropped.
pub open spec fn trim_ws(l: Seq<u8>) -> Seq<u8>
    decreases l.len(),
{
    if l.len() > 0 && is_ws(l[0]) {
        trim_ws(l.skip(1))
    } else {
        l
    }
}

/// A line with any trailing carriage return dropped, so that streams with
/// CRLF line endings parse the same as plain ones.
pub open spec fn strip_cr(l: Seq<u8>) -> Seq<u8> {
    if l.len() > 0 && l[l.len() - 1] == 13 {
        l.take(l.len() - 1)
    } else {
        l
    }
}

/// The bytes spelling "data:".
pub open spec fn data_tag() -> Seq<u8> {
    seq![100u8, 97u8, 116u8, 97u8, 58u8]
}

/// The field carried by one data line: the bytes after the "data:" tag with
/// leading whitespace trimmed, or nothing when the line is no data line.
pub open spec fn line_data(l: Seq<u8>) -> Option<Seq<u8>> {
    let c = strip_cr(l);
    if c.len() >= 5 && c.subrange(0, 5) == data_tag() {
        Some(trim_ws(c.skip(5)))
    } else {
        None
    }
}

/// Zero or one data fields, as a sequence.
pub open spec fn opt_datas(d: Option<Seq<u8>>) -> Seq<Seq<u8>> {
    match d {
        Some(p) => seq![p],
        None => Seq::<Seq<u8>>::empty(),
    }
}

/// The data fields of all data lines of a frame, in order.
pub open spec fn frame_datas(f: Seq<u8>) -> Seq<Seq<u8>>
    decreases f.len(),
{
    match find_lf(f) {
        None => opt_datas(line_data(f)),
        Some(i) => if 0 <= i && i < f.len() {
            opt_datas(line_data(f.subrange(0, i))) + frame_datas(f.skip(i + 1))
        } else {
            opt_datas(line_data(f))
        },
    }
}

/// Data fields joined by single newlines.
pub open spec fn join_nl(ds: Seq<Seq<u8>>) -> Seq<u8>
    decreases ds.len(),
{
    if ds.len() == 0 {
        Seq::<u8>::empty()
    } else if ds.len() == 1 {
        ds[0]
    } else {
        ds[0] + seq![10u8] + join_nl(ds.skip(1))
    }
}

/// The payload a frame emits: its joined data fields, or nothing when the
/// frame has no data line.
pub open spec fn frame_payload(f: Seq<u8>) -> Option<Seq<u8>> {
    if frame_datas(f).len() == 0 {
        None
    } else {
        Some(join_nl(frame_datas(f)))
    }
}

/// The event payloads of one frame: one payload, or none.
pub open spec fn frame_events(f: Seq<u8>) -> Seq<Seq<u8>> {
    opt_datas(frame_payload(f))
}

fn is_ws_exec(b: u8) -> (r: bool)
    ensures
        r == is_ws(b),
{
    b == 32 || b == 9 || b == 12 || b == 13
}

/// Parses one line of a frame, as `line_data` describes.
fn line_data_exec(l: &Vec<u8>) -> (r: Option<Vec<u8>>)
    ensures
        r is Some <==> line_data(l@) is Some,
        r is Some ==> r->0@ == line_data(l@)->0,
{
    let mut m = l.len();
    if m > 0 && l[m - 1] == 13 {
        m = m - 1;
    }
    proof {
        assert(strip_cr(l@) =~= l@.subrange(0, m as int));
    }
    if m < 5 {
        return None;
    }
    if !(l[0] == 100 && l[1] == 97 && l[2] == 116 && l[3] == 97 && l[4] == 58) {
        proof {
            let c = strip_cr(l@);
            if c.subrange(0, 5) == data_tag() {
                assert(c[0] == 100 && c[1] == 97 && c[2] == 116 && c[3] == 97 && c[4] == 58) by {
                    assert(c.subrange(0, 5)[0] == c[0]);
                    assert(c.subrange(0, 5)[1] == c[1]);
                    assert(c.subrange(0, 5)[2] == c[2]);
                    assert(c.subrange(0, 5)[3] == c[3]);
                    assert(c.subrange(0, 5)[4] == c[4]);
                }
            }
        }
        return None;
    }
    proof {
        assert(strip_cr(l@).subrange(0, 5) =~= data_tag());
    }
    let ghost c = strip_cr(l@);
    let mut t: usize = 5;
    while t < m && is_ws_exec(l[t])
        invariant
            5 <= t <= m <= l@.len(),
            c == strip_cr(l@),
            c == l@.subrange(0, m as int),
            trim_ws(c.skip(5)) == trim_ws(c.skip(t as int)),
        decreases m - t,
    {
        proof {
            assert(c.skip(t as int)[0] == l@[t as int]);
            assert(c.skip(t as int).skip(1) =~= c.skip(t as int + 1));
        }
        t = t + 1;
    }
    proof {
        if t < m {
            assert(c.skip(t as int)[0] == l@[t as int]);
        }
        assert(trim_ws(c.skip(t as int)) == c.skip(t as int));
        assert(c.skip(t as int) =~= l@.subrange(t as int, m as int));
    }
    Some(subvec(l, t, m))
}

/// Collects the data fields of a frame, as `frame_datas` describes.
fn frame_datas_exec(f: &Vec<u8>) -> (r: Vec<Vec<u8>>)
    ensures
        r.deep_view() == frame_datas(f@),
    decreases f@.len(),
{
    let n = f.len();
    let mut r: Vec<Vec<u8>> = Vec::new();
    match find_lf_exec(f) {
        None => {
            match line_data_exec(f) {
                Some(d) => {
                    assert(d.deep_view() =~= d@);
                    r.push(d);
                    assert(r.deep_view() =~= opt_datas(line_data(f@)));
                },
                None => {
                    assert(r.deep_view() =~= opt_datas(line_data(f@)));
                },
            }
            r
        },
        Some(i) => {
            let head = subvec(f, 0, i);
            let tail = subvec(f, i + 1, n);
            match line_data_exec(&head) {
                Some(d) => {
                    assert(d.deep_view() =~= d@);
                    r.push(d);
                    assert(r.deep_view() =~= opt_datas(line_data(f@.subrange(0, i as int))));
                },
                None => {
                    assert(r.deep_view() =~= opt_datas(line_data(f@.subrange(0, i as int))));
                },
            }
            let ghost r0 = r.deep_view();
            let mut rest = frame_datas_exec(&tail);
            let ghost rest0 = rest.deep_view();
            r.append(&mut rest);
            proof {
                assert(tail@ =~= f@.skip(i as int + 1));
                assert(r.deep_view() =~= r0 + rest0);
            }
            r
        },
    }
}

/// Joins the data fields from `from` on with single newlines.
fn join_from(ds: &Vec<Vec<u8>>, from: usize) -> (r: Vec<u8>)
    requires
        from < ds@.len(),
    ensures
        r@ == join_nl(ds.deep_view().skip(from as int)),
    decreases ds@.len() - from,
{
    let n = ds.len();
    let first = &ds[from];
    let mut r = subvec(first, 0, first.len());
    proof {
        assert(r@ =~= ds.deep_view()[from as int]);
        assert(ds.deep_view().skip(from as int)[0] == ds.deep_view()[from as int]);
    }
    if from + 1 < n {
        r.push(10);
        let mut rest = join_from(ds, from + 1);
        let ghost r0 = r@;
        let ghost rest0 = rest@;
        r.append(&mut rest);
        proof {
            let dv = ds.deep_view();
            assert(dv.skip(from as int).skip(1) =~= dv.skip(from as int + 1));
            assert(dv.skip(from as int).len() >= 2);
            assert(r@ =~= dv.skip(from as int)[0] + seq![10u8] + join_nl(dv.skip(from as int + 1)));
        }
    } else {
        proof {
            assert(ds.deep_view().skip(from as int).len() == 1);
        }
    }
    r
}

/// Parses one complete frame, as `frame_payload` describes.
pub fn parse_frame(f: &Vec<u8>) -> (r: Option<Vec<u8>>)
    ensures
        r is Some <==> frame_payload(f@) is Some,
        r is Some ==> r->0@ == frame_payload(f@)->0,
{
    let ds = frame_datas_exec(f);
    if ds.len() == 0 {
        proof {
            assert(ds.deep_view().len() == 0);
        }
        None
    } else {
        proof {
            assert(ds.deep_view().len() == ds@.len());
            assert(ds.deep_view().skip(0) =~= ds.deep_view());
        }
        Some(join_from(&ds, 0))
    }
}

/// The event payloads of every complete frame at the front of `s`, paired
/// with the bytes left over after the last complete frame.
pub open spec fn drain(s: Seq<u8>) -> (Seq<Seq<u8>>, Seq<u8>)
    decreases s.len(),
{
    match find_sep(s) {
        None => (Seq::<Seq<u8>>::empty(), s),
        Some(i) => if 0 <= i && i + 2 <= s.len() {
            let rec = drain(s.skip(i + 2));
            (frame_events(s.subrange(0, i)) + rec.0, rec.1)
        } else {
            (Seq::<Seq<u8>>::empty(), s)
        },
    }
}

/// What remains in the buffer after draining never holds a frame boundary.
pub proof fn lemma_drain_rest_no_sep(s: Seq<u8>)
    ensures
        find_sep(drain(s).1) is None,
    decreases s.len(),
{
    match find_sep(s) {
        None => {},
        Some(i) => {
            lemma_find_sep_spec(s);
            lemma_drain_rest_no_sep(s.skip(i + 2));
        },
    }
}

/// An accumulating Server-Sent-Events parser. Bytes go in as they arrive
/// from the network, in chunks cut at arbitrary places; complete frames
/// come out as event payloads, and a trailing partial frame is kept for the
/// next chunk.
pub struct SseParser {
    buffer: Vec<u8>,
}

impl SseParser {
    /// The bytes received so far but not yet consumed by a complete frame.
    pub closed spec fn buf(self) -> Seq<u8> {
        self.buffer@
    }

    /// A parser holds no complete frame between calls.
    pub closed spec fn wf(self) -> bool {
        find_sep(self.buffer@) is None
    }

    /// A fresh parser, with an empty buffer.
    pub fn new() -> (r: SseParser)
        ensures
            r.buf() == Seq::<u8>::empty(),
            r.wf(),
    {
        SseParser { buffer: Vec::new() }
    }

    /// Empties the buffer, for a fresh connection attempt.
    pub fn reset(&mut self)
        ensures
            final(self).buf() == Seq::<u8>::empty(),
            final(self).wf(),
    {
        self.buffer.clear();
    }

    /// Appends one chunk of the byte stream and returns the payloads of all
    /// frames completed by it, in order.
    pub fn push_chunk(&mut self, chunk: &Vec<u8>) -> (evs: Vec<Vec<u8>>)
        ensures
            evs.deep_view() == drain(old(self).buf() + chunk@).0,
            final(self).buf() == drain(old(self).buf() + chunk@).1,
            final(self).wf(),
    {
        let ghost total = self.buffer@ + chunk@;
        let n = chunk.len();
        let mut k: usize = 0;
        while k < n
            invariant
                k <= n,
                n == chunk@.len(),
                self.buffer@ == old(self).buffer@ + chunk@.take(k as int),
            decreases n - k,
        {
            self.buffer.push(chunk[k]);
            k = k + 1;
            assert(self.buffer@ =~= old(self).buffer@ + chunk@.take(k as int));
        }
        assert(self.buffer@ =~= total);
        let mut evs: Vec<Vec<u8>> = Vec::new();
        loop
            invariant
                evs.deep_view() + drain(self.buffer@).0 =~= drain(total).0,
                drain(self.buffer@).1 == drain(total).1,
            ensures
                evs.deep_view() + drain(self.buffer@).0 =~= drain(total).0,
                drain(self.buffer@).1 == drain(total).1,
                find_sep(self.buffer@) is None,
            decreases self.buffer@.len(),
        {
            let ghost pre = self.buffer@;
            match find_sep_exec(&self.buffer) {
                None => {
                    break;
                },
                Some(i) => {
                    let blen = self.buffer.len();
                    assert(i + 2 <= blen);
                    let frame = subvec(&self.buffer, 0, i);
                    let tail = self.buffer.split_off(i + 2);
                    self.buffer = tail;
                    proof {
                        assert(frame@ =~= pre.subrange(0, i as int));
                        assert(self.buffer@ =~= pre.skip(i as int + 2));
                    }
                    let ghost evs0 = evs.deep_view();
                    match parse_frame(&frame) {
                        Some(p) => {
                            assert(p.deep_view() =~= p@);
                            evs.push(p);
                            assert(evs.deep_view() =~= evs0 + frame_events(frame@));
                        },
                        None => {
                            assert(evs.deep_view() =~= evs0 + frame_events(frame@));
                        },
                    }
                    proof {
                        assert(drain(pre).0 =~= frame_events(frame@) + drain(self.buffer@).0);
                        assert(evs.deep_view() + drain(self.buffer@).0 =~= drain(total).0);
                    }
                },
            }
        }
        proof {
            assert(drain(self.buffer@).0 =~= Seq::<Seq<u8>>::empty());
            assert(evs.deep_view() =~= drain(total).0);
        }
        evs
    }
}

/// Draining a stream one piece at a time loses nothing at the seam: the
/// events of `s + t` are the events of `s` followed by the events of what
/// `s` left over with `t` appended, and the leftovers agree too.
pub proof fn lemma_drain_append(s: Seq<u8>, t: Seq<u8>)
    ensures
        drain(s + t).0 == drain(s).0 + drain(drain(s).1 + t).0,
        drain(s + t).1 == drain(drain(s).1 + t).1,
    decreases s.len(),
{
    lemma_find_sep_spec(s);
    match find_sep(s) {
        None => {
            assert(drain(s).1 + t =~= s + t);
            assert(drain(s).0 + drain(s + t).0 =~= drain(s + t).0);
        },
        Some(i) => {
            assert(sep_at(s, i));
            assert(sep_at(s + t, i)) by {
                assert((s + t)[i] == s[i]);
                assert((s + t)[i + 1] == s[i + 1]);
            }
            assert forall|j: int| 0 <= j < i implies !sep_at(s + t, j) by {
                assert(!sep_at(s, j));
                assert((s + t)[j] == s[j]);
                assert((s + t)[j + 1] == s[j + 1]);
            }
            lemma_find_sep_of(s + t, i);
            assert((s + t).subrange(0, i) =~= s.subrange(0, i));
            assert((s + t).skip(i + 2) =~= s.skip(i + 2) + t);
            lemma_drain_append(s.skip(i + 2), t);
            assert(drain(s + t).0 =~= drain(s).0 + drain(drain(s).1 + t).0);
        },
    }
}

/// All chunks of `chunks`, concatenated.
pub open spec fn concat_all(chunks: Seq<Seq<u8>>) -> Seq<u8>
    decreases chunks.len(),
{
    if chunks.len() == 0 {
        Seq::<u8>::empty()
    } else {
        chunks[0] + concat_all(chunks.skip(1))
    }
}

/// The events and final leftover of feeding `chunks` one by one to a parser
/// whose buffer starts as `b`.
pub open spec fn drain_all(b: Seq<u8>, chunks: Seq<Seq<u8>>) -> (Seq<Seq<u8>>, Seq<u8>)
    decreases chunks.len(),
{
    if chunks.len() == 0 {
        (Seq::<Seq<u8>>::empty(), b)
    } else {
        let step = drain(b + chunks[0]);
        let rec = drain_all(step.1, chunks.skip(1));
        (step.0 + rec.0, rec.1)
    }
}

proof fn lemma_drain_all_concat(b: Seq<u8>, chunks: Seq<Seq<u8>>)
    requires
        find_sep(b) is None,
    ensures
        drain_all(b, chunks).0 == drain(b + concat_all(chunks)).0,
        drain_all(b, chunks).1 == drain(b + concat_all(chunks)).1,
    decreases chunks.len(),
{
    if chunks.len() == 0 {
        assert(b + concat_all(chunks) =~= b);
    } else {
        let head = b + chunks[0];
        lemma_drain_rest_no_sep(head);
        lemma_drain_all_concat(drain(head).1, chunks.skip(1));
        lemma_drain_append(head, concat_all(chunks.skip(1)));
        assert(b + concat_all(chunks) =~= head + concat_all(chunks.skip(1)));
        assert(drain_all(b, chunks).0 =~= drain(b + concat_all(chunks)).0);
    }
}

/// Chunking invariance: however a byte stream is cut into chunks, feeding
/// the chunks to a fresh parser yields exactly the events of the whole
/// stream, and leaves exactly the whole stream's trailing partial frame.
pub proof fn lemma_rechunking(chunks: Seq<Seq<u8>>)
    ensures
        drain_all(Seq::<u8>::empty(), chunks).0 == drain(concat_all(chunks)).0,
        drain_all(Seq::<u8>::empty(), chunks).1 == drain(concat_all(chunks)).1,
{
    lemma_drain_all_concat(Seq::<u8>::empty(), chunks);
    assert(Seq::<u8>::empty() + concat_all(chunks) =~= concat_all(chunks));
}

} // verus!
