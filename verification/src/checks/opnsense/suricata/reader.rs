//! Reading new EVE lines: splitting the bytes after the cursor into lines,
//! and counting the events that the parsed lines hold.
use vstd::prelude::*;

use super::eve::{
    is_blocked_spec, is_interesting_spec, opt_text, summary_spec, EventSummary, EventType,
    EveEvent,
};
use crate::text::{append_str, chars_of, string_of, trim_chars, trim_seq};

verus! {

/// What `String::from_utf8_lossy` makes of `bytes` (invalid sequences
/// replaced by U+FFFD); it depends on nothing but the bytes.
pub uninterp spec fn utf8_lossy(bytes: Seq<u8>) -> Seq<char>;

/// `String::from_utf8_lossy`, believed to give `utf8_lossy(bytes@)`.
#[verifier::external_body]
pub(crate) fn from_utf8_lossy(bytes: &[u8]) -> (r: String)
    ensures
        r@ == utf8_lossy(bytes@),
{
    String::from_utf8_lossy(bytes).into_owned()
}

/// The counts and summaries of the events read in one run.
pub struct CollectionResult {
    pub events: usize,
    pub alerts: usize,
    pub blocked: usize,
    pub parse_errors: usize,
    pub rotation_gap: bool,
    pub summaries: Vec<EventSummary>,
    pub last_timestamp: Option<String>,
    pub last_flow_id: Option<u64>,
}

pub struct CollectionView {
    pub events: nat,
    pub alerts: nat,
    pub blocked: nat,
    pub parse_errors: nat,
    pub rotation_gap: bool,
    pub summaries: Seq<(bool, Seq<char>)>,
    pub last_timestamp: Option<Seq<char>>,
    pub last_flow_id: Option<u64>,
}

impl View for CollectionResult {
    type V = CollectionView;

    open spec fn view(&self) -> CollectionView {
        CollectionView {
            events: self.events as nat,
            alerts: self.alerts as nat,
            blocked: self.blocked as nat,
            parse_errors: self.parse_errors as nat,
            rotation_gap: self.rotation_gap,
            summaries: self.summaries@.map_values(|s: EventSummary| (s.blocked, s.text@)),
            last_timestamp: opt_text(self.last_timestamp),
            last_flow_id: self.last_flow_id,
        }
    }
}

/// The counts agree with the summaries: one summary per event, and no more
/// alerts or blocked events than events.
pub open spec fn collection_wf(v: CollectionView) -> bool {
    &&& v.alerts <= v.events
    &&& v.blocked <= v.events
    &&& v.summaries.len() == v.events
}

/// The result after one more interesting event.
pub open spec fn push_event_spec(v: CollectionView, e: EveEvent) -> CollectionView {
    CollectionView {
        events: v.events + 1,
        alerts: if e.event_type == EventType::Alert {
            v.alerts + 1
        } else {
            v.alerts
        },
        blocked: if is_blocked_spec(e) {
            v.blocked + 1
        } else {
            v.blocked
        },
        summaries: v.summaries.push((is_blocked_spec(e), summary_spec(e))),
        last_timestamp: if e.timestamp is Some {
            opt_text(e.timestamp)
        } else {
            v.last_timestamp
        },
        last_flow_id: if e.flow_id is Some {
            e.flow_id
        } else {
            v.last_flow_id
        },
        ..v
    }
}

impl CollectionResult {
    pub fn new() -> (r: Self)
        ensures
            r@.events == 0 && r@.alerts == 0 && r@.blocked == 0 && r@.parse_errors == 0,
            !r@.rotation_gap,
            r@.summaries == Seq::<(bool, Seq<char>)>::empty(),
            r@.last_timestamp is None && r@.last_flow_id is None,
            collection_wf(r@),
    {
        let r = CollectionResult {
            events: 0,
            alerts: 0,
            blocked: 0,
            parse_errors: 0,
            rotation_gap: false,
            summaries: Vec::new(),
            last_timestamp: None,
            last_flow_id: None,
        };
        assert(r@.summaries =~= Seq::<(bool, Seq<char>)>::empty());
        r
    }

    /// Counts one event and keeps its summary, timestamp and flow id.
    pub fn push_event(&mut self, event: EveEvent)
        requires
            collection_wf(old(self)@),
            old(self).events < usize::MAX,
        ensures
            final(self)@ == push_event_spec(old(self)@, event),
            collection_wf(final(self)@),
    {
        self.events = self.events + 1;
        if event.event_type == EventType::Alert {
            self.alerts = self.alerts + 1;
        }
        let blocked = event.is_blocked();
        if blocked {
            self.blocked = self.blocked + 1;
        }
        let text = event.summary();
        self.summaries.push(EventSummary { blocked, text });
        if event.timestamp.is_some() {
            self.last_timestamp = event.timestamp;
        }
        if event.flow_id.is_some() {
            self.last_flow_id = event.flow_id;
        }
        proof {
            assert(self@.summaries =~= old(self)@.summaries.push(
                (is_blocked_spec(event), summary_spec(event)),
            ));
        }
    }
}

} // verus!

verus! {

/// The end (just past the `'\n'`) of the line that starts at `pos`, or the
/// end of the bytes when the line has no newline.
pub open spec fn line_end(content: Seq<u8>, pos: int) -> int
    decreases content.len() - pos,
{
    if pos < 0 || pos >= content.len() {
        content.len() as int
    } else if content[pos] == 10u8 {
        pos + 1
    } else {
        line_end(content, pos + 1)
    }
}

pub proof fn lemma_line_end(content: Seq<u8>, pos: int)
    requires
        0 <= pos < content.len(),
    ensures
        pos < line_end(content, pos) <= content.len(),
        forall|j: int| pos <= j < line_end(content, pos) - 1 ==> content[j] != 10u8,
        line_end(content, pos) < content.len() ==> content[line_end(content, pos) - 1] == 10u8,
        content[line_end(content, pos) - 1] != 10u8 ==> line_end(content, pos) == content.len(),
    decreases content.len() - pos,
{
    if content[pos] == 10u8 {
    } else if pos + 1 < content.len() {
        lemma_line_end(content, pos + 1);
    } else {
        assert(line_end(content, pos + 1) == content.len());
    }
}

/// The byte ranges of the lines that a run reads, starting at `pos` of the
/// bytes that follow the cursor `base`, in a file that was `len` bytes long:
/// every line up to its newline, and a last line without a newline only
/// when it ends before `len` (a line still being written is left for later).
pub open spec fn frame_bounds(content: Seq<u8>, pos: int, base: int, len: int) -> Seq<(int, int)>
    decreases content.len() - pos,
{
    if pos < 0 || pos >= content.len() {
        Seq::empty()
    } else {
        let e = line_end(content, pos);
        proof {
            lemma_line_end(content, pos);
        }
        if content[e - 1] != 10u8 && base + e >= len {
            Seq::empty()
        } else {
            seq![(pos, e)] + frame_bounds(content, e, base, len)
        }
    }
}

/// One line read from the log: where it starts and ends in the file, and its
/// text, decoded and trimmed.
pub struct LineFrame {
    pub start: u64,
    pub end: u64,
    pub text: String,
}

pub open spec fn frame_view(f: LineFrame) -> (int, int, Seq<char>) {
    (f.start as int, f.end as int, f.text@)
}

/// The lines that a run reads from `content`, the bytes after the cursor
/// `base` of a file that was `len` bytes long.
pub open spec fn frames_spec(content: Seq<u8>, base: int, len: int) -> Seq<(int, int, Seq<char>)> {
    frame_bounds(content, 0, base, len).map_values(|b: (int, int)| frame_of(content, base, b))
}

/// The line at byte range `b` of `content`: its place in the file and its
/// decoded, trimmed text.
pub open spec fn frame_of(content: Seq<u8>, base: int, b: (int, int)) -> (int, int, Seq<char>) {
    (base + b.0, base + b.1, trim_seq(utf8_lossy(content.subrange(b.0, b.1))))
}

proof fn lemma_frame_bounds_step(content: Seq<u8>, pos: int, base: int, len: int)
    requires
        0 <= pos < content.len(),
    ensures
        frame_bounds(content, pos, base, len) == (if content[line_end(content, pos) - 1] != 10u8
            && base + line_end(content, pos) >= len {
            Seq::<(int, int)>::empty()
        } else {
            seq![(pos, line_end(content, pos))] + frame_bounds(
                content,
                line_end(content, pos),
                base,
                len,
            )
        }),
{
}

fn sub_bytes(v: &[u8], from: usize, to: usize) -> (r: Vec<u8>)
    requires
        from <= to <= v.len(),
    ensures
        r@ == v@.subrange(from as int, to as int),
{
    let mut r: Vec<u8> = Vec::new();
    let mut i = from;
    while i < to
        invariant
            from <= i <= to <= v.len(),
            r@ == v@.subrange(from as int, i as int),
        decreases to - i,
    {
        r.push(v[i]);
        assert(v@.subrange(from as int, i + 1) == v@.subrange(from as int, i as int).push(
            v@[i as int],
        ));
        i = i + 1;
    }
    r
}

/// Splits the bytes that follow the cursor `start` into the lines a run reads.
pub fn frame_lines(content: &[u8], start: u64, len: u64) -> (r: Vec<LineFrame>)
    requires
        start + content.len() <= u64::MAX,
    ensures
        r@.map_values(|f: LineFrame| frame_view(f)) == frames_spec(
            content@,
            start as int,
            len as int,
        ),
{
    let ghost bounds = frame_bounds(content@, 0, start as int, len as int);
    let mut r: Vec<LineFrame> = Vec::new();
    let ghost mut done: Seq<(int, int)> = Seq::empty();
    let mut pos: usize = 0;
    while pos < content.len()
        invariant
            pos <= content.len(),
            start + content.len() <= u64::MAX,
            bounds == done + frame_bounds(content@, pos as int, start as int, len as int),
            r@.map_values(|x: LineFrame| frame_view(x)) == done.map_values(|b: (int, int)| frame_of(content@, start as int, b)),
        ensures
            bounds == done,
            r@.map_values(|x: LineFrame| frame_view(x)) == done.map_values(|b: (int, int)| frame_of(content@, start as int, b)),
        decreases content.len() - pos,
    {
        let mut e = pos;
        while e < content.len() && content[e] != 10u8
            invariant
                pos <= e <= content.len(),
                line_end(content@, pos as int) == line_end(content@, e as int),
            decreases content.len() - e,
        {
            e = e + 1;
        }
        if e < content.len() {
            e = e + 1;
        }
        proof {
            lemma_line_end(content@, pos as int);
            lemma_frame_bounds_step(content@, pos as int, start as int, len as int);
        }
        assert(e as int == line_end(content@, pos as int));
        let complete = content[e - 1] == 10u8;
        if !complete && start + e as u64 >= len {
            assert(frame_bounds(content@, pos as int, start as int, len as int) =~= Seq::empty());
            assert(bounds =~= done);
            break ;
        }
        let bytes = sub_bytes(content, pos, e);
        let decoded = from_utf8_lossy(bytes.as_slice());
        let dc = chars_of(decoded.as_str());
        let text = string_of(trim_chars(dc.as_slice()).as_slice());
        let frame = LineFrame { start: start + pos as u64, end: start + e as u64, text };
        proof {
            let old_done = done;
            done = done.push((pos as int, e as int));
            assert(bounds == done + frame_bounds(content@, e as int, start as int, len as int)) by {
                assert(old_done + (seq![(pos as int, e as int)] + frame_bounds(
                    content@,
                    e as int,
                    start as int,
                    len as int,
                )) =~= done + frame_bounds(content@, e as int, start as int, len as int));
            }
            assert(frame.start as int == start as int + pos as int);
            assert(frame.end as int == start as int + e as int);
            assert(bytes@ == content@.subrange(pos as int, e as int));
            assert(frame.text@ == trim_seq(utf8_lossy(content@.subrange(pos as int, e as int))));
            assert(frame_view(frame) == frame_of(content@, start as int, (pos as int, e as int)));
            assert(r@.push(frame).map_values(|x: LineFrame| frame_view(x)) =~= r@.map_values(
                |x: LineFrame| frame_view(x),
            ).push(frame_view(frame)));
            assert(done.map_values(|b: (int, int)| frame_of(content@, start as int, b)) =~= old_done.map_values(|b: (int, int)| frame_of(content@, start as int, b)).push(frame_of(content@, start as int, (pos as int, e as int))));
        }
        r.push(frame);
        pos = e;
    }
    r
}

} // verus!

verus! {

/// The first line, from `i` on, that is not blank and could not be parsed;
/// the number of lines when there is none.
pub open spec fn first_error(
    frames: Seq<(int, int, Seq<char>)>,
    parsed: Seq<Option<EveEvent>>,
    i: int,
) -> int
    decreases frames.len() - i,
{
    if i < 0 || i >= frames.len() {
        frames.len() as int
    } else if frames[i].2.len() > 0 && parsed[i] is None {
        i
    } else {
        first_error(frames, parsed, i + 1)
    }
}

/// The result after one line: blank lines and events that are neither
/// alerts nor drops change nothing.
pub open spec fn apply_line(v: CollectionView, text: Seq<char>, parsed: Option<EveEvent>) -> CollectionView {
    if text.len() == 0 {
        v
    } else {
        match parsed {
            Some(e) => if is_interesting_spec(e) {
                push_event_spec(v, e)
            } else {
                v
            },
            None => v,
        }
    }
}

/// The result after the first `n` lines.
pub open spec fn apply_lines(
    v: CollectionView,
    frames: Seq<(int, int, Seq<char>)>,
    parsed: Seq<Option<EveEvent>>,
    n: int,
) -> CollectionView
    decreases n,
{
    if n <= 0 {
        v
    } else {
        apply_line(apply_lines(v, frames, parsed, n - 1), frames[n - 1].2, parsed[n - 1])
    }
}

/// What a run makes of the lines it read and of what parsing them gave: the
/// lines up to the first one that could not be parsed are counted; that line
/// counts as one parse error and the cursor stays at its start; without
/// such a line the cursor moves past the last line read.
pub open spec fn collect_lines_spec(
    v: CollectionView,
    frames: Seq<(int, int, Seq<char>)>,
    parsed: Seq<Option<EveEvent>>,
    start: int,
) -> (CollectionView, int) {
    let k = first_error(frames, parsed, 0);
    let counted = apply_lines(v, frames, parsed, k);
    if k < frames.len() {
        (CollectionView { parse_errors: counted.parse_errors + 1, ..counted }, frames[k].0)
    } else if frames.len() == 0 {
        (counted, start)
    } else {
        (counted, frames.last().1)
    }
}

proof fn lemma_first_error_skip(
    frames: Seq<(int, int, Seq<char>)>,
    parsed: Seq<Option<EveEvent>>,
    i: int,
)
    requires
        0 <= i < frames.len(),
        !(frames[i].2.len() > 0 && parsed[i] is None),
    ensures
        first_error(frames, parsed, i) == first_error(frames, parsed, i + 1),
{
}

proof fn lemma_first_error_bounds(
    frames: Seq<(int, int, Seq<char>)>,
    parsed: Seq<Option<EveEvent>>,
    i: int,
)
    requires
        0 <= i <= frames.len(),
    ensures
        i <= first_error(frames, parsed, i) <= frames.len(),
    decreases frames.len() - i,
{
    if i < frames.len() && !(frames[i].2.len() > 0 && parsed[i] is None) {
        lemma_first_error_bounds(frames, parsed, i + 1);
    }
}

proof fn lemma_apply_lines_events(
    v: CollectionView,
    frames: Seq<(int, int, Seq<char>)>,
    parsed: Seq<Option<EveEvent>>,
    n: int,
)
    requires
        0 <= n,
    ensures
        apply_lines(v, frames, parsed, n).events <= v.events + n,
        apply_lines(v, frames, parsed, n).parse_errors == v.parse_errors,
        apply_lines(v, frames, parsed, n).rotation_gap == v.rotation_gap,
        collection_wf(v) ==> collection_wf(apply_lines(v, frames, parsed, n)),
    decreases n,
{
    if n > 0 {
        lemma_apply_lines_events(v, frames, parsed, n - 1);
    }
}

/// Counts the parsed lines of one file into `result` and gives the offset
/// that the cursor moves to (see `collect_lines_spec`). `parsed[i]` is what
/// parsing the text of `frames[i]` as an EVE record gave (`None`: it could
/// not be parsed); for blank lines it is not looked at.
pub fn collect_parsed_lines(
    frames: &Vec<LineFrame>,
    parsed: Vec<Option<EveEvent>>,
    start: u64,
    result: &mut CollectionResult,
) -> (offset: u64)
    requires
        frames.len() == parsed.len(),
        collection_wf(old(result)@),
        old(result).events + frames.len() < usize::MAX,
        old(result).parse_errors < usize::MAX,
    ensures
        (final(result)@, offset as int) == collect_lines_spec(
            old(result)@,
            frames@.map_values(|f: LineFrame| frame_view(f)),
            parsed@,
            start as int,
        ),
        collection_wf(final(result)@),
{
    let ghost fv = frames@.map_values(|f: LineFrame| frame_view(f));
    let ghost orig = parsed@;
    let ghost v0 = result@;
    let ghost k = first_error(fv, orig, 0);
    proof {
        lemma_first_error_bounds(fv, orig, 0);
    }
    let mut items = parsed;
    let mut offset = start;
    let mut i: usize = 0;
    while i < frames.len()
        invariant
            frames.len() == items.len(),
            orig == parsed@,
            v0 == old(result)@,
            fv == frames@.map_values(|f: LineFrame| frame_view(f)),
            orig.len() == items.len(),
            forall|j: int| i <= j < orig.len() ==> items@[j] == orig[j],
            k == first_error(fv, orig, 0),
            0 <= i <= k <= fv.len(),
            first_error(fv, orig, i as int) == k,
            result@ == apply_lines(v0, fv, orig, i as int),
            collection_wf(result@),
            result.events <= v0.events + i,
            v0.events + frames.len() < usize::MAX,
            v0.parse_errors < usize::MAX,
            offset as int == (if i == 0 {
                start as int
            } else {
                fv[i - 1].1
            }),
        ensures
            (result@, offset as int) == collect_lines_spec(v0, fv, orig, start as int),
            collection_wf(result@),
        decreases frames.len() - i,
    {
        let frame = &frames[i];
        let blank = frame.text.as_str().is_empty();
        let mut item: Option<EveEvent> = None;
        std::mem::swap(&mut item, &mut items[i]);
        assert(item == orig[i as int]);
        assert(fv[i as int] == frame_view(*frame));
        proof {
            lemma_apply_lines_events(v0, fv, orig, i as int);
        }
        if !blank && item.is_none() {
            assert(k == i);
            let ghost counted = result@;
            result.parse_errors = result.parse_errors + 1;
            offset = frame.start;
            assert(result@ == CollectionView { parse_errors: counted.parse_errors + 1, ..counted });
            assert(collect_lines_spec(v0, fv, orig, start as int) == (
                CollectionView { parse_errors: counted.parse_errors + 1, ..counted },
                fv[i as int].0,
            ));
            return offset;
        }
        proof {
            lemma_first_error_skip(fv, orig, i as int);
            lemma_first_error_bounds(fv, orig, i + 1);
        }
        offset = frame.end;
        if !blank {
            match item {
                Some(event) => {
                    if event.is_interesting() {
                        result.push_event(event);
                    }
                },
                None => {},
            }
        }
        i = i + 1;
    }
    offset
}

} // verus!

verus! {

proof fn lemma_line_end_shift(c: Seq<u8>, d: int, p: int)
    requires
        0 <= d <= p,
        d <= c.len(),
    ensures
        line_end(c.skip(d), p - d) == line_end(c, p) - d,
    decreases c.len() - p,
{
    if p < c.len() && c[p] != 10u8 {
        lemma_line_end_shift(c, d, p + 1);
    }
}

proof fn lemma_bounds_empty_shift(c: Seq<u8>, d: int, base: int, len: int)
    requires
        0 <= d <= c.len(),
        frame_bounds(c, d, base, len).len() == 0,
    ensures
        frame_bounds(c.skip(d), 0, base + d, len).len() == 0,
{
    if d < c.len() {
        lemma_line_end(c, d);
        lemma_line_end_shift(c, d, d);
        let e = line_end(c, d);
        assert(c.skip(d)[line_end(c.skip(d), 0) - 1] == c[e - 1]);
    }
}

proof fn lemma_last_bound_ends(c: Seq<u8>, pos: int, base: int, len: int)
    requires
        0 <= pos,
        frame_bounds(c, pos, base, len).len() > 0,
    ensures
        ({
            let b = frame_bounds(c, pos, base, len);
            pos < b.last().1 <= c.len() && frame_bounds(c, b.last().1, base, len).len() == 0
        }),
    decreases c.len() - pos,
{
    lemma_line_end(c, pos);
    let e = line_end(c, pos);
    let rest = frame_bounds(c, e, base, len);
    assert(frame_bounds(c, pos, base, len) == seq![(pos, e)] + rest);
    if rest.len() > 0 {
        lemma_last_bound_ends(c, e, base, len);
        assert((seq![(pos, e)] + rest).last() == rest.last());
    } else {
        assert((seq![(pos, e)] + rest).last() == (pos, e));
    }
}

/// A clean run reads every line there is: resuming at the cursor it leaves,
/// in the same bytes, there is no further line to read (what is left, if
/// anything, is a last line still being written).
pub proof fn lemma_resume_reads_nothing_new(
    v: CollectionView,
    content: Seq<u8>,
    parsed: Seq<Option<EveEvent>>,
    base: int,
    len: int,
)
    requires
        0 <= base,
        len == base + content.len(),
        parsed.len() == frames_spec(content, base, len).len(),
        first_error(frames_spec(content, base, len), parsed, 0) == frames_spec(content, base, len).len(),
    ensures
        ({
            let o = collect_lines_spec(v, frames_spec(content, base, len), parsed, base).1;
            base <= o <= len && frames_spec(content.skip(o - base), o, len).len() == 0
        }),
{
    let fs = frames_spec(content, base, len);
    let bs = frame_bounds(content, 0, base, len);
    assert(fs.len() == bs.len());
    if bs.len() == 0 {
        assert(content.skip(0) =~= content);
    } else {
        lemma_last_bound_ends(content, 0, base, len);
        let e = bs.last().1;
        assert(fs.last() == frame_of(content, base, bs.last()));
        lemma_bounds_empty_shift(content, e, base, len);
    }
}

} // verus!
