//! Server-Sent Events and their parsing.
//!
//! A chunk of an event stream is read line by line. A line `id: X` sets the
//! id, `event: X` the event name, `retry: N` the retry time (a decimal
//! number), and `data: X` adds a line of data; the line `data: [DONE]` ends
//! the event, and the lines after it are not read. Other lines are skipped.
//! Lines end at `\n`, and a `\r` before it is dropped.
use crate::errors::DeboaExtrasError;
use crate::text::{copy_range, decode_lossy, starts_with, bytes_equal, utf8_lossy};
use vstd::prelude::*;

verus! {

/// What an event holds: its id, its event name, its lines of data, and its
/// retry time.
pub struct EventView {
    pub id: Option<Seq<char>>,
    pub event: Option<Seq<char>>,
    pub data: Seq<Seq<char>>,
    pub retry: Option<u64>,
}

/// The event with nothing set.
pub open spec fn empty_event() -> EventView {
    EventView { id: None, event: None, data: Seq::empty(), retry: None }
}

/// The text of an optional string.
pub open spec fn opt_text(s: Option<String>) -> Option<Seq<char>> {
    match s {
        Some(s) => Some(s@),
        None => None,
    }
}

/// `id: `
pub open spec fn id_prefix() -> Seq<u8> {
    seq![105u8, 100, 58, 32]
}

/// `event: `
pub open spec fn event_prefix() -> Seq<u8> {
    seq![101u8, 118, 101, 110, 116, 58, 32]
}

/// `retry: `
pub open spec fn retry_prefix() -> Seq<u8> {
    seq![114u8, 101, 116, 114, 121, 58, 32]
}

/// `data: `
pub open spec fn data_prefix() -> Seq<u8> {
    seq![100u8, 97, 116, 97, 58, 32]
}

/// `[DONE]`
pub open spec fn done_marker() -> Seq<u8> {
    seq![91u8, 68, 79, 78, 69, 93]
}

/// Does `line` begin with `prefix`?
pub open spec fn has_prefix(line: Seq<u8>, prefix: Seq<u8>) -> bool {
    prefix.len() <= line.len() && line.subrange(0, prefix.len() as int) == prefix
}

/// Is `b` an ASCII digit?
pub open spec fn is_digit(b: u8) -> bool {
    48 <= b <= 57
}

/// The number the ASCII digits `d` write in decimal.
pub open spec fn digits_value(d: Seq<u8>) -> nat
    decreases d.len(),
{
    if d.len() == 0 {
        0
    } else {
        digits_value(d.drop_last()) * 10 + (d.last() - 48) as nat
    }
}

/// The digits of a number text: what follows an optional leading `+`.
pub open spec fn unsigned_digits(s: Seq<u8>) -> Seq<u8> {
    if s.len() > 0 && s[0] == 43 {
        s.drop_first()
    } else {
        s
    }
}

/// The `u64` that `s` writes (as `str::parse::<u64>` reads it: an optional
/// `+` and at least one decimal digit, with a value that fits), or `None`.
pub open spec fn parse_u64_spec(s: Seq<u8>) -> Option<u64> {
    let d = unsigned_digits(s);
    if d.len() > 0 && (forall|i: int| 0 <= i < d.len() ==> is_digit(#[trigger] d[i]))
        && digits_value(d) <= u64::MAX {
        Some(digits_value(d) as u64)
    } else {
        None
    }
}

/// What one line does to the event being read.
pub enum LineEffect {
    /// Go on with the event as it becomes.
    Next(EventView),
    /// The event is complete.
    Stop,
    /// The line cannot be read (a retry time that is not a `u64`).
    Fail,
}

/// The effect of `line` on `ev`.
pub open spec fn line_effect(ev: EventView, line: Seq<u8>) -> LineEffect {
    if has_prefix(line, id_prefix()) {
        LineEffect::Next(EventView { id: Some(utf8_lossy(line.skip(4))), ..ev })
    } else if has_prefix(line, event_prefix()) {
        LineEffect::Next(EventView { event: Some(utf8_lossy(line.skip(7))), ..ev })
    } else if has_prefix(line, retry_prefix()) {
        match parse_u64_spec(line.skip(7)) {
            Some(v) => LineEffect::Next(EventView { retry: Some(v), ..ev }),
            None => LineEffect::Fail,
        }
    } else if has_prefix(line, data_prefix()) {
        if line.skip(6) == done_marker() {
            LineEffect::Stop
        } else {
            LineEffect::Next(EventView { data: ev.data.push(utf8_lossy(line.skip(6))), ..ev })
        }
    } else {
        LineEffect::Next(ev)
    }
}

/// The first position at or after `from` that holds `\n`, or the length of
/// `data` if there is none.
pub open spec fn newline_index(data: Seq<u8>, from: nat) -> nat
    decreases data.len() - from,
{
    if from >= data.len() {
        data.len()
    } else if data[from as int] == 10 {
        from
    } else {
        newline_index(data, from + 1)
    }
}

/// `line` without a final `\r`.
pub open spec fn strip_cr(line: Seq<u8>) -> Seq<u8> {
    if line.len() > 0 && line.last() == 13 {
        line.drop_last()
    } else {
        line
    }
}

/// `newline_index` lies between `from` and the length.
pub proof fn lemma_newline_index_bounds(data: Seq<u8>, from: nat)
    requires
        from <= data.len(),
    ensures
        from <= newline_index(data, from) <= data.len(),
        newline_index(data, from) < data.len() ==> data[newline_index(data, from) as int] == 10,
        forall|j: int| from <= j < newline_index(data, from) ==> data[j] != 10,
    decreases data.len() - from,
{
    if from < data.len() && data[from as int] != 10 {
        lemma_newline_index_bounds(data, from + 1);
    }
}

/// The lines of `data` from position `from` on, as `str::lines` splits a
/// text: at each `\n`, without a `\r` just before it, with no empty line
/// after a final `\n`.
pub open spec fn lines_from(data: Seq<u8>, from: nat) -> Seq<Seq<u8>>
    decreases data.len() - from,
{
    if from >= data.len() {
        Seq::empty()
    } else {
        let e = newline_index(data, from);
        if e < data.len() {
            if e + 1 > from {
                seq![strip_cr(data.subrange(from as int, e as int))] + lines_from(data, e + 1)
            } else {
                Seq::empty()
            }
        } else {
            seq![data.subrange(from as int, data.len() as int)]
        }
    }
}

/// The lines of `data`.
pub open spec fn sse_lines(data: Seq<u8>) -> Seq<Seq<u8>> {
    lines_from(data, 0)
}

/// The event that the lines `lines` make of `ev`, or `None` where one of
/// them cannot be read.
pub open spec fn apply_lines(ev: EventView, lines: Seq<Seq<u8>>) -> Option<EventView>
    decreases lines.len(),
{
    if lines.len() == 0 {
        Some(ev)
    } else {
        match line_effect(ev, lines[0]) {
            LineEffect::Next(next) => apply_lines(next, lines.drop_first()),
            LineEffect::Stop => Some(ev),
            LineEffect::Fail => None,
        }
    }
}

/// The event that the chunk `data` holds, or `None` where a retry line in
/// it (before the end of the event) is not a `u64`.
pub open spec fn parsed_event(data: Seq<u8>) -> Option<EventView> {
    apply_lines(empty_event(), sse_lines(data))
}

/// `d.take(k)` writes at most the number `d` writes, when `d` is all digits.
pub proof fn lemma_digits_prefix_le(d: Seq<u8>, k: nat)
    requires
        k <= d.len(),
        forall|i: int| 0 <= i < d.len() ==> is_digit(#[trigger] d[i]),
    ensures
        digits_value(d.take(k as int)) <= digits_value(d),
    decreases d.len(),
{
    if k < d.len() {
        lemma_digits_prefix_le(d.drop_last(), k);
        assert(d.drop_last().take(k as int) =~= d.take(k as int));
    } else {
        assert(d.take(k as int) =~= d);
    }
}

/// Reads a `u64` written in decimal with an optional leading `+`.
pub fn parse_u64(s: &[u8]) -> (r: Option<u64>)
    ensures
        r == parse_u64_spec(s@),
{
    let start: usize = if s.len() > 0 && s[0] == 43 {
        1
    } else {
        0
    };
    let ghost d = unsigned_digits(s@);
    assert(d =~= s@.skip(start as int));
    if start >= s.len() {
        return None;
    }
    let mut v: u64 = 0;
    let mut i: usize = start;
    assert(d.take(0) =~= Seq::<u8>::empty());
    while i < s.len()
        invariant
            start <= i <= s@.len(),
            d == s@.skip(start as int),
            d == unsigned_digits(s@),
            v == digits_value(d.take(i - start)),
            forall|j: int| 0 <= j < i - start ==> is_digit(#[trigger] d[j]),
        decreases s.len() - i,
    {
        let b = s[i];
        assert(b == d[i - start]);
        if b < 48 || b > 57 {
            assert(!is_digit(d[i - start]));
            return None;
        }
        let dig: u64 = (b - 48) as u64;
        assert(d.take(i - start + 1).drop_last() =~= d.take(i - start));
        if v > (u64::MAX - dig) / 10 {
            proof {
                assert(v * 10 + dig > u64::MAX) by (nonlinear_arith)
                    requires
                        v > (u64::MAX - dig) / 10,
                        dig <= 9,
                ;
                let t = d.take(i - start + 1);
                assert(t.last() == b);
                assert(digits_value(t) == v * 10 + dig);
                if forall|j: int| 0 <= j < d.len() ==> is_digit(#[trigger] d[j]) {
                    lemma_digits_prefix_le(d, (i - start + 1) as nat);
                }
            }
            return None;
        }
        v = v * 10 + dig;
        i = i + 1;
    }
    assert(d.take(i - start) =~= d);
    Some(v)
}

/// The effect of a line as the parser reports it.
enum LineOutcome {
    Continue,
    Stop,
    Fail,
}

/// The line that ends an event: `data: [DONE]` and a line feed.
pub open spec fn done_line() -> Seq<u8> {
    data_prefix() + done_marker() + seq![10u8]
}

/// A search for `\n` that finds one within `a` finds the same one in any
/// extension of `a`.
proof fn lemma_newline_index_extend(a: Seq<u8>, b: Seq<u8>, i: nat)
    requires
        i <= a.len(),
        newline_index(a, i) < a.len(),
    ensures
        newline_index(a + b, i) == newline_index(a, i),
    decreases a.len() - i,
{
    if i < a.len() && a[i as int] != 10 {
        lemma_newline_index_extend(a, b, i + 1);
    }
}

/// A text that ends with `\n` has one at or after each of its positions.
proof fn lemma_newline_index_found(a: Seq<u8>, i: nat)
    requires
        i < a.len(),
        a.last() == 10,
    ensures
        newline_index(a, i) < a.len(),
    decreases a.len() - i,
{
    if a[i as int] != 10 {
        lemma_newline_index_found(a, i + 1);
    }
}

/// Searching past `p` in `p + q` is searching in `q`.
proof fn lemma_newline_index_shift(p: Seq<u8>, q: Seq<u8>, j: nat)
    requires
        j <= q.len(),
    ensures
        newline_index(p + q, p.len() + j) == p.len() + newline_index(q, j),
    decreases q.len() - j,
{
    if j < q.len() {
        assert((p + q)[(p.len() + j) as int] == q[j as int]);
        if q[j as int] != 10 {
            lemma_newline_index_shift(p, q, j + 1);
        }
    }
}

/// The lines of `p + q` past `p` are the lines of `q`.
proof fn lemma_lines_shift(p: Seq<u8>, q: Seq<u8>, j: nat)
    requires
        j <= q.len(),
    ensures
        lines_from(p + q, p.len() + j) == lines_from(q, j),
    decreases q.len() - j,
{
    if j < q.len() {
        lemma_newline_index_shift(p, q, j);
        lemma_newline_index_bounds(q, j);
        let e = newline_index(q, j);
        if e < q.len() {
            lemma_lines_shift(p, q, e + 1);
            assert((p + q).subrange((p.len() + j) as int, (p.len() + e) as int) =~= q.subrange(
                j as int,
                e as int,
            ));
        } else {
            assert((p + q).subrange((p.len() + j) as int, (p + q).len() as int) =~= q.subrange(
                j as int,
                q.len() as int,
            ));
        }
    }
}

/// The lines of `a + b`, where `a` ends with `\n`, are those of `a` followed
/// by those of `b`.
proof fn lemma_lines_concat_from(a: Seq<u8>, b: Seq<u8>, i: nat)
    requires
        i <= a.len(),
        a.len() > 0,
        a.last() == 10,
    ensures
        lines_from(a + b, i) == lines_from(a, i) + lines_from(b, 0),
    decreases a.len() - i,
{
    if i == a.len() {
        lemma_lines_shift(a, b, 0);
        assert(lines_from(a, i) + lines_from(b, 0) =~= lines_from(b, 0));
    } else {
        lemma_newline_index_found(a, i);
        lemma_newline_index_extend(a, b, i);
        lemma_newline_index_bounds(a, i);
        let e = newline_index(a, i);
        lemma_lines_concat_from(a, b, e + 1);
        assert((a + b).subrange(i as int, e as int) =~= a.subrange(i as int, e as int));
        assert(lines_from(a + b, i) =~= seq![strip_cr(a.subrange(i as int, e as int))]
            + lines_from(a + b, e + 1));
        assert(lines_from(a, i) =~= seq![strip_cr(a.subrange(i as int, e as int))] + lines_from(
            a,
            e + 1,
        ));
        assert(lines_from(a + b, i) =~= lines_from(a, i) + lines_from(b, 0));
    }
}

/// Law: the lines of two chunks, the first of which is empty or ends with
/// `\n`, are the lines of the first followed by those of the second.
pub proof fn law_lines_concat(a: Seq<u8>, b: Seq<u8>)
    requires
        a.len() == 0 || a.last() == 10,
    ensures
        sse_lines(a + b) == sse_lines(a) + sse_lines(b),
{
    if a.len() == 0 {
        assert(a + b =~= b);
        assert(sse_lines(a) + sse_lines(b) =~= sse_lines(b));
    } else {
        lemma_lines_concat_from(a, b, 0);
    }
}

/// A line that ends the event ends it whatever follows.
proof fn lemma_apply_stop(ev: EventView, l1: Seq<Seq<u8>>, c: Seq<u8>, l2: Seq<Seq<u8>>)
    requires
        forall|e: EventView| #[trigger] line_effect(e, c) is Stop,
    ensures
        apply_lines(ev, l1 + seq![c] + l2) == apply_lines(ev, l1 + seq![c]),
    decreases l1.len(),
{
    let _ = line_effect(ev, c);
    if l1.len() == 0 {
        assert((l1 + seq![c] + l2)[0] == c);
        assert((l1 + seq![c])[0] == c);
    } else {
        assert((l1 + seq![c] + l2)[0] == l1[0]);
        assert((l1 + seq![c])[0] == l1[0]);
        assert((l1 + seq![c] + l2).drop_first() =~= l1.drop_first() + seq![c] + l2);
        assert((l1 + seq![c]).drop_first() =~= l1.drop_first() + seq![c]);
        match line_effect(ev, l1[0]) {
            LineEffect::Next(next) => {
                lemma_apply_stop(next, l1.drop_first(), c, l2);
            },
            _ => {},
        }
    }
}

/// The end line is one line, `data: [DONE]`, which ends any event.
proof fn lemma_done_line()
    ensures
        done_line().last() == 10,
        sse_lines(done_line()) == seq![data_prefix() + done_marker()],
        forall|e: EventView| #[trigger] line_effect(e, data_prefix() + done_marker()) is Stop,
{
    let d = done_line();
    let c = data_prefix() + done_marker();
    assert(d.last() == 10);
    assert(d.subrange(0, 12) =~= c);
    assert(newline_index(d, 0) == 12) by {
        reveal_with_fuel(newline_index, 14);
    }
    assert(lines_from(d, 13) =~= Seq::<Seq<u8>>::empty());
    assert(sse_lines(d) =~= seq![c]);
    assert forall|e: EventView| #[trigger] line_effect(e, c) is Stop by {
        assert(c.subrange(0, 6) =~= data_prefix());
        assert(c.skip(6) =~= done_marker());
    }
}

/// Law: an empty chunk holds the empty event.
pub proof fn law_empty_chunk()
    ensures
        parsed_event(Seq::empty()) == Some(empty_event()),
{
}

/// Law: the line `data: [DONE]` ends the event; nothing after it is read.
/// For a chunk `a` that is empty or ends with `\n`, the chunk `a`, then
/// `data: [DONE]` and a line feed, then anything, holds the same event as
/// the chunk without what follows.
pub proof fn law_done_ends_event(a: Seq<u8>, b: Seq<u8>)
    requires
        a.len() == 0 || a.last() == 10,
    ensures
        parsed_event(a + done_line() + b) == parsed_event(a + done_line()),
{
    let d = done_line();
    let c = data_prefix() + done_marker();
    lemma_done_line();
    law_lines_concat(d, b);
    assert(a + d + b =~= a + (d + b));
    law_lines_concat(a, d + b);
    law_lines_concat(a, d);
    assert(sse_lines(a + d + b) =~= sse_lines(a) + seq![c] + sse_lines(b));
    assert(sse_lines(a + d) =~= sse_lines(a) + seq![c]);
    lemma_apply_stop(empty_event(), sse_lines(a), c, sse_lines(b));
}

/// Law: reading lines adds to the data an event already holds and never
/// changes or drops it. The lines succeed on an event exactly when they
/// succeed on the same event with no data, and the data they end with is
/// the data held before followed by the data they read on their own.
pub proof fn law_data_accumulates(ev: EventView, lines: Seq<Seq<u8>>)
    ensures
        apply_lines(ev, lines) is Some <==> apply_lines(
            EventView { data: Seq::empty(), ..ev },
            lines,
        ) is Some,
        apply_lines(ev, lines) matches Some(r) ==> (apply_lines(
            EventView { data: Seq::empty(), ..ev },
            lines,
        ) matches Some(r0) && r.data == ev.data + r0.data),
    decreases lines.len(),
{
    let ev0 = EventView { data: Seq::empty(), ..ev };
    if lines.len() > 0 {
        let rest = lines.drop_first();
        match line_effect(ev, lines[0]) {
            LineEffect::Next(next) => {
                let next0 = match line_effect(ev0, lines[0]) {
                    LineEffect::Next(n) => n,
                    _ => ev0,
                };
                law_data_accumulates(next, rest);
                law_data_accumulates(next0, rest);
                assert(EventView { data: Seq::empty(), ..next } == EventView {
                    data: Seq::empty(),
                    ..next0
                });
                if apply_lines(ev, lines) is Some {
                    let r = apply_lines(ev, lines)->0;
                    let r0 = apply_lines(ev0, lines)->0;
                    let d = apply_lines(EventView { data: Seq::empty(), ..next }, rest)->0.data;
                    assert(r.data == next.data + d);
                    assert(r0.data == next0.data + d);
                    if next.data.len() == ev.data.len() {
                        assert(next0.data =~= Seq::<Seq<char>>::empty());
                        assert(r.data =~= ev.data + r0.data);
                    } else {
                        assert(r.data =~= ev.data + r0.data);
                    }
                }
            },
            _ => {
                assert(ev.data + ev0.data =~= ev.data);
            },
        }
    } else {
        assert(ev.data + ev0.data =~= ev.data);
    }
}

/// Is `line` a line of data (`data: X`, X not `[DONE]`)?
pub open spec fn is_data_line(line: Seq<u8>) -> bool {
    has_prefix(line, data_prefix()) && line.skip(6) != done_marker()
}

/// Law: a run of data lines adds each of them, in order, however many there
/// are: the text after `data: ` of every line, and nothing else changes.
pub proof fn law_data_lines_in_order(ev: EventView, lines: Seq<Seq<u8>>)
    requires
        forall|i: int| 0 <= i < lines.len() ==> is_data_line(#[trigger] lines[i]),
    ensures
        apply_lines(ev, lines) == Some(
            EventView {
                data: ev.data + lines.map_values(|l: Seq<u8>| utf8_lossy(l.skip(6))),
                ..ev
            },
        ),
    decreases lines.len(),
{
    if lines.len() == 0 {
        assert(ev.data + lines.map_values(|l: Seq<u8>| utf8_lossy(l.skip(6))) =~= ev.data);
    } else {
        let l0 = lines[0];
        let rest = lines.drop_first();
        assert(is_data_line(l0));
        assert(!has_prefix(l0, id_prefix())) by {
            assert(l0[0] == 100u8);
        }
        assert(!has_prefix(l0, event_prefix())) by {
            assert(l0[0] == 100u8);
        }
        assert(!has_prefix(l0, retry_prefix())) by {
            assert(l0[0] == 100u8);
        }
        let next = EventView { data: ev.data.push(utf8_lossy(l0.skip(6))), ..ev };
        assert(line_effect(ev, l0) == LineEffect::Next(next));
        assert forall|i: int| 0 <= i < rest.len() implies is_data_line(#[trigger] rest[i]) by {
            assert(rest[i] == lines[i + 1]);
        }
        law_data_lines_in_order(next, rest);
        assert(next.data + rest.map_values(|l: Seq<u8>| utf8_lossy(l.skip(6))) =~= ev.data
            + lines.map_values(|l: Seq<u8>| utf8_lossy(l.skip(6))));
    }
}

/// A Server-Sent Event.
#[derive(Debug)]
pub struct ServerEvent {
    id: Option<String>,
    event: Option<String>,
    data: Vec<String>,
    retry: Option<u64>,
}

impl View for ServerEvent {
    type V = EventView;

    closed spec fn view(&self) -> EventView {
        EventView {
            id: opt_text(self.id),
            event: opt_text(self.event),
            data: self.data@.map_values(|s: String| s@),
            retry: self.retry,
        }
    }
}

impl Default for ServerEvent {
    /// Creates a new ServerEvent
    fn default() -> (e: Self)
        ensures
            e@ == empty_event(),
    {
        Self::new()
    }
}

impl ServerEvent {
    /// Creates a new ServerEvent
    pub fn new() -> (e: Self)
        ensures
            e@ == empty_event(),
    {
        let e = Self { id: None, event: None, data: Vec::new(), retry: None };
        assert(e@.data =~= Seq::<Seq<char>>::empty());
        e
    }

    /// Returns the event ID
    pub fn id(&self) -> (r: &Option<String>)
        ensures
            opt_text(*r) == self@.id,
    {
        &self.id
    }

    /// Returns the event name
    pub fn event(&self) -> (r: &Option<String>)
        ensures
            opt_text(*r) == self@.event,
    {
        &self.event
    }

    /// Returns the event data
    pub fn data(&self) -> (r: &Vec<String>)
        ensures
            r@.map_values(|s: String| s@) == self@.data,
    {
        &self.data
    }

    /// Adds data to the event
    pub fn add_data(&mut self, data: String)
        ensures
            final(self)@ == (EventView { data: old(self)@.data.push(data@), ..old(self)@ }),
    {
        self.data.push(data);
        assert(self@.data =~= old(self)@.data.push(data@));
    }

    /// Applies one line to the event.
    fn apply_line(&mut self, line: &[u8]) -> (r: LineOutcome)
        ensures
            match line_effect(old(self)@, line@) {
                LineEffect::Next(next) => r is Continue && final(self)@ == next,
                LineEffect::Stop => r is Stop && final(self)@ == old(self)@,
                LineEffect::Fail => r is Fail,
            },
    {
        let id_p: [u8; 4] = [105, 100, 58, 32];
        let event_p: [u8; 7] = [101, 118, 101, 110, 116, 58, 32];
        let retry_p: [u8; 7] = [114, 101, 116, 114, 121, 58, 32];
        let data_p: [u8; 6] = [100, 97, 116, 97, 58, 32];
        let done: [u8; 6] = [91, 68, 79, 78, 69, 93];
        assert(id_p@ =~= id_prefix());
        assert(event_p@ =~= event_prefix());
        assert(retry_p@ =~= retry_prefix());
        assert(data_p@ =~= data_prefix());
        assert(done@ =~= done_marker());
        if starts_with(line, id_p.as_slice()) {
            let rest = copy_range(line, 4, line.len());
            assert(rest@ =~= line@.skip(4));
            self.id = Some(decode_lossy(rest.as_slice()));
            LineOutcome::Continue
        } else if starts_with(line, event_p.as_slice()) {
            let rest = copy_range(line, 7, line.len());
            assert(rest@ =~= line@.skip(7));
            self.event = Some(decode_lossy(rest.as_slice()));
            LineOutcome::Continue
        } else if starts_with(line, retry_p.as_slice()) {
            let rest = copy_range(line, 7, line.len());
            assert(rest@ =~= line@.skip(7));
            match parse_u64(rest.as_slice()) {
                Some(v) => {
                    self.retry = Some(v);
                    LineOutcome::Continue
                },
                None => LineOutcome::Fail,
            }
        } else if starts_with(line, data_p.as_slice()) {
            let rest = copy_range(line, 6, line.len());
            assert(rest@ =~= line@.skip(6));
            if bytes_equal(rest.as_slice(), done.as_slice()) {
                LineOutcome::Stop
            } else {
                self.add_data(decode_lossy(rest.as_slice()));
                LineOutcome::Continue
            }
        } else {
            LineOutcome::Continue
        }
    }

    /// Reads the event a chunk of an event stream holds, or `None` where a
    /// retry line in it is not a `u64`.
    pub fn try_parse(data: &[u8]) -> (r: Option<ServerEvent>)
        ensures
            r is Some <==> parsed_event(data@) is Some,
            r matches Some(e) ==> Some(e@) == parsed_event(data@),
    {
        let mut ev = ServerEvent::new();
        let n = data.len();
        let mut start: usize = 0;
        while start < n
            invariant
                start <= n == data@.len(),
                parsed_event(data@) == apply_lines(ev@, lines_from(data@, start as nat)),
            decreases n - start,
        {
            let mut e = start;
            while e < n && data[e] != 10
                invariant
                    start <= e <= n == data@.len(),
                    newline_index(data@, start as nat) == newline_index(data@, e as nat),
                decreases n - e,
            {
                e = e + 1;
            }
            proof {
                lemma_newline_index_bounds(data@, start as nat);
            }
            assert(newline_index(data@, start as nat) == e);
            let line: Vec<u8> = if e < n {
                let mut l = copy_range(data, start, e);
                if l.len() > 0 && l[l.len() - 1] == 13 {
                    l.pop();
                }
                l
            } else {
                copy_range(data, start, n)
            };
            let ghost rest = if e < n {
                lines_from(data@, (e + 1) as nat)
            } else {
                Seq::<Seq<u8>>::empty()
            };
            assert(lines_from(data@, start as nat) =~= seq![line@] + rest);
            assert((seq![line@] + rest).drop_first() =~= rest);
            match ev.apply_line(line.as_slice()) {
                LineOutcome::Continue => {},
                LineOutcome::Stop => {
                    return Some(ev);
                },
                LineOutcome::Fail => {
                    return None;
                },
            }
            if e < n {
                start = e + 1;
            } else {
                start = n;
            }
        }
        Some(ev)
    }

    /// Parses a ServerEvent from bytes
    pub fn parse(data: &[u8]) -> (r: Result<ServerEvent, DeboaExtrasError>)
        requires
            parsed_event(data@) is Some,
        ensures
            r matches Ok(e) && Some(e@) == parsed_event(data@),
    {
        match Self::try_parse(data) {
            Some(e) => Ok(e),
            None => {
                assert(false);
                Ok(ServerEvent::new())
            },
        }
    }

    /// Returns the retry value
    pub fn retry(&self) -> (r: &Option<u64>)
        ensures
            *r == self@.retry,
    {
        &self.retry
    }
}

} // verus!
