// The trace grammar: how trace text splits into lines, which lines are
// records, and what each record carries.

use vstd::prelude::*;
use vstd::string::*;

verus! {

/// One record of a trace, as the grammar defines it.
pub enum TraceEvent {
    /// A function was entered; the name is the last word of the line.
    Enter(Seq<char>),
    /// A function was left.
    Exit,
    /// A value was reported; the text is the line without its marker.
    Value(Seq<char>),
}

/// One record of a trace.
#[derive(Clone, Debug, PartialEq, Eq)]
pub enum TraceLine {
    /// A function was entered.
    Enter(String),
    /// A function was left.
    Exit,
    /// A value was reported.
    Value(String),
}

impl View for TraceLine {
    type V = TraceEvent;

    open spec fn view(&self) -> TraceEvent {
        match self {
            TraceLine::Enter(name) => TraceEvent::Enter(name@),
            TraceLine::Exit => TraceEvent::Exit,
            TraceLine::Value(text) => TraceEvent::Value(text@),
        }
    }
}

/// The records that a vector of trace lines stands for.
pub open spec fn events_view(lines: Seq<TraceLine>) -> Seq<TraceEvent> {
    lines.map_values(|l: TraceLine| l@)
}

/// The marker that starts an entry record.
pub open spec fn enter_marker() -> Seq<char> {
    "[DEBUG:func_enter"@
}

/// The marker that starts an exit record.
pub open spec fn exit_marker() -> Seq<char> {
    "[DEBUG:func_exit"@
}

/// The marker that starts a value record.
pub open spec fn value_marker() -> Seq<char> {
    "[DEBUG:value"@
}

/// The marker of a value record together with the bracket that opens its
/// source position.
pub open spec fn value_open() -> Seq<char> {
    "[DEBUG:value("@
}

/// The characters that separate the words of a line: space, tab, line
/// feed, form feed and carriage return.
pub open spec fn is_space(c: char) -> bool {
    c == ' ' || c == '\t' || c == '\n' || c == '\x0C' || c == '\r'
}

/// The index of the first line feed of `text` at or after `from`, or the
/// length of `text` if there is none.
pub open spec fn first_newline(text: Seq<char>, from: int) -> int
    decreases text.len() - from,
{
    if from < 0 || from >= text.len() {
        text.len() as int
    } else if text[from] == '\n' {
        from
    } else {
        first_newline(text, from + 1)
    }
}

/// The first line feed lies in the text or at its end, and no line feed
/// comes before it.
pub proof fn lemma_first_newline_bounds(text: Seq<char>, from: int)
    requires
        0 <= from <= text.len(),
    ensures
        from <= first_newline(text, from) <= text.len(),
        first_newline(text, from) < text.len() ==> text[first_newline(text, from)] == '\n',
        forall|i: int| from <= i < first_newline(text, from) ==> text[i] != '\n',
    decreases text.len() - from,
{
    if from < text.len() && text[from] != '\n' {
        lemma_first_newline_bounds(text, from + 1);
    }
}

/// The line that runs from `from` to the line break at `end`: what lies
/// between them, without the carriage return that may precede a line feed.
/// A last line that no line feed ends keeps its carriage return.
pub open spec fn line_between(text: Seq<char>, from: int, end: int) -> Seq<char> {
    if end < text.len() && from < end && text[end - 1] == '\r' {
        text.subrange(from, end - 1)
    } else {
        text.subrange(from, end)
    }
}

/// The lines of `text` from index `from` on.
pub open spec fn lines_from(text: Seq<char>, from: int) -> Seq<Seq<char>>
    decreases text.len() - from,
    via lines_from_decreases
{
    if from < 0 || from >= text.len() {
        Seq::empty()
    } else {
        let end = first_newline(text, from);
        if end < text.len() {
            seq![line_between(text, from, end)] + lines_from(text, end + 1)
        } else {
            seq![line_between(text, from, end)]
        }
    }
}

#[via_fn]
proof fn lines_from_decreases(text: Seq<char>, from: int) {
    if 0 <= from < text.len() {
        lemma_first_newline_bounds(text, from);
    }
}

/// The lines of `text`. A line ends at a line feed, or at a carriage return
/// and a line feed; the line break is not part of the line, and the text
/// after the last line break is a line only if it is not empty.
pub open spec fn lines(text: Seq<char>) -> Seq<Seq<char>> {
    lines_from(text, 0)
}

/// `s` without the separators at its end.
pub open spec fn trim_end(s: Seq<char>) -> Seq<char>
    decreases s.len(),
{
    if s.len() > 0 && is_space(s.last()) {
        trim_end(s.drop_last())
    } else {
        s
    }
}

/// The longest run of characters at the end of `s` that holds no separator.
pub open spec fn last_word(s: Seq<char>) -> Seq<char>
    decreases s.len(),
{
    if s.len() > 0 && !is_space(s.last()) {
        last_word(s.drop_last()).push(s.last())
    } else {
        Seq::empty()
    }
}

/// The last word of a line: the last run of characters between separators.
/// It is empty only where the line holds nothing but separators.
pub open spec fn last_token(line: Seq<char>) -> Seq<char> {
    last_word(trim_end(line))
}

/// What is cut off at the end of a line holds separators only, and what
/// is left does not end with one.
pub proof fn lemma_trim_end(s: Seq<char>)
    ensures
        trim_end(s).is_prefix_of(s),
        forall|i: int| trim_end(s).len() <= i < s.len() ==> is_space(s[i]),
        trim_end(s).len() > 0 ==> !is_space(trim_end(s).last()),
    decreases s.len(),
{
    if s.len() > 0 && is_space(s.last()) {
        lemma_trim_end(s.drop_last());
        assert(trim_end(s) =~= s.subrange(0, trim_end(s).len() as int));
    } else {
        assert(s =~= s.subrange(0, s.len() as int));
    }
}

/// The last word is the end of the sequence, holds no separator, and has a
/// separator before it unless it starts the sequence.
pub proof fn lemma_last_word(s: Seq<char>)
    ensures
        last_word(s).len() <= s.len(),
        last_word(s) == s.subrange(s.len() - last_word(s).len(), s.len() as int),
        forall|i: int| 0 <= i < last_word(s).len() ==> !is_space(#[trigger] last_word(s)[i]),
        last_word(s).len() < s.len() ==> is_space(s[s.len() - last_word(s).len() - 1]),
    decreases s.len(),
{
    if s.len() > 0 && !is_space(s.last()) {
        lemma_last_word(s.drop_last());
        assert(last_word(s) =~= s.subrange(s.len() - last_word(s).len(), s.len() as int));
    } else {
        assert(last_word(s) =~= s.subrange(s.len() - last_word(s).len(), s.len() as int));
    }
}

/// The last token of a line is a run of characters of the line that holds
/// no separator, has separators only after it, and a separator before it
/// unless it starts the line. It is empty only where the line holds
/// nothing but separators.
pub proof fn lemma_last_token(line: Seq<char>)
    ensures
        exists|start: int, end: int|
            {
                &&& 0 <= start <= end <= line.len()
                &&& last_token(line) == #[trigger] line.subrange(start, end)
                &&& forall|i: int| start <= i < end ==> !is_space(line[i])
                &&& forall|i: int| end <= i < line.len() ==> is_space(line[i])
                &&& start > 0 ==> is_space(line[start - 1])
            },
        last_token(line).len() == 0 <==> forall|i: int| 0 <= i < line.len() ==> is_space(line[i]),
{
    let kept = trim_end(line);
    lemma_trim_end(line);
    lemma_last_word(kept);
    let end = kept.len() as int;
    let start = end - last_word(kept).len();
    assert(kept =~= line.subrange(0, end));
    assert(last_token(line) =~= line.subrange(start, end));
    assert forall|i: int| start <= i < end implies !is_space(line[i]) by {
        assert(last_word(kept)[i - start] == line[i]);
    }
    if last_token(line).len() == 0 {
        assert forall|i: int| 0 <= i < line.len() implies is_space(line[i]) by {
            if end > 0 {
                assert(kept.last() == line[end - 1]);
            }
        }
    } else {
        assert(!is_space(line[start]));
    }
}

/// The name that an entry line gives is not empty: the marker itself is a
/// word of the line.
pub proof fn lemma_enter_line_has_name(line: Seq<char>)
    requires
        enter_marker().is_prefix_of(line),
    ensures
        last_token(line).len() > 0,
{
    reveal_strlit("[DEBUG:func_enter");
    lemma_last_token(line);
    assert(line[0] == enter_marker()[0]);
    assert(!is_space(line[0]));
}

/// Whether the three characters `)] ` stand at index `k` of `line`.
pub open spec fn closes_at(line: Seq<char>, k: int) -> bool {
    0 <= k && k + 3 <= line.len() && line[k] == ')' && line[k + 1] == ']' && line[k + 2] == ' '
}

/// The first index at or after `from` at which `)] ` stands in `line`, or
/// the length of `line` if there is none.
pub open spec fn first_close(line: Seq<char>, from: int) -> int
    decreases line.len() - from,
{
    if from < 0 || from + 3 > line.len() {
        line.len() as int
    } else if closes_at(line, from) {
        from
    } else {
        first_close(line, from + 1)
    }
}

/// What a value line shows: the line without its marker, which ends with
/// the first `)] ` after the opening bracket. A line whose marker is not
/// complete is shown whole.
pub open spec fn value_text(line: Seq<char>) -> Seq<char> {
    let close = first_close(line, value_open().len() as int);
    if value_open().is_prefix_of(line) && close < line.len() {
        line.subrange(close + 3, line.len() as int)
    } else {
        line
    }
}

/// The record that a line holds, if it is one. Lines that start with none
/// of the three markers are no records.
pub open spec fn event_of_line(line: Seq<char>) -> Option<TraceEvent> {
    if enter_marker().is_prefix_of(line) {
        Some(TraceEvent::Enter(last_token(line)))
    } else if exit_marker().is_prefix_of(line) {
        Some(TraceEvent::Exit)
    } else if value_marker().is_prefix_of(line) {
        Some(TraceEvent::Value(value_text(line)))
    } else {
        None
    }
}

/// The records among `lines`, in their order.
pub open spec fn events_of(lines: Seq<Seq<char>>) -> Seq<TraceEvent>
    decreases lines.len(),
{
    if lines.len() == 0 {
        Seq::empty()
    } else {
        match event_of_line(lines.last()) {
            Some(event) => events_of(lines.drop_last()).push(event),
            None => events_of(lines.drop_last()),
        }
    }
}

/// The records of a trace text, in their order.
pub open spec fn trace_events(text: Seq<char>) -> Seq<TraceEvent> {
    events_of(lines(text))
}

/// Every name that a trace enters is a word of one of its lines, and so
/// it is not empty.
pub proof fn lemma_entered_name_not_empty(lines: Seq<Seq<char>>, name: Seq<char>)
    requires
        events_of(lines).contains(TraceEvent::Enter(name)),
    ensures
        name.len() > 0,
        exists|i: int|
            0 <= i < lines.len() && enter_marker().is_prefix_of(#[trigger] lines[i]) && name
                == last_token(lines[i]),
    decreases lines.len(),
{
    let events = events_of(lines);
    let at = choose|at: int| 0 <= at < events.len() && events[at] == TraceEvent::Enter(name);
    assert(lines.len() > 0);
    let earlier = events_of(lines.drop_last());
    if at < earlier.len() {
        assert(earlier[at] == TraceEvent::Enter(name));
        lemma_entered_name_not_empty(lines.drop_last(), name);
        let i = choose|i: int|
            0 <= i < lines.drop_last().len() && enter_marker().is_prefix_of(
                #[trigger] lines.drop_last()[i],
            ) && name == last_token(lines.drop_last()[i]);
        assert(lines[i] == lines.drop_last()[i]);
    } else {
        assert(event_of_line(lines.last()) == Some(TraceEvent::Enter(name)));
        lemma_enter_line_has_name(lines.last());
        assert(lines[lines.len() - 1] == lines.last());
    }
}

/// The characters of `text`.
fn to_chars(text: &str) -> (chars: Vec<char>)
    ensures
        chars@ == text@,
{
    let mut chars: Vec<char> = Vec::new();
    for c in it: text.chars()
        invariant
            chars@ == text@.subrange(0, it.index() as int),
            it.seq() == text@,
    {
        chars.push(c);
    }
    chars
}

/// The string made of `chars[from..to]`.
fn string_between(chars: &Vec<char>, from: usize, to: usize) -> (s: String)
    requires
        from <= to <= chars.len(),
    ensures
        s@ == chars@.subrange(from as int, to as int),
{
    let mut s = String::new();
    let mut i: usize = from;
    while i < to
        invariant
            from <= i <= to <= chars.len(),
            s@ == chars@.subrange(from as int, i as int),
        decreases to - i,
    {
        s.push(chars[i]);
        i += 1;
        assert(s@ =~= chars@.subrange(from as int, i as int));
    }
    s
}

fn is_separator(c: char) -> (b: bool)
    ensures
        b == is_space(c),
{
    c == ' ' || c == '\t' || c == '\n' || c == '\x0C' || c == '\r'
}

fn starts_with(chars: &Vec<char>, from: usize, to: usize, marker: &Vec<char>) -> (b: bool)
    requires
        from <= to <= chars.len(),
    ensures
        b == marker@.is_prefix_of(chars@.subrange(from as int, to as int)),
{
    if marker.len() > to - from {
        return false;
    }
    let ghost line = chars@.subrange(from as int, to as int);
    let mut i: usize = 0;
    while i < marker.len()
        invariant
            from <= to <= chars.len(),
            marker.len() <= to - from,
            i <= marker.len(),
            line == chars@.subrange(from as int, to as int),
            forall|j: int| 0 <= j < i ==> marker@[j] == line[j],
        decreases marker.len() - i,
    {
        if marker[i] != chars[from + i] {
            assert(line.subrange(0, marker@.len() as int)[i as int] != marker@[i as int]);
            return false;
        }
        i += 1;
    }
    assert(marker@ =~= line.subrange(0, marker@.len() as int));
    true
}

fn find_newline(chars: &Vec<char>, from: usize) -> (end: usize)
    requires
        from <= chars.len(),
    ensures
        end == first_newline(chars@, from as int),
        from <= end <= chars.len(),
{
    let mut i: usize = from;
    while i < chars.len() && chars[i] != '\n'
        invariant
            from <= i <= chars.len(),
            first_newline(chars@, from as int) == first_newline(chars@, i as int),
        decreases chars.len() - i,
    {
        i += 1;
    }
    i
}

fn last_token_bounds(chars: &Vec<char>, from: usize, to: usize) -> (bounds: (usize, usize))
    requires
        from <= to <= chars.len(),
    ensures
        from <= bounds.0 <= bounds.1 <= to,
        chars@.subrange(bounds.0 as int, bounds.1 as int) == last_token(
            chars@.subrange(from as int, to as int),
        ),
{
    let mut end: usize = to;
    while end > from && is_separator(chars[end - 1])
        invariant
            from <= end <= to <= chars.len(),
            trim_end(chars@.subrange(from as int, to as int)) == trim_end(
                chars@.subrange(from as int, end as int),
            ),
        decreases end,
    {
        assert(chars@.subrange(from as int, end as int).drop_last() =~= chars@.subrange(
            from as int,
            end - 1,
        ));
        end -= 1;
    }
    let mut start: usize = end;
    assert(chars@.subrange(start as int, end as int) =~= Seq::<char>::empty());
    assert(last_word(chars@.subrange(from as int, end as int)) =~= last_word(
        chars@.subrange(from as int, start as int),
    ) + chars@.subrange(start as int, end as int));
    while start > from && !is_separator(chars[start - 1])
        invariant
            from <= start <= end <= chars.len(),
            last_word(chars@.subrange(from as int, end as int)) == last_word(
                chars@.subrange(from as int, start as int),
            ) + chars@.subrange(start as int, end as int),
        decreases start,
    {
        assert(chars@.subrange(from as int, start as int).drop_last() =~= chars@.subrange(
            from as int,
            start - 1,
        ));
        assert(last_word(chars@.subrange(from as int, start - 1)).push(chars@[start - 1])
            + chars@.subrange(start as int, end as int) =~= last_word(
            chars@.subrange(from as int, start - 1),
        ) + chars@.subrange(start - 1, end as int));
        start -= 1;
    }
    assert(last_word(chars@.subrange(from as int, start as int)) =~= Seq::<char>::empty());
    assert(Seq::<char>::empty() + chars@.subrange(start as int, end as int) =~= chars@.subrange(
        start as int,
        end as int,
    ));
    (start, end)
}

fn find_close(chars: &Vec<char>, from: usize, to: usize, skip: usize) -> (close: usize)
    requires
        from <= to <= chars.len(),
    ensures
        close == first_close(chars@.subrange(from as int, to as int), skip as int),
        close <= to - from,
        close < to - from ==> close + 3 <= to - from,
{
    let ghost line = chars@.subrange(from as int, to as int);
    let len = to - from;
    let mut k: usize = skip;
    while k < len && len - k >= 3
        invariant
            from <= to <= chars.len(),
            len == to - from,
            line == chars@.subrange(from as int, to as int),
            skip <= k,
            first_close(line, skip as int) == first_close(line, k as int),
        decreases len - k,
    {
        if chars[from + k] == ')' && chars[from + k + 1] == ']' && chars[from + k + 2] == ' ' {
            return k;
        }
        k += 1;
    }
    len
}

/// The markers of the grammar, as characters.
struct Markers {
    enter: Vec<char>,
    exit: Vec<char>,
    value: Vec<char>,
    value_open: Vec<char>,
}

impl Markers {
    spec fn wf(&self) -> bool {
        &&& self.enter@ == enter_marker()
        &&& self.exit@ == exit_marker()
        &&& self.value@ == value_marker()
        &&& self.value_open@ == value_open()
    }

    fn new() -> (m: Markers)
        ensures
            m.wf(),
    {
        Markers {
            enter: to_chars("[DEBUG:func_enter"),
            exit: to_chars("[DEBUG:func_exit"),
            value: to_chars("[DEBUG:value"),
            value_open: to_chars("[DEBUG:value("),
        }
    }
}

fn line_record(chars: &Vec<char>, from: usize, to: usize, markers: &Markers) -> (record: Option<
    TraceLine,
>)
    requires
        from <= to <= chars.len(),
        markers.wf(),
    ensures
        record.is_some() == event_of_line(chars@.subrange(from as int, to as int)).is_some(),
        record matches Some(r) ==> Some(r@) == event_of_line(
            chars@.subrange(from as int, to as int),
        ),
{
    let ghost line = chars@.subrange(from as int, to as int);
    if starts_with(chars, from, to, &markers.enter) {
        let (start, end) = last_token_bounds(chars, from, to);
        Some(TraceLine::Enter(string_between(chars, start, end)))
    } else if starts_with(chars, from, to, &markers.exit) {
        Some(TraceLine::Exit)
    } else if starts_with(chars, from, to, &markers.value) {
        if starts_with(chars, from, to, &markers.value_open) {
            let close = find_close(chars, from, to, markers.value_open.len());
            if close < to - from {
                assert(chars@.subrange(from + close + 3, to as int) =~= line.subrange(
                    close + 3,
                    line.len() as int,
                ));
                return Some(TraceLine::Value(string_between(chars, from + close + 3, to)));
            }
        }
        Some(TraceLine::Value(string_between(chars, from, to)))
    } else {
        None
    }
}

/// The record that `line` holds, if it is one. The name of an entry
/// record is never empty.
pub fn parse_line(line: &str) -> (record: Option<TraceLine>)
    ensures
        record.is_some() == event_of_line(line@).is_some(),
        record matches Some(r) ==> Some(r@) == event_of_line(line@),
        record matches Some(TraceLine::Enter(name)) ==> name@.len() > 0,
{
    let chars = to_chars(line);
    let markers = Markers::new();
    assert(chars@.subrange(0, chars@.len() as int) =~= line@);
    proof {
        if enter_marker().is_prefix_of(line@) {
            lemma_enter_line_has_name(line@);
        }
    }
    line_record(&chars, 0, chars.len(), &markers)
}

/// The records of the trace `text`, in their order.
pub fn parse_trace(text: &str) -> (records: Vec<TraceLine>)
    ensures
        events_view(records@) == trace_events(text@),
{
    let chars = to_chars(text);
    let markers = Markers::new();
    let mut records: Vec<TraceLine> = Vec::new();
    let mut pos: usize = 0;
    let ghost mut done: Seq<Seq<char>> = Seq::empty();
    assert(done + lines_from(chars@, 0) =~= lines(chars@));
    assert(events_view(records@) =~= events_of(done));
    while pos < chars.len()
        invariant
            pos <= chars.len(),
            markers.wf(),
            chars@ == text@,
            done + lines_from(chars@, pos as int) == lines(chars@),
            events_view(records@) == events_of(done),
        decreases chars.len() - pos,
    {
        let end = find_newline(&chars, pos);
        let stop = if end < chars.len() && pos < end && chars[end - 1] == '\r' {
            end - 1
        } else {
            end
        };
        let ghost line = line_between(chars@, pos as int, end as int);
        assert(line == chars@.subrange(pos as int, stop as int));
        let record = line_record(&chars, pos, stop, &markers);
        proof {
            let next = done.push(line);
            assert(next.drop_last() =~= done);
            if end < chars.len() {
                assert(next + lines_from(chars@, end + 1) =~= done + lines_from(
                    chars@,
                    pos as int,
                ));
            } else {
                assert(next + lines_from(chars@, end as int) =~= done + lines_from(
                    chars@,
                    pos as int,
                ));
            }
            done = next;
        }
        let ghost before = records@;
        match record {
            Some(r) => {
                records.push(r);
                assert(events_view(records@) =~= events_view(before).push(r@));
            },
            None => {},
        }
        if end < chars.len() {
            pos = end + 1;
        } else {
            pos = end;
        }
    }
    assert(lines_from(chars@, pos as int) =~= Seq::<Seq<char>>::empty());
    assert(done + Seq::<Seq<char>>::empty() =~= done);
    records
}

} // verus!
