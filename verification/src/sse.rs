//! Server-sent events: the framing in which the MCP server may wrap a response.
//!
//! Events are separated by blank lines, and each carries its message across
//! one or more `data:` lines.
use vstd::prelude::*;
use crate::json::{Json, JsonView, json_parsed, parse_json};
use crate::text::{
    chars_of, find_from, joined, join, lemma_find_from, lines, lines_of, lists, mentions, occurs_at, split,
    split_on, string_of, texts,
};

verus! {

/// `s` with each carriage return that a line feed follows dropped; the line feed
/// stays.
pub open spec fn line_fed(s: Seq<char>) -> Seq<char>
    decreases s.len(),
{
    if s.len() == 0 {
        seq![]
    } else if s.len() >= 2 && s[0] == '\r' && s[1] == '\n' {
        seq!['\n'] + line_fed(s.skip(2))
    } else {
        seq![s[0]] + line_fed(s.skip(1))
    }
}

/// What a `data:` line carries: the rest of the line, less one space in front.
pub open spec fn data_of(line: Seq<char>) -> Option<Seq<char>> {
    if "data:"@.is_prefix_of(line) {
        let rest = line.skip(5);
        if rest.len() > 0 && rest[0] == ' ' {
            Some(rest.skip(1))
        } else {
            Some(rest)
        }
    } else {
        None
    }
}

/// What the `data:` lines among `lines` carry, in order.
pub open spec fn data_lines(lines: Seq<Seq<char>>) -> Seq<Seq<char>>
    decreases lines.len(),
{
    if lines.len() == 0 {
        seq![]
    } else {
        match data_of(lines.last()) {
            Some(data) => data_lines(lines.drop_last()).push(data),
            None => data_lines(lines.drop_last()),
        }
    }
}

/// The message text of an event; none where it has no `data:` line.
pub open spec fn event_data(event: Seq<char>) -> Option<Seq<char>> {
    let data = data_lines(lines_of(event));
    if data.len() == 0 {
        None
    } else {
        Some(joined(data, "\n"@))
    }
}

/// The message texts of the events that have one, in order.
pub open spec fn events_data(events: Seq<Seq<char>>) -> Seq<Seq<char>>
    decreases events.len(),
{
    if events.len() == 0 {
        seq![]
    } else {
        match event_data(events.last()) {
            Some(data) => events_data(events.drop_last()).push(data),
            None => events_data(events.drop_last()),
        }
    }
}

/// The message texts that an SSE-framed body carries, in order.
pub open spec fn sse_payloads(body: Seq<char>) -> Seq<Seq<char>> {
    events_data(split_on(line_fed(body), "\n\n"@))
}

/// Drops each carriage return that a line feed follows.
fn feed_lines(chars: &Vec<char>) -> (r: Vec<char>)
    ensures
        r@ == line_fed(chars@),
{
    let mut out: Vec<char> = Vec::new();
    let mut i: usize = 0;
    assert(chars@.skip(0) =~= chars@);
    assert(out@ + line_fed(chars@) =~= line_fed(chars@));
    while i < chars.len()
        invariant
            i <= chars@.len(),
            line_fed(chars@) == out@ + line_fed(chars@.skip(i as int)),
        decreases chars@.len() - i,
    {
        let ghost before = out@;
        let ghost rest = chars@.skip(i as int);
        if chars[i] == '\r' && chars.len() - i >= 2 && chars[i + 1] == '\n' {
            assert(rest.skip(2) =~= chars@.skip(i + 2));
            out.push('\n');
            i += 2;
        } else {
            assert(rest.skip(1) =~= chars@.skip(i + 1));
            out.push(chars[i]);
            i += 1;
        }
        assert(line_fed(chars@) =~= out@ + line_fed(chars@.skip(i as int)));
    }
    assert(chars@.skip(i as int) =~= seq![]);
    assert(out@ + line_fed(chars@.skip(i as int)) =~= out@);
    out
}

/// What a `data:` line carries.
fn line_data(line: &Vec<char>) -> (r: Option<String>)
    ensures
        r.deep_view() == data_of(line@),
{
    proof {
        reveal_strlit("data:");
    }
    if line.len() >= 5 && line[0] == 'd' && line[1] == 'a' && line[2] == 't' && line[3] == 'a'
        && line[4] == ':' {
        assert("data:"@ =~= line@.subrange(0, 5));
        let from: usize = if line.len() > 5 && line[5] == ' ' {
            6
        } else {
            5
        };
        let data = string_of(line, from, line.len());
        assert(data@ =~= if from == 6 {
            line@.skip(5).skip(1)
        } else {
            line@.skip(5)
        });
        Some(data)
    } else {
        assert(!"data:"@.is_prefix_of(line@)) by {
            if "data:"@.is_prefix_of(line@) {
                assert(forall|i: int| 0 <= i < 5 ==> line@.subrange(0, 5)[i] == line@[i]);
                assert("data:"@[0] == line@[0] && "data:"@[1] == line@[1] && "data:"@[2] == line@[2]
                    && "data:"@[3] == line@[3] && "data:"@[4] == line@[4]);
            }
        }
        None
    }
}

/// The message text of an event; none where it has no `data:` line.
fn event_text(event: &Vec<char>) -> (r: Option<String>)
    ensures
        r.deep_view() == event_data(event@),
{
    let all = lines(event);
    let ghost views = lists(all@);
    let mut data: Vec<String> = Vec::new();
    let mut i: usize = 0;
    assert(views.take(0) =~= seq![]);
    assert(texts(data@) =~= seq![]);
    while i < all.len()
        invariant
            i <= all@.len(),
            views == lists(all@),
            texts(data@) == data_lines(views.take(i as int)),
        decreases all@.len() - i,
    {
        let ghost before = texts(data@);
        assert(views.take(i + 1).drop_last() =~= views.take(i as int));
        match line_data(&all[i]) {
            Some(d) => {
                data.push(d);
                assert(texts(data@) =~= before.push(d@));
            },
            None => {},
        }
        i += 1;
    }
    assert(views.take(i as int) =~= views);
    assert(texts(data@).len() == data@.len());
    if data.len() == 0 {
        None
    } else {
        Some(join(&data, "\n"))
    }
}

/// The message texts that an SSE-framed body carries, in order.
pub fn sse_texts(body: &str) -> (r: Vec<String>)
    ensures
        texts(r@) == sse_payloads(body@),
{
    let chars = feed_lines(&chars_of(body));
    let blank = chars_of("\n\n");
    proof {
        reveal_strlit("\n\n");
    }
    let events = split(&chars, &blank);
    let ghost views = lists(events@);
    let mut out: Vec<String> = Vec::new();
    let mut i: usize = 0;
    assert(views.take(0) =~= seq![]);
    assert(texts(out@) =~= seq![]);
    while i < events.len()
        invariant
            i <= events@.len(),
            views == lists(events@),
            texts(out@) == events_data(views.take(i as int)),
        decreases events@.len() - i,
    {
        let ghost before = texts(out@);
        assert(views.take(i + 1).drop_last() =~= views.take(i as int));
        match event_text(&events[i]) {
            Some(data) => {
                out.push(data);
                assert(texts(out@) =~= before.push(data@));
            },
            None => {},
        }
        i += 1;
    }
    assert(views.take(i as int) =~= views);
    out
}

// ── Choosing the response ─────────────────────────────────────────────
/// Whether `message` is a JSON-RPC response: it has a `result` or an `error`.
/// Anything else is a notification or a ping.
pub open spec fn is_response(message: JsonView) -> bool {
    message.get("result"@) is Some || message.get("error"@) is Some
}

/// Whether `message` is the JSON-RPC response to the request `id`.
pub open spec fn answers(message: JsonView, id: u64) -> bool {
    is_response(message) && message.get("id"@) == Some(JsonView::Int(id as int))
}

/// The first of `messages` that answers the request `id`.
pub open spec fn first_answer(messages: Seq<Option<JsonView>>, id: u64) -> Option<JsonView>
    decreases messages.len(),
{
    if messages.len() == 0 {
        None
    } else if messages[0] is Some && answers(messages[0]->0, id) {
        messages[0]
    } else {
        first_answer(messages.skip(1), id)
    }
}

/// The last of `messages` that is a response.
pub open spec fn last_response(messages: Seq<Option<JsonView>>) -> Option<JsonView>
    decreases messages.len(),
{
    if messages.len() == 0 {
        None
    } else if messages.last() is Some && is_response(messages.last()->0) {
        messages.last()
    } else {
        last_response(messages.drop_last())
    }
}

/// The response to the request `id` among `messages`: the first that answers
/// it, or else the last response of all.
pub open spec fn chosen(messages: Seq<Option<JsonView>>, id: u64) -> Option<JsonView> {
    match first_answer(messages, id) {
        Some(message) => Some(message),
        None => last_response(messages),
    }
}

/// What `text` says, where it is JSON.
pub open spec fn readable(text: Seq<char>) -> Option<JsonView> {
    match json_parsed(text) {
        Ok(value) => Some(value),
        Err(_) => None,
    }
}

/// What each of `texts` says, where it is JSON.
pub open spec fn all_readable(texts: Seq<Seq<char>>) -> Seq<Option<JsonView>> {
    texts.map_values(|text: Seq<char>| readable(text))
}

/// Picks the response to the request `want_id` out of the messages of a
/// stream, of which those that are no JSON are missing: the first that answers
/// it, or else the last response of all (the server streams only responses to
/// the client's own request).
pub fn choose_response(messages: &Vec<Option<Json>>, want_id: u64) -> (r: Option<Json>)
    ensures
        r.deep_view() == chosen(messages.deep_view(), want_id),
{
    let ghost all = messages.deep_view();
    let mut fallback: Option<usize> = None;
    let mut i: usize = 0;
    assert(all.skip(0) =~= all);
    assert(all.take(0) =~= seq![]);
    while i < messages.len()
        invariant
            i <= messages@.len(),
            all == messages.deep_view(),
            first_answer(all, want_id) == first_answer(all.skip(i as int), want_id),
            match fallback {
                Some(j) => j < messages@.len() && all[j as int] is Some && last_response(
                    all.take(i as int),
                ) == all[j as int],
                None => last_response(all.take(i as int)) is None,
            },
        decreases messages@.len() - i,
    {
        assert(all.skip(i as int).skip(1) =~= all.skip(i + 1));
        assert(all.take(i + 1).drop_last() =~= all.take(i as int));
        assert(all.take(i + 1).last() == all[i as int]);
        match &messages[i] {
            Some(message) => {
                if message.get("result").is_some() || message.get("error").is_some() {
                    let id: Option<u64> = match message.get("id") {
                        Some(id) => id.as_u64(),
                        None => None,
                    };
                    if id == Some(want_id) {
                        return Some(message.clone());
                    }
                    fallback = Some(i);
                }
            },
            None => {},
        }
        i += 1;
    }
    assert(all.take(i as int) =~= all);
    assert(all.skip(i as int) =~= seq![]);
    match fallback {
        Some(j) => match &messages[j] {
            Some(message) => Some(message.clone()),
            None => None,
        },
        None => None,
    }
}

/// Pull the JSON-RPC response for `want_id` out of an SSE-framed body. Falls
/// back to the last complete message when ids don't line up.
pub fn parse_sse_message(body: &str, want_id: u64) -> (r: Option<Json>)
    ensures
        r.deep_view() == chosen(all_readable(sse_payloads(body@)), want_id),
{
    let payloads = sse_texts(body);
    let ghost views = texts(payloads@);
    let mut messages: Vec<Option<Json>> = Vec::new();
    let mut i: usize = 0;
    while i < payloads.len()
        invariant
            i <= payloads@.len(),
            views == texts(payloads@),
            messages@.len() == i,
            forall|j: int|
                0 <= j < i ==> (#[trigger] messages@[j]).deep_view() == readable(views[j]),
        decreases payloads@.len() - i,
    {
        match parse_json(payloads[i].as_str()) {
            Ok(message) => messages.push(Some(message)),
            Err(_) => messages.push(None),
        }
        i += 1;
    }
    assert(messages.deep_view() =~= all_readable(views));
    choose_response(&messages, want_id)
}

// ── Laws ──────────────────────────────────────────────────────────────
/// Whether `s` holds no carriage return.
pub open spec fn no_return(s: Seq<char>) -> bool {
    forall|i: int| 0 <= i < s.len() ==> #[trigger] s[i] != '\r'
}

/// Whether `s` can stand on a line of an event: it is not empty and holds no
/// line end.
pub open spec fn is_event_line(s: Seq<char>) -> bool {
    &&& s.len() > 0
    &&& forall|i: int| 0 <= i < s.len() ==> #[trigger] s[i] != '\n' && s[i] != '\r'
}

/// Whether `lines` make up an event: there is one, and each can stand on a
/// line.
pub open spec fn is_event(lines: Seq<Seq<char>>) -> bool {
    &&& lines.len() > 0
    &&& forall|i: int| 0 <= i < lines.len() ==> is_event_line(#[trigger] lines[i])
}

/// `s` with a carriage return in front of every line feed.
pub open spec fn with_returns(s: Seq<char>) -> Seq<char>
    decreases s.len(),
{
    if s.len() == 0 {
        seq![]
    } else if s[0] == '\n' {
        seq!['\r', '\n'] + with_returns(s.skip(1))
    } else {
        seq![s[0]] + with_returns(s.skip(1))
    }
}

/// The stream that carries `events`, each as its lines and a blank line.
pub open spec fn stream_of(events: Seq<Seq<Seq<char>>>) -> Seq<char>
    decreases events.len(),
{
    if events.len() == 0 {
        seq![]
    } else {
        joined(events[0], "\n"@) + "\n\n"@ + stream_of(events.skip(1))
    }
}

/// The message texts that `events` carry.
pub open spec fn carried_by(events: Seq<Seq<Seq<char>>>) -> Seq<Seq<char>>
    decreases events.len(),
{
    if events.len() == 0 {
        seq![]
    } else {
        let data = data_lines(events.last());
        if data.len() == 0 {
            carried_by(events.drop_last())
        } else {
            carried_by(events.drop_last()).push(joined(data, "\n"@))
        }
    }
}

/// `line` on a `data:` line.
pub open spec fn as_data(line: Seq<char>) -> Seq<char> {
    "data: "@ + line
}

/// Each of `lines` on a `data:` line.
pub open spec fn all_as_data(lines: Seq<Seq<char>>) -> Seq<Seq<char>> {
    lines.map_values(|line: Seq<char>| as_data(line))
}

proof fn lemma_line_fed_without_returns(s: Seq<char>)
    requires
        no_return(s),
    ensures
        line_fed(s) == s,
    decreases s.len(),
{
    if s.len() > 0 {
        assert(no_return(s.skip(1)));
        lemma_line_fed_without_returns(s.skip(1));
        assert(seq![s[0]] + s.skip(1) =~= s);
    } else {
        assert(line_fed(s) =~= s);
    }
}

proof fn lemma_line_fed_with_returns(s: Seq<char>)
    requires
        no_return(s),
    ensures
        line_fed(with_returns(s)) == s,
    decreases s.len(),
{
    if s.len() > 0 {
        let rest = s.skip(1);
        assert(no_return(rest));
        lemma_line_fed_with_returns(rest);
        assert(seq![s[0]] + rest =~= s);
        if s[0] == '\n' {
            assert(with_returns(s).skip(2) =~= with_returns(rest));
        } else {
            assert(s[0] != '\r');
            assert(with_returns(s).skip(1) =~= with_returns(rest));
        }
    } else {
        assert(line_fed(with_returns(s)) =~= s);
    }
}

/// A stream with line feeds alone and the same stream with carriage returns in
/// front of them carry the same message texts.
pub proof fn line_ends_make_no_difference(body: Seq<char>)
    requires
        no_return(body),
    ensures
        sse_payloads(with_returns(body)) == sse_payloads(body),
{
    lemma_line_fed_with_returns(body);
    lemma_line_fed_without_returns(body);
}

proof fn lemma_joined_front(parts: Seq<Seq<char>>, separator: Seq<char>)
    requires
        parts.len() >= 2,
    ensures
        joined(parts, separator) == parts[0] + separator + joined(parts.skip(1), separator),
    decreases parts.len(),
{
    if parts.len() == 2 {
        assert(parts.drop_last() =~= seq![parts[0]]);
        assert(parts.skip(1) =~= seq![parts[1]]);
        assert(joined(parts.skip(1), separator) == parts[1]);
        assert(joined(parts.drop_last(), separator) == parts[0]);
    } else {
        lemma_joined_front(parts.drop_last(), separator);
        assert(parts.drop_last().skip(1) =~= parts.skip(1).drop_last());
        assert(parts[0] + separator + joined(parts.skip(1), separator) =~= parts[0] + separator
            + joined(parts.drop_last().skip(1), separator) + separator + parts.last());
    }
}

proof fn lemma_joined_lines(lines: Seq<Seq<char>>)
    requires
        is_event(lines),
    ensures
        ({
            let text = joined(lines, "\n"@);
            &&& text.len() > 0
            &&& text.last() != '\n'
            &&& no_return(text)
            &&& forall|j: int|
                0 <= j < text.len() && #[trigger] text[j] == '\n' ==> j + 1 < text.len() && text[j
                    + 1] != '\n'
        }),
    decreases lines.len(),
{
    reveal_strlit("\n");
    let text = joined(lines, "\n"@);
    if lines.len() == 1 {
        assert(is_event_line(lines[0]));
    } else {
        let front = lines.drop_last();
        assert(forall|i: int| 0 <= i < front.len() ==> front[i] == lines[i]);
        assert(is_event(front));
        lemma_joined_lines(front);
        let before = joined(front, "\n"@);
        let last = lines.last();
        assert(is_event_line(last));
        assert(text == before + "\n"@ + last);
        assert forall|j: int| 0 <= j < text.len() && #[trigger] text[j] == '\n' implies j + 1
            < text.len() && text[j + 1] != '\n' by {
            if j < before.len() {
                assert(text[j] == before[j]);
                assert(text[j + 1] == before[j + 1]);
            } else if j == before.len() {
                assert(text[j + 1] == last[0]);
            } else {
                assert(text[j] == last[j - before.len() - 1]);
            }
        }
        assert forall|i: int| 0 <= i < text.len() implies #[trigger] text[i] != '\r' by {
            if i < before.len() {
                assert(text[i] == before[i]);
            } else if i > before.len() {
                assert(text[i] == last[i - before.len() - 1]);
            }
        }
    }
}

proof fn lemma_lines_of_joined(lines: Seq<Seq<char>>)
    requires
        is_event(lines),
    ensures
        lines_of(joined(lines, "\n"@)) == lines,
    decreases lines.len(),
{
    reveal_strlit("\n");
    let text = joined(lines, "\n"@);
    let first = lines[0];
    let feed = seq!['\n'];
    assert(is_event_line(first));
    lemma_joined_lines(lines);
    lemma_find_from(text, feed, 0);
    if lines.len() == 1 {
        assert forall|j: int| !#[trigger] occurs_at(text, feed, j) by {
            if occurs_at(text, feed, j) {
                assert(text.subrange(j, j + 1)[0] == text[j]);
            }
        }
        assert(lines_of(text) =~= lines);
    } else {
        let rest = lines.skip(1);
        assert(forall|i: int| 0 <= i < rest.len() ==> rest[i] == lines[i + 1]);
        assert(is_event(rest));
        lemma_joined_front(lines, "\n"@);
        lemma_lines_of_joined(rest);
        let n = first.len() as int;
        assert(text.subrange(n, n + 1) =~= feed);
        assert(occurs_at(text, feed, n));
        assert forall|j: int| 0 <= j < n implies !#[trigger] occurs_at(text, feed, j) by {
            if occurs_at(text, feed, j) {
                assert(text.subrange(j, j + 1)[0] == text[j] == first[j]);
            }
        }
        assert(find_from(text, feed, 0) == Some(n));
        assert(text.take(n) =~= first);
        assert(text.skip(n + 1) =~= joined(rest, "\n"@));
        assert(lines_of(text) =~= lines);
    }
}

proof fn lemma_split_event(lines: Seq<Seq<char>>, rest: Seq<char>)
    requires
        is_event(lines),
    ensures
        split_on(joined(lines, "\n"@) + "\n\n"@ + rest, "\n\n"@) == seq![joined(lines, "\n"@)]
            + split_on(rest, "\n\n"@),
{
    reveal_strlit("\n\n");
    let text = joined(lines, "\n"@);
    let blank = "\n\n"@;
    let s = text + blank + rest;
    let n = text.len() as int;
    lemma_joined_lines(lines);
    lemma_find_from(s, blank, 0);
    assert(s.subrange(n, n + 2) =~= blank);
    assert(occurs_at(s, blank, n));
    assert forall|j: int| 0 <= j < n implies !#[trigger] occurs_at(s, blank, j) by {
        if occurs_at(s, blank, j) {
            assert(s.subrange(j, j + 2)[0] == s[j] == text[j]);
            assert(s.subrange(j, j + 2)[1] == s[j + 1]);
        }
    }
    assert(find_from(s, blank, 0) == Some(n));
    assert(s.take(n) =~= text);
    assert(s.skip(n + 2) =~= rest);
}

proof fn lemma_split_stream(events: Seq<Seq<Seq<char>>>)
    requires
        forall|i: int| 0 <= i < events.len() ==> is_event(#[trigger] events[i]),
    ensures
        no_return(stream_of(events)),
        split_on(stream_of(events), "\n\n"@) == events.map_values(
            |lines: Seq<Seq<char>>| joined(lines, "\n"@),
        ).push(seq![]),
    decreases events.len(),
{
    reveal_strlit("\n\n");
    let texts = events.map_values(|lines: Seq<Seq<char>>| joined(lines, "\n"@));
    if events.len() == 0 {
        assert(find_from(stream_of(events), "\n\n"@, 0) is None);
        assert(split_on(stream_of(events), "\n\n"@) =~= texts.push(seq![]));
    } else {
        let rest = events.skip(1);
        assert(forall|i: int| 0 <= i < rest.len() ==> rest[i] == events[i + 1]);
        lemma_split_stream(rest);
        assert(is_event(events[0]));
        lemma_split_event(events[0], stream_of(rest));
        lemma_joined_lines(events[0]);
        assert(split_on(stream_of(events), "\n\n"@) =~= texts.push(seq![]));
    }
}

proof fn lemma_carried_by(events: Seq<Seq<Seq<char>>>)
    requires
        forall|i: int| 0 <= i < events.len() ==> is_event(#[trigger] events[i]),
    ensures
        events_data(events.map_values(|lines: Seq<Seq<char>>| joined(lines, "\n"@))) == carried_by(
            events,
        ),
    decreases events.len(),
{
    let texts = events.map_values(|lines: Seq<Seq<char>>| joined(lines, "\n"@));
    if events.len() > 0 {
        let front = events.drop_last();
        assert(forall|i: int| 0 <= i < front.len() ==> front[i] == events[i]);
        lemma_carried_by(front);
        assert(texts.drop_last() =~= front.map_values(
            |lines: Seq<Seq<char>>| joined(lines, "\n"@),
        ));
        assert(is_event(events.last()));
        lemma_lines_of_joined(events.last());
    }
}

/// What a stream of events carries is read back from it: the texts on the
/// `data:` lines of each event that has one, and nothing else.
pub proof fn stream_is_read_back(events: Seq<Seq<Seq<char>>>)
    requires
        forall|i: int| 0 <= i < events.len() ==> is_event(#[trigger] events[i]),
    ensures
        sse_payloads(stream_of(events)) == carried_by(events),
{
    lemma_split_stream(events);
    lemma_line_fed_without_returns(stream_of(events));
    lemma_carried_by(events);
    let texts = events.map_values(|lines: Seq<Seq<char>>| joined(lines, "\n"@));
    assert(texts.push(seq![]).drop_last() =~= texts);
    assert(lines_of(seq![]) =~= seq![]);
}

proof fn lemma_data_of_as_data(line: Seq<char>)
    ensures
        data_of(as_data(line)) == Some(line),
{
    reveal_strlit("data: ");
    reveal_strlit("data:");
    assert("data:"@ =~= as_data(line).subrange(0, 5));
    assert(as_data(line).skip(5).skip(1) =~= line);
}

proof fn lemma_data_lines_of_data(lines: Seq<Seq<char>>)
    ensures
        data_lines(all_as_data(lines)) == lines,
    decreases lines.len(),
{
    if lines.len() > 0 {
        lemma_data_lines_of_data(lines.drop_last());
        assert(all_as_data(lines).drop_last() =~= all_as_data(lines.drop_last()));
        lemma_data_of_as_data(lines.last());
        assert(lines.drop_last().push(lines.last()) =~= lines);
    } else {
        assert(data_lines(all_as_data(lines)) =~= lines);
    }
}

/// A message text written across the `data:` lines of one event, whatever
/// other lines stand in front of them, is what the stream carries.
pub proof fn message_is_read_back(fields: Seq<Seq<char>>, lines: Seq<Seq<char>>)
    requires
        lines.len() > 0,
        forall|i: int|
            0 <= i < fields.len() ==> is_event_line(#[trigger] fields[i]) && data_of(fields[i])
                is None,
        forall|i: int|
            0 <= i < lines.len() ==> is_event_line(as_data(#[trigger] lines[i])),
    ensures
        sse_payloads(stream_of(seq![fields + all_as_data(lines)])) == seq![joined(lines, "\n"@)],
{
    let event = fields + all_as_data(lines);
    let events = seq![event];
    assert forall|i: int| 0 <= i < event.len() implies is_event_line(#[trigger] event[i]) by {
        if i < fields.len() {
            assert(event[i] == fields[i]);
        } else {
            assert(event[i] == as_data(lines[i - fields.len()]));
        }
    }
    assert(is_event(event));
    stream_is_read_back(events);
    lemma_data_lines_behind(fields, all_as_data(lines));
    lemma_data_lines_of_data(lines);
    assert(events.drop_last() =~= seq![]);
    assert(carried_by(events.drop_last()) =~= seq![]);
    assert(data_lines(events.last()) == lines);
    assert(carried_by(events) =~= seq![joined(lines, "\n"@)]);
}

proof fn lemma_data_lines_behind(fields: Seq<Seq<char>>, lines: Seq<Seq<char>>)
    requires
        forall|i: int| 0 <= i < fields.len() ==> data_of(#[trigger] fields[i]) is None,
    ensures
        data_lines(fields + lines) == data_lines(lines),
    decreases fields.len() + lines.len(),
{
    if lines.len() > 0 {
        lemma_data_lines_behind(fields, lines.drop_last());
        assert((fields + lines).drop_last() =~= fields + lines.drop_last());
        assert((fields + lines).last() == lines.last());
    } else if fields.len() > 0 {
        let front = fields.drop_last();
        assert(forall|i: int| 0 <= i < front.len() ==> front[i] == fields[i]);
        lemma_data_lines_behind(front, lines);
        assert((fields + lines).drop_last() =~= front + lines);
        assert((fields + lines).last() == fields.last());
    } else {
        assert(fields + lines =~= lines);
    }
}

/// A stream has a response to give wherever one of its messages is one, and
/// gives nothing that is none.
pub proof fn chosen_is_a_response(messages: Seq<Option<JsonView>>, id: u64)
    ensures
        match chosen(messages, id) {
            Some(message) => is_response(message) && messages.contains(Some(message)),
            None => forall|i: int|
                0 <= i < messages.len() ==> !(#[trigger] messages[i] is Some && is_response(
                    messages[i]->0,
                )),
        },
{
    lemma_first_answer(messages, id);
    lemma_last_response(messages);
}

/// The response whose id is the request's wins over every other response.
pub proof fn matching_id_wins(messages: Seq<Option<JsonView>>, id: u64, at: int)
    requires
        0 <= at < messages.len(),
        messages[at] is Some,
        answers(messages[at]->0, id),
    ensures
        chosen(messages, id) matches Some(message) && answers(message, id),
{
    lemma_first_answer(messages, id);
}

proof fn lemma_first_answer(messages: Seq<Option<JsonView>>, id: u64)
    ensures
        match first_answer(messages, id) {
            Some(message) => answers(message, id) && messages.contains(Some(message)),
            None => forall|i: int|
                0 <= i < messages.len() ==> !(#[trigger] messages[i] is Some && answers(
                    messages[i]->0,
                    id,
                )),
        },
    decreases messages.len(),
{
    if messages.len() > 0 && !(messages[0] is Some && answers(messages[0]->0, id)) {
        let rest = messages.skip(1);
        lemma_first_answer(rest, id);
        assert(forall|i: int| 0 < i < messages.len() ==> messages[i] == rest[i - 1]);
        if first_answer(rest, id) is Some {
            let i = choose|i: int| 0 <= i < rest.len() && rest[i] == first_answer(rest, id);
            assert(messages[i + 1] == rest[i]);
        }
    }
}

proof fn lemma_last_response(messages: Seq<Option<JsonView>>)
    ensures
        match last_response(messages) {
            Some(message) => is_response(message) && messages.contains(Some(message)),
            None => forall|i: int|
                0 <= i < messages.len() ==> !(#[trigger] messages[i] is Some && is_response(
                    messages[i]->0,
                )),
        },
    decreases messages.len(),
{
    if messages.len() > 0 && !(messages.last() is Some && is_response(messages.last()->0)) {
        let front = messages.drop_last();
        lemma_last_response(front);
        assert(forall|i: int| 0 <= i < front.len() ==> messages[i] == front[i]);
        if last_response(front) is Some {
            let i = choose|i: int| 0 <= i < front.len() && front[i] == last_response(front);
            assert(messages[i] == front[i]);
        }
    }
}

/// A carriage return goes where a line feed follows it, and stays anywhere else:
/// what stands before the first such pair is kept, and the rest is read in turn.
pub proof fn returns_before_line_feeds_go(front: Seq<char>, rest: Seq<char>)
    requires
        !mentions(front, seq!['\r', '\n']),
    ensures
        line_fed(front) == front,
        line_fed(front + seq!['\r', '\n'] + rest) == front + seq!['\n'] + line_fed(rest),
    decreases front.len(),
{
    let pair = seq!['\r', '\n'];
    let all = front + pair + rest;
    if front.len() == 0 {
        assert(all.skip(2) =~= rest);
        assert(line_fed(all) =~= front + seq!['\n'] + line_fed(rest));
    } else {
        let tail = front.skip(1);
        if front.len() >= 2 && front[0] == '\r' && front[1] == '\n' {
            assert(front.subrange(0, 2) =~= pair);
            assert(occurs_at(front, pair, 0));
        }
        assert(!mentions(tail, pair)) by {
            if mentions(tail, pair) {
                let at = choose|at: int| #[trigger] occurs_at(tail, pair, at);
                assert(front.subrange(at + 1, at + 3) =~= tail.subrange(at, at + 2));
                assert(occurs_at(front, pair, at + 1));
            }
        }
        returns_before_line_feeds_go(tail, rest);
        assert(all.skip(1) =~= tail + pair + rest);
        assert(all[0] == front[0]);
        assert(front.len() >= 2 ==> all[1] == front[1]);
        assert(front.len() == 1 ==> all[1] == '\r');
        assert(line_fed(all) =~= seq![front[0]] + (tail + seq!['\n'] + line_fed(rest)));
        assert(line_fed(front) =~= seq![front[0]] + tail);
        assert(front =~= seq![front[0]] + tail);
    }
}

/// A line that starts with `data:` carries what follows, less one space in
/// front, and no other line carries anything.
pub proof fn data_lines_carry_the_rest(line: Seq<char>, rest: Seq<char>)
    ensures
        data_of("data: "@ + rest) == Some(rest),
        rest.len() == 0 || rest[0] != ' ' ==> data_of("data:"@ + rest) == Some(rest),
        !"data:"@.is_prefix_of(line) ==> data_of(line) is None,
{
    lemma_data_of_as_data(rest);
    reveal_strlit("data:");
    let plain = "data:"@ + rest;
    assert("data:"@ =~= plain.subrange(0, 5));
    assert(plain.skip(5) =~= rest);
}

proof fn lemma_data_lines(lines: Seq<Seq<char>>)
    ensures
        data_lines(lines) == lines.filter_map(|line: Seq<char>| data_of(line)),
    decreases lines.len(),
{
    if lines.len() > 0 {
        lemma_data_lines(lines.drop_last());
    }
    assert(data_lines(lines) =~= lines.filter_map(|line: Seq<char>| data_of(line)));
}

proof fn lemma_events_data(events: Seq<Seq<char>>)
    ensures
        events_data(events) == events.filter_map(|event: Seq<char>| event_data(event)),
    decreases events.len(),
{
    if events.len() > 0 {
        lemma_events_data(events.drop_last());
    }
    assert(events_data(events) =~= events.filter_map(|event: Seq<char>| event_data(event)));
}

/// An event carries what its `data:` lines carry, in order and one below the
/// other; one without such a line carries nothing.
pub proof fn events_carry_their_data_lines(event: Seq<char>)
    ensures
        ({
            let data = lines_of(event).filter_map(|line: Seq<char>| data_of(line));
            if data.len() == 0 {
                event_data(event) is None
            } else {
                event_data(event) == Some(joined(data, seq!['\n']))
            }
        }),
{
    reveal_strlit("\n");
    assert("\n"@ =~= seq!['\n']);
    lemma_data_lines(lines_of(event));
}

/// A stream carries what its events carry, in order; blank lines part the
/// events.
pub proof fn streams_carry_their_events(body: Seq<char>)
    ensures
        sse_payloads(body) == split_on(line_fed(body), seq!['\n', '\n']).filter_map(
            |event: Seq<char>| event_data(event),
        ),
{
    reveal_strlit("\n\n");
    assert("\n\n"@ =~= seq!['\n', '\n']);
    lemma_events_data(split_on(line_fed(body), "\n\n"@));
}

/// Whether a message of a stream is a response: it can be read, and has a
/// `result` or an `error`.
pub open spec fn responds(message: Option<JsonView>) -> bool {
    message matches Some(m) && (m.get("result"@) is Some || m.get("error"@) is Some)
}

/// The response to a request is the first that bears its id. Where none does, it
/// is the last response of all, and where there is no response at all, there is
/// none to the request.
pub proof fn responses_are_chosen_by_id(messages: Seq<Option<JsonView>>, id: u64, at: int)
    requires
        0 <= at < messages.len(),
        responds(messages[at]),
    ensures
        ({
            let bears = |m: Option<JsonView>|
                responds(m) && m->0.get("id"@) == Some(JsonView::Int(id as int));
            &&& bears(messages[at]) && (forall|j: int|
                0 <= j < at ==> !bears(#[trigger] messages[j])) ==> chosen(messages, id)
                == messages[at]
            &&& (forall|j: int| 0 <= j < messages.len() ==> !bears(#[trigger] messages[j])) && (
            forall|j: int| at < j < messages.len() ==> !responds(#[trigger] messages[j]))
                ==> chosen(messages, id) == messages[at]
        }),
{
    let bears = |m: Option<JsonView>|
        responds(m) && m->0.get("id"@) == Some(JsonView::Int(id as int));
    if bears(messages[at]) && (forall|j: int| 0 <= j < at ==> !bears(#[trigger] messages[j])) {
        lemma_first_answer_at(messages, id, at);
    }
    if (forall|j: int| 0 <= j < messages.len() ==> !bears(#[trigger] messages[j])) && (forall|j: int|
        at < j < messages.len() ==> !responds(#[trigger] messages[j])) {
        lemma_first_answer(messages, id);
        if first_answer(messages, id) is Some {
            let i = choose|i: int|
                0 <= i < messages.len() && messages[i] == first_answer(messages, id);
            assert(bears(messages[i]));
        }
        lemma_last_response_at(messages, at);
    }
}

/// A stream without a response has none to give.
pub proof fn streams_may_hold_no_response(messages: Seq<Option<JsonView>>, id: u64)
    ensures
        chosen(messages, id) is None <==> forall|j: int|
            0 <= j < messages.len() ==> !responds(#[trigger] messages[j]),
{
    chosen_is_a_response(messages, id);
    if let Some(message) = chosen(messages, id) {
        let i = choose|i: int| 0 <= i < messages.len() && messages[i] == Some(message);
        assert(responds(messages[i]));
    }
}

proof fn lemma_first_answer_at(messages: Seq<Option<JsonView>>, id: u64, at: int)
    requires
        0 <= at < messages.len(),
        messages[at] is Some,
        answers(messages[at]->0, id),
        forall|j: int|
            0 <= j < at ==> !(#[trigger] messages[j] is Some && answers(messages[j]->0, id)),
    ensures
        first_answer(messages, id) == messages[at],
    decreases messages.len(),
{
    if at > 0 {
        assert(!(messages[0] is Some && answers(messages[0]->0, id)));
        let rest = messages.skip(1);
        assert(rest[at - 1] == messages[at]);
        assert(forall|j: int| 0 <= j < at - 1 ==> rest[j] == messages[j + 1]);
        lemma_first_answer_at(rest, id, at - 1);
    }
}

proof fn lemma_last_response_at(messages: Seq<Option<JsonView>>, at: int)
    requires
        0 <= at < messages.len(),
        messages[at] is Some,
        is_response(messages[at]->0),
        forall|j: int|
            at < j < messages.len() ==> !(#[trigger] messages[j] is Some && is_response(
                messages[j]->0,
            )),
    ensures
        last_response(messages) == messages[at],
    decreases messages.len(),
{
    if at < messages.len() - 1 {
        assert(!(messages[messages.len() - 1] is Some && is_response(messages.last()->0)));
        let front = messages.drop_last();
        assert(forall|j: int| 0 <= j < front.len() ==> front[j] == messages[j]);
        lemma_last_response_at(front, at);
    }
}

/// Of the texts of a stream those that are JSON can be read, as what serde_json
/// reads in them, each in its place.
pub proof fn texts_are_read_in_place(texts: Seq<Seq<char>>, i: int, value: JsonView)
    requires
        0 <= i < texts.len(),
    ensures
        all_readable(texts).len() == texts.len(),
        all_readable(texts)[i] == Some(value) <==> json_parsed(texts[i]) == Ok::<
            JsonView,
            Seq<char>,
        >(value),
        all_readable(texts)[i] is None <==> json_parsed(texts[i]) is Err,
{
}

} // verus!
