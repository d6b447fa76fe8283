//! Logs: the sources a client asks for and the stream of events it is sent.
use crate::error::{ApiError, ApiErrorView, HttpStatus};
use crate::seqs::{lemma_all_kept, lemma_filter_prefix, lemma_filter_step};
use crate::text::{
    joined, law_parts_are_those_between_separators, lemma_first_of_is, quoted, quoted_text,
    same_text, split_all, split_text,
};
use crate::time::{is_instant, now, Timestamp};
use vstd::prelude::*;
use vstd::string::*;
use vstd::utf8::{decode_utf8, valid_utf8};

verus! {

// -------------------------------------------------------------------------------------------
// Sources
// -------------------------------------------------------------------------------------------

/// Where a log entry comes from.
#[derive(Debug, Clone, Copy, PartialEq, Eq, Structural)]
pub enum LogSource {
    Stdout,
    Stderr,
    Output,
    System,
}

/// The name of a source.
pub open spec fn source_name(source: LogSource) -> Seq<char> {
    match source {
        LogSource::Stdout => "stdout"@,
        LogSource::Stderr => "stderr"@,
        LogSource::Output => "output"@,
        LogSource::System => "system"@,
    }
}

/// The source that a name stands for.
pub open spec fn source_of_name(name: Seq<char>) -> Option<LogSource> {
    if name == "stdout"@ {
        Some(LogSource::Stdout)
    } else if name == "stderr"@ {
        Some(LogSource::Stderr)
    } else if name == "output"@ {
        Some(LogSource::Output)
    } else if name == "system"@ {
        Some(LogSource::System)
    } else {
        None
    }
}

/// The name of a source.
pub fn log_source_name(source: LogSource) -> (name: &'static str)
    ensures
        name@ == source_name(source),
{
    match source {
        LogSource::Stdout => "stdout",
        LogSource::Stderr => "stderr",
        LogSource::Output => "output",
        LogSource::System => "system",
    }
}

/// The source that a name stands for.
fn log_source(name: &str) -> (source: Option<LogSource>)
    ensures
        source == source_of_name(name@),
{
    if same_text(name, "stdout") {
        Some(LogSource::Stdout)
    } else if same_text(name, "stderr") {
        Some(LogSource::Stderr)
    } else if same_text(name, "output") {
        Some(LogSource::Output)
    } else if same_text(name, "system") {
        Some(LogSource::System)
    } else {
        None
    }
}

/// The names in a comma-separated list, without the empty ones.
pub open spec fn listed_names(list: Seq<char>) -> Seq<Seq<char>> {
    split_all(list, ',').filter(|name: Seq<char>| name.len() > 0)
}

/// The names that are asked for: none where there is no list.
pub open spec fn asked_names(list: Option<Seq<char>>) -> Seq<Seq<char>> {
    match list {
        Some(list) => listed_names(list),
        None => Seq::empty(),
    }
}

/// Whether the name at `i` is the first that stands for no source.
pub open spec fn first_unknown(names: Seq<Seq<char>>, i: int) -> bool {
    &&& 0 <= i < names.len()
    &&& source_of_name(names[i]) is None
    &&& forall|j: int| 0 <= j < i ==> source_of_name(#[trigger] names[j]) is Some
}

/// The refusal of a name that stands for no source, where `quoted_name` is the name in quotes.
pub open spec fn invalid_log_source(quoted_name: Seq<char>) -> ApiErrorView {
    ApiErrorView {
        status: HttpStatus::BadRequest,
        code: "invalid_log_source"@,
        message: "unsupported log source "@ + quoted_name,
    }
}

/// The refusal of a name that stands for no source, where `quoted_name` is the name in quotes.
pub fn unsupported_source(quoted_name: &str) -> (refusal: ApiError)
    ensures
        refusal@ == invalid_log_source(quoted_name@),
{
    let message = joined("unsupported log source ", quoted_name, "");
    proof {
        reveal_strlit("");
        assert("unsupported log source "@ + quoted_name@ + ""@ =~= "unsupported log source "@
            + quoted_name@);
    }
    ApiError { status: HttpStatus::BadRequest, code: "invalid_log_source", message }
}

/// The view of an optional list.
pub open spec fn opt_str_view(list: Option<&str>) -> Option<Seq<char>> {
    match list {
        Some(list) => Some(list@),
        None => None,
    }
}

/// The sources in a comma-separated list of names; a name that stands for none is refused.
pub fn parse_log_sources(sources: Option<&str>) -> (r: Result<Vec<LogSource>, ApiError>)
    ensures
        ({
            let names = asked_names(opt_str_view(sources));
            match r {
                Ok(parsed) => {
                    &&& parsed.len() == names.len()
                    &&& forall|i: int|
                        0 <= i < names.len() ==> source_of_name(#[trigger] names[i]) == Some(
                            parsed[i],
                        )
                },
                Err(refusal) => exists|i: int| #[trigger]
                    first_unknown(names, i) && refusal@ == invalid_log_source(
                        quoted_text(names[i]),
                    ),
            }
        }),
{
    let list = match sources {
        Some(list) => list,
        None => {
            return Ok(Vec::new());
        },
    };
    let parts = split_text(list, ',');
    let ghost all = split_all(list@, ',');
    let ghost pred = |name: Seq<char>| name.len() > 0;
    let ghost names = listed_names(list@);
    let mut parsed: Vec<LogSource> = Vec::new();
    let mut i: usize = 0;
    assert(all.take(0).filter(pred).len() == 0) by {
        reveal(Seq::filter);
    }
    while i < parts.len()
        invariant
            i <= parts.len(),
            all == split_all(list@, ','),
            parts.len() == all.len(),
            forall|j: int| 0 <= j < parts.len() ==> (#[trigger] parts@[j])@ == all[j],
            pred == (|name: Seq<char>| name.len() > 0),
            names == all.filter(pred),
            sources == Some(list),
            parsed.len() == all.take(i as int).filter(pred).len(),
            parsed.len() <= names.len(),
            forall|j: int|
                0 <= j < parsed.len() ==> source_of_name(#[trigger] names[j]) == Some(parsed[j]),
        decreases parts.len() - i,
    {
        let name: &str = parts[i];
        proof {
            lemma_filter_step(all, pred, i as int);
            lemma_filter_prefix(all, pred, i as int);
            lemma_filter_prefix(all, pred, i + 1);
            assert(name@ == all[i as int]);
        }
        if !name.is_empty() {
            proof {
                let kept = all.take(i + 1).filter(pred);
                assert(kept.last() == all[i as int]);
                assert(names[parsed.len() as int] == kept[parsed.len() as int]);
            }
            match log_source(name) {
                Some(source) => {
                    parsed.push(source);
                },
                None => {
                    assert(first_unknown(names, parsed.len() as int));
                    let quoted_name = quoted(name);
                    return Err(unsupported_source(quoted_name.as_str()));
                },
            }
        }
        i = i + 1;
    }
    assert(all.take(all.len() as int) =~= all);
    Ok(parsed)
}

/// How a log is read.
#[derive(Debug)]
pub struct LogStreamOptions {
    /// The sources that are asked for.
    pub sources: Vec<LogSource>,
    /// Whether the log is read on as it grows.
    pub follow: bool,
}

/// How the log is read for a stream of `sources`: it is followed.
pub fn log_stream_options(sources: Vec<LogSource>) -> (options: LogStreamOptions)
    ensures
        options.sources == sources,
        options.follow,
{
    LogStreamOptions { sources, follow: true }
}

/// The names of `sources`, separated by commas.
pub open spec fn joined_names(sources: Seq<LogSource>) -> Seq<char>
    decreases sources.len(),
{
    if sources.len() == 0 {
        Seq::empty()
    } else if sources.len() == 1 {
        source_name(sources[0])
    } else {
        source_name(sources[0]) + seq![','] + joined_names(sources.drop_first())
    }
}

/// The name of a source is read back as that source, holds no comma and is not empty.
pub proof fn law_source_name_round_trips(source: LogSource)
    ensures
        source_of_name(source_name(source)) == Some(source),
        source_name(source).len() > 0,
        forall|i: int| 0 <= i < source_name(source).len() ==> source_name(source)[i] != ',',
{
    reveal_strlit("stdout");
    reveal_strlit("stderr");
    reveal_strlit("output");
    reveal_strlit("system");
    assert("stdout"@[0] == 's' && "stdout"@[3] == 'o');
    assert("stderr"@[0] == 's' && "stderr"@[3] == 'e');
    assert("output"@[0] == 'o');
    assert("system"@[0] == 's' && "system"@[1] == 'y');
    assert("stdout"@[1] == 't' && "stderr"@[1] == 't');
}

proof fn lemma_split_joined(sources: Seq<LogSource>)
    requires
        sources.len() > 0,
    ensures
        split_all(joined_names(sources), ',') == sources.map_values(
            |source: LogSource| source_name(source),
        ),
    decreases sources.len(),
{
    let first = source_name(sources[0]);
    law_source_name_round_trips(sources[0]);
    if sources.len() == 1 {
        lemma_first_of_is(first, ',', first.len() as int);
        assert(split_all(first, ',') =~= sources.map_values(
            |source: LogSource| source_name(source),
        ));
    } else {
        let tail = sources.drop_first();
        let rest = joined_names(tail);
        let whole = first + seq![','] + rest;
        lemma_split_joined(tail);
        assert forall|j: int| 0 <= j < first.len() implies whole[j] != ',' by {
            assert(whole[j] == first[j]);
        }
        lemma_first_of_is(whole, ',', first.len() as int);
        assert(whole.take(first.len() as int) =~= first);
        assert(whole.skip(first.len() as int + 1) =~= rest);
        assert(split_all(whole, ',') =~= sources.map_values(
            |source: LogSource| source_name(source),
        ));
    }
}

/// The four names, and that no other name stands for a source.
pub proof fn law_sources_have_their_names(name: Seq<char>)
    ensures
        source_name(LogSource::Stdout) == "stdout"@,
        source_name(LogSource::Stderr) == "stderr"@,
        source_name(LogSource::Output) == "output"@,
        source_name(LogSource::System) == "system"@,
        source_of_name(name) matches Some(source) ==> source_name(source) == name,
        source_of_name(name) is None ==> forall|source: LogSource| #[trigger]
            source_name(source) != name,
{
    assert forall|source: LogSource| source_of_name(name) is None implies #[trigger] source_name(
        source,
    ) != name by {
        law_source_name_round_trips(source);
    }
}

/// The payload of an entry names the source that the entry came from: read back, the name is that
/// source and no other. It is dated as the entry is and holds its text. The payload of a failure
/// is that of the system, holds the text of the failure and is dated by the present.
pub proof fn law_payload_tells_where_it_came_from(
    source: LogSource,
    other: LogSource,
    ts: Timestamp,
    text: Seq<char>,
)
    ensures
        ({
            let payload = entry_payload(source, ts, text);
            &&& source_of_name(payload.source) == Some(source)
            &&& other != source ==> payload.source != entry_payload(other, ts, text).source
            &&& payload.ts == ts
            &&& payload.text == text
        }),
        source_of_name(failure_payload(text, ts).source) == Some(LogSource::System),
        failure_payload(text, ts).ts == ts,
        failure_payload(text, ts).text == text,
{
    law_source_name_round_trips(source);
    law_source_name_round_trips(other);
    law_source_name_round_trips(LogSource::System);
}

/// Sources written as a list of names are the sources that the list is read as.
pub proof fn law_source_lists_round_trip(sources: Seq<LogSource>)
    ensures
        listed_names(joined_names(sources)) == sources.map_values(
            |source: LogSource| source_name(source),
        ),
        forall|i: int|
            0 <= i < sources.len() ==> source_of_name(
                #[trigger] listed_names(joined_names(sources))[i],
            ) == Some(sources[i]),
{
    let names = sources.map_values(|source: LogSource| source_name(source));
    let pred = |name: Seq<char>| name.len() > 0;
    if sources.len() == 0 {
        let empty = Seq::<char>::empty();
        lemma_first_of_is(empty, ',', 0);
        reveal_with_fuel(Seq::filter, 2);
        assert(split_all(empty, ',') =~= seq![empty]);
        assert(seq![empty].drop_last() =~= Seq::<Seq<char>>::empty());
        assert(listed_names(empty) =~= names);
    } else {
        lemma_split_joined(sources);
        assert forall|i: int| 0 <= i < names.len() implies pred(#[trigger] names[i]) by {
            law_source_name_round_trips(sources[i]);
        }
        lemma_all_kept(names, pred);
    }
    assert forall|i: int| 0 <= i < sources.len() implies source_of_name(
        #[trigger] listed_names(joined_names(sources))[i],
    ) == Some(sources[i]) by {
        law_source_name_round_trips(sources[i]);
    }
}

// -------------------------------------------------------------------------------------------
// The stream
// -------------------------------------------------------------------------------------------

/// A log entry as the runtime gives it.
#[derive(Debug)]
pub struct LogEntry {
    pub source: LogSource,
    pub timestamp: Timestamp,
    pub data: Vec<u8>,
}

/// A log entry as the client is sent it.
#[derive(Debug)]
pub struct CloudLogPayload {
    pub source: &'static str,
    pub ts: Timestamp,
    pub text: String,
}

/// What a [`CloudLogPayload`] says.
#[verifier::ext_equal]
pub struct PayloadView {
    pub source: Seq<char>,
    pub ts: Timestamp,
    pub text: Seq<char>,
}

impl View for CloudLogPayload {
    type V = PayloadView;

    open spec fn view(&self) -> PayloadView {
        PayloadView { source: self.source@, ts: self.ts, text: self.text@ }
    }
}

/// Bytes as text, with what is not UTF-8 replaced.
pub uninterp spec fn lossy_text(bytes: Seq<u8>) -> Seq<char>;

/// Bytes as text: `String::from_utf8_lossy`, which puts replacement characters for what is not
/// UTF-8 and depends on the bytes alone. Of valid UTF-8 it gives the text that the bytes encode.
#[verifier::external_body]
fn from_utf8_lossy(bytes: &Vec<u8>) -> (text: String)
    ensures
        text@ == lossy_text(bytes@),
        valid_utf8(bytes@) ==> text@ == decode_utf8(bytes@),
{
    String::from_utf8_lossy(bytes).into_owned()
}

/// The payload for an entry of the log.
pub open spec fn entry_payload(source: LogSource, ts: Timestamp, text: Seq<char>) -> PayloadView {
    PayloadView { source: source_name(source), ts, text }
}

/// The payload for a failure of the log, at the instant `now`.
pub open spec fn failure_payload(message: Seq<char>, now: Timestamp) -> PayloadView {
    PayloadView { source: "system"@, ts: now, text: message }
}

/// The payload for an entry with the text `text`.
pub fn payload_of(source: LogSource, ts: Timestamp, text: String) -> (payload: CloudLogPayload)
    ensures
        payload@ == entry_payload(source, ts, text@),
        source_of_name(payload.source@) == Some(source),
        payload.ts == ts,
        payload.text@ == text@,
{
    proof {
        law_source_name_round_trips(source);
    }
    CloudLogPayload { source: log_source_name(source), ts, text }
}

/// What the log gave next.
#[derive(Debug)]
pub enum LogPoll {
    /// An entry.
    Entry(LogEntry),
    /// A failure, by the text that it prints as.
    Failed(String),
    /// The end of the log.
    Ended,
}

/// The kinds of what a log can give next.
#[derive(Debug, Clone, Copy, PartialEq, Eq, Structural)]
pub enum PollKind {
    Entry,
    Failed,
    Ended,
}

impl LogPoll {
    /// The kind of what the log gave.
    pub open spec fn kind(self) -> PollKind {
        match self {
            LogPoll::Entry(_) => PollKind::Entry,
            LogPoll::Failed(_) => PollKind::Failed,
            LogPoll::Ended => PollKind::Ended,
        }
    }
}

/// A server-sent event.
#[derive(Debug)]
pub struct SseEvent {
    /// Name of the event, where it has one.
    pub event: Option<&'static str>,
    /// Number of the event, where it has one.
    pub id: Option<u64>,
    /// Data of the event.
    pub data: String,
}

/// What an [`SseEvent`] says.
#[verifier::ext_equal]
pub struct EventView {
    pub event: Option<Seq<char>>,
    pub id: Option<u64>,
    pub data: Seq<char>,
}

impl View for SseEvent {
    type V = EventView;

    open spec fn view(&self) -> EventView {
        EventView {
            event: match self.event {
                Some(event) => Some(event@),
                None => None,
            },
            id: self.id,
            data: self.data@,
        }
    }
}

/// The event number `seq` of a stream, for what the log gave, where `json` is the payload as JSON.
pub open spec fn stream_event(seq: u64, kind: PollKind, json: Seq<char>) -> EventView {
    match kind {
        PollKind::Entry => EventView { event: None, id: Some(seq), data: json },
        PollKind::Failed => EventView { event: Some("error"@), id: Some(seq), data: json },
        PollKind::Ended => EventView { event: Some("end"@), id: None, data: "{}"@ },
    }
}

/// What a stream waits for.
#[derive(Debug, Clone, Copy, PartialEq, Eq, Structural)]
pub enum LogPhase {
    /// The next of the log.
    Polling,
    /// The JSON of the payload for an entry.
    RenderingEntry,
    /// The JSON of the payload for a failure.
    RenderingFailure,
    /// Nothing: the end has been sent.
    Done,
}

/// The state of a log stream: the number of events sent, and what it waits for.
#[derive(Debug, Clone, Copy, PartialEq, Eq, Structural)]
pub struct LogStream {
    pub seq: u64,
    pub phase: LogPhase,
}

/// What a stream asks for.
#[derive(Debug)]
pub enum LogAction {
    /// The payload as JSON.
    Render(CloudLogPayload),
    /// The event to be sent.
    Send(SseEvent),
}

/// The stream once the event for what the log gave has been sent.
pub open spec fn advanced(stream: LogStream, kind: PollKind) -> LogStream {
    LogStream {
        seq: (stream.seq + 1) as u64,
        phase: if kind == PollKind::Ended {
            LogPhase::Done
        } else {
            LogPhase::Polling
        },
    }
}

/// The stream after the log gave something: only the end is sent at once.
pub open spec fn polled(stream: LogStream, kind: PollKind) -> LogStream {
    match kind {
        PollKind::Entry => LogStream { phase: LogPhase::RenderingEntry, ..stream },
        PollKind::Failed => LogStream { phase: LogPhase::RenderingFailure, ..stream },
        PollKind::Ended => advanced(stream, kind),
    }
}

/// The kind of what a stream that waits for JSON was given.
pub open spec fn rendering_kind(phase: LogPhase) -> PollKind {
    if phase == LogPhase::RenderingEntry {
        PollKind::Entry
    } else {
        PollKind::Failed
    }
}

impl LogStream {
    /// A stream that has sent nothing yet.
    pub fn start() -> (stream: LogStream)
        ensures
            stream == (LogStream { seq: 0, phase: LogPhase::Polling }),
    {
        LogStream { seq: 0, phase: LogPhase::Polling }
    }

    /// Whether the end has been sent.
    pub fn is_done(&self) -> (r: bool)
        ensures
            r == (self.phase == LogPhase::Done),
    {
        self.phase == LogPhase::Done
    }

    /// Takes what the log gave, at the instant `now`, which an event for a failure is dated by.
    pub fn poll_at(&mut self, poll: LogPoll, now: Timestamp) -> (action: LogAction)
        requires
            old(self).phase == LogPhase::Polling,
            old(self).seq < u64::MAX,
        ensures
            *final(self) == polled(*old(self), poll.kind()),
            match poll {
                LogPoll::Entry(entry) => {
                    &&& action is Render
                    &&& action->Render_0@ == entry_payload(
                        entry.source,
                        entry.timestamp,
                        lossy_text(entry.data@),
                    )
                    &&& source_of_name(action->Render_0.source@) == Some(entry.source)
                    &&& action->Render_0.ts == entry.timestamp
                    &&& valid_utf8(entry.data@) ==> action->Render_0@.text == decode_utf8(
                        entry.data@,
                    )
                },
                LogPoll::Failed(message) => {
                    &&& action is Render
                    &&& action->Render_0@ == failure_payload(message@, now)
                    &&& action->Render_0.text@ == message@
                },
                LogPoll::Ended => {
                    &&& action is Send
                    &&& action->Send_0@ == stream_event(old(self).seq, PollKind::Ended, "{}"@)
                },
            },
    {
        match poll {
            LogPoll::Entry(entry) => {
                let text = from_utf8_lossy(&entry.data);
                self.phase = LogPhase::RenderingEntry;
                LogAction::Render(payload_of(entry.source, entry.timestamp, text))
            },
            LogPoll::Failed(message) => {
                self.phase = LogPhase::RenderingFailure;
                LogAction::Render(CloudLogPayload { source: "system", ts: now, text: message })
            },
            LogPoll::Ended => {
                self.phase = LogPhase::Done;
                self.seq = self.seq + 1;
                LogAction::Send(SseEvent { event: Some("end"), id: None, data: "{}".to_string() })
            },
        }
    }

    /// Takes what the log gave. The clock is read only for a failure.
    pub fn poll(&mut self, poll: LogPoll) -> (action: LogAction)
        requires
            old(self).phase == LogPhase::Polling,
            old(self).seq < u64::MAX,
        ensures
            *final(self) == polled(*old(self), poll.kind()),
            match poll {
                LogPoll::Entry(entry) => {
                    &&& action is Render
                    &&& action->Render_0@ == entry_payload(
                        entry.source,
                        entry.timestamp,
                        lossy_text(entry.data@),
                    )
                    &&& source_of_name(action->Render_0.source@) == Some(entry.source)
                    &&& action->Render_0.ts == entry.timestamp
                    &&& valid_utf8(entry.data@) ==> action->Render_0@.text == decode_utf8(
                        entry.data@,
                    )
                },
                LogPoll::Failed(message) => {
                    &&& action is Render
                    &&& is_instant(action->Render_0@.ts)
                    &&& action->Render_0@ == failure_payload(message@, action->Render_0@.ts)
                },
                LogPoll::Ended => {
                    &&& action is Send
                    &&& action->Send_0@ == stream_event(old(self).seq, PollKind::Ended, "{}"@)
                },
            },
    {
        // Nothing but a failure is dated by it.
        let at: Timestamp = match &poll {
            LogPoll::Failed(_) => now(),
            _ => Timestamp { secs: 0, nanos: 0 },
        };
        self.poll_at(poll, at)
    }

    /// Takes the payload as JSON, or the error of writing it, and gives the item to be sent.
    pub fn rendered<E>(&mut self, json: Result<String, E>) -> (item: Result<SseEvent, E>)
        requires
            old(self).phase == LogPhase::RenderingEntry || old(self).phase
                == LogPhase::RenderingFailure,
            old(self).seq < u64::MAX,
        ensures
            *final(self) == advanced(*old(self), rendering_kind(old(self).phase)),
            match json {
                Ok(json) => {
                    &&& item is Ok
                    &&& item->Ok_0@ == stream_event(
                        old(self).seq,
                        rendering_kind(old(self).phase),
                        json@,
                    )
                },
                Err(error) => item == Err::<SseEvent, E>(error),
            },
    {
        let seq = self.seq;
        let event: Option<&'static str> = match self.phase {
            LogPhase::RenderingFailure => Some("error"),
            _ => None,
        };
        self.phase = LogPhase::Polling;
        self.seq = seq + 1;
        match json {
            Ok(data) => Ok(SseEvent { event, id: Some(seq), data }),
            Err(error) => Err(error),
        }
    }
}

/// The events of the stream `stream`, for what the log gives one after another and the JSON of the
/// payloads. Once the end has been sent there are none.
pub open spec fn stream_events(stream: LogStream, polls: Seq<(PollKind, Seq<char>)>) -> Seq<
    EventView,
>
    decreases polls.len(),
{
    if polls.len() == 0 || stream.phase == LogPhase::Done {
        Seq::empty()
    } else {
        seq![stream_event(stream.seq, polls[0].0, polls[0].1)] + stream_events(
            advanced(stream, polls[0].0),
            polls.drop_first(),
        )
    }
}

proof fn lemma_stream_events(stream: LogStream, polls: Seq<(PollKind, Seq<char>)>)
    requires
        stream.phase != LogPhase::Done,
        stream.seq + polls.len() <= u64::MAX,
    ensures
        ({
            let events = stream_events(stream, polls);
            &&& events.len() <= polls.len()
            &&& forall|i: int|
                0 <= i < events.len() ==> #[trigger] events[i] == stream_event(
                    (stream.seq + i) as u64,
                    polls[i].0,
                    polls[i].1,
                )
            &&& forall|i: int|
                0 <= i < events.len() - 1 ==> (#[trigger] polls[i]).0 != PollKind::Ended
            &&& events.len() < polls.len() ==> events.len() > 0 && polls[events.len() - 1].0
                == PollKind::Ended
        }),
    decreases polls.len(),
{
    reveal_with_fuel(stream_events, 2);
    if polls.len() > 0 && polls[0].0 != PollKind::Ended {
        let rest = polls.drop_first();
        let next = advanced(stream, polls[0].0);
        lemma_stream_events(next, rest);
        let events = stream_events(stream, polls);
        let tail = stream_events(next, rest);
        assert forall|i: int| 0 <= i < events.len() implies #[trigger] events[i] == stream_event(
            (stream.seq + i) as u64,
            polls[i].0,
            polls[i].1,
        ) by {
            if i > 0 {
                assert(events[i] == tail[i - 1]);
                assert(rest[i - 1] == polls[i]);
            }
        }
        assert forall|i: int| 0 <= i < events.len() - 1 implies (#[trigger] polls[i]).0
            != PollKind::Ended by {
            if i > 0 {
                assert(rest[i - 1] == polls[i]);
            }
        }
        if events.len() < polls.len() {
            assert(rest[tail.len() - 1] == polls[events.len() - 1]);
        }
    }
}

/// The events of a stream are numbered from zero without a gap; an `end` event has no number, is
/// the last of all, and is sent exactly where the log ends.
pub proof fn law_stream_is_numbered_and_ends_once(polls: Seq<(PollKind, Seq<char>)>)
    requires
        polls.len() <= u64::MAX,
    ensures
        ({
            let events = stream_events(LogStream { seq: 0, phase: LogPhase::Polling }, polls);
            &&& events.len() <= polls.len()
            &&& forall|i: int|
                0 <= i < events.len() && (#[trigger] polls[i]).0 != PollKind::Ended
                    ==> events[i].id == Some(i as u64)
            &&& forall|i: int|
                0 <= i < events.len() - 1 ==> (#[trigger] events[i]).event != Some("end"@)
            &&& events.len() > 0 ==> (events.last().event == Some("end"@) <==> polls[events.len()
                - 1].0 == PollKind::Ended)
            &&& events.len() > 0 && events.last().event == Some("end"@) ==> events.last().id is None
            &&& events.len() < polls.len() ==> events.len() > 0 && events.last().event == Some(
                "end"@,
            )
        }),
{
    let stream = LogStream { seq: 0, phase: LogPhase::Polling };
    lemma_stream_events(stream, polls);
    reveal_strlit("end");
    reveal_strlit("error");
    assert("end"@.len() == 3 && "error"@.len() == 5);
    let events = stream_events(stream, polls);
    assert forall|i: int| 0 <= i < events.len() && (#[trigger] polls[i]).0
        != PollKind::Ended implies events[i].id == Some(i as u64) by {
        assert(events[i] == stream_event(i as u64, polls[i].0, polls[i].1));
    }
    assert forall|i: int| 0 <= i < events.len() - 1 implies (#[trigger] events[i]).event != Some(
        "end"@,
    ) by {
        assert(polls[i].0 != PollKind::Ended);
    }
    if events.len() > 0 {
        let last = events.len() - 1;
        assert(events[last] == stream_event(last as u64, polls[last].0, polls[last].1));
    }
}

/// An event holds the payload as it was written. That of an entry has no name, that of a failure
/// the name `error` and the end the name `end`; the first two have the number of events before
/// them for a number.
pub proof fn law_event_holds_its_payload(seq: u64, json: Seq<char>)
    ensures
        ({
            let event = stream_event(seq, PollKind::Entry, json);
            event.event is None && event.id == Some(seq) && event.data == json
        }),
        ({
            let event = stream_event(seq, PollKind::Failed, json);
            event.event == Some("error"@) && event.id == Some(seq) && event.data == json
        }),
        ({
            let event = stream_event(seq, PollKind::Ended, json);
            event.event == Some("end"@) && event.id is None && event.data == "{}"@
        }),
{
}

/// Whatever the log gives, the stream counts one event for it and no more; it goes on after an
/// entry and after a failure, and is done exactly after the end.
pub proof fn law_stream_counts_its_events(stream: LogStream, kind: PollKind)
    requires
        stream.phase == LogPhase::Polling,
        stream.seq < u64::MAX,
    ensures
        ({
            let waiting = polled(stream, kind);
            let after = if kind == PollKind::Ended {
                waiting
            } else {
                advanced(waiting, rendering_kind(waiting.phase))
            };
            &&& after.seq == stream.seq + 1
            &&& after.phase == LogPhase::Done <==> kind == PollKind::Ended
            &&& kind != PollKind::Ended ==> {
                &&& after.phase == LogPhase::Polling
                &&& waiting.seq == stream.seq
                &&& rendering_kind(waiting.phase) == kind
                &&& waiting.phase == LogPhase::RenderingEntry <==> kind == PollKind::Entry
                &&& waiting.phase == LogPhase::RenderingFailure <==> kind == PollKind::Failed
            }
        }),
{
}

/// The names in a list are the words between its commas, in order and as often as they stand
/// there, without the empty ones; no list asks for none.
pub proof fn law_listed_names_are_the_words(word: Seq<char>, rest: Seq<char>)
    requires
        !word.contains(','),
    ensures
        listed_names(word + seq![','] + rest) == if word.len() > 0 {
            seq![word] + listed_names(rest)
        } else {
            listed_names(rest)
        },
        listed_names(word) == if word.len() > 0 {
            seq![word]
        } else {
            Seq::empty()
        },
        asked_names(Some(rest)) == listed_names(rest),
        asked_names(None).len() == 0,
{
    let pred = |name: Seq<char>| name.len() > 0;
    let one = seq![word];
    law_parts_are_those_between_separators(word, rest, ',');
    Seq::filter_distributes_over_add(one, split_all(rest, ','), pred);
    reveal_with_fuel(Seq::filter, 2);
    assert(one.drop_last() =~= Seq::empty());
    assert(one.filter(pred) =~= if word.len() > 0 {
        one
    } else {
        Seq::empty()
    });
    assert(Seq::<Seq<char>>::empty() + listed_names(rest) =~= listed_names(rest));
}

/// A name that stands for no source is refused as a bad request, by the name itself.
pub proof fn law_unknown_source_is_named(quoted_name: Seq<char>)
    ensures
        invalid_log_source(quoted_name).status == HttpStatus::BadRequest,
        invalid_log_source(quoted_name).code == "invalid_log_source"@,
        invalid_log_source(quoted_name).message == "unsupported log source "@ + quoted_name,
{
}

} // verus!
