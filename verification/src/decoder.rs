//! The chunk decoder: from the bytes that the server sends to stream events.
//!
//! A generation stream frames one JSON object per chunk. A download stream
//! sends lines, each a JSON object, and a chunk may hold several of them.

use vstd::prelude::*;

use crate::events::{
    download_outcome_views, DownloadOutcomeModel, DownloadProgressUpdate, DownloadUpdateModel,
    Error, ErrorModel, OllamaStreamProgress, StreamProgressModel,
};
use crate::json::{
    all_unsigned, json_parse, lemma_unsigned_items_of_numbers, parse_document, parsed_view,
    unsigned_items, JsonModel, JsonValue,
};
use crate::text::{byte_lines, decode_lossy, lines_of, split_lines, utf8_lossy};

verus! {

/// Whether a document of a generation stream says that the answer is complete:
/// its member `done` is the truth value `true`.
pub open spec fn is_done(document: JsonModel) -> bool {
    document.bool_at("done"@) == Some(true)
}

/// The continuation state in a document of a generation stream: the unsigned
/// integers of the array under `context`, and nothing where no array is there.
pub open spec fn context_of(document: JsonModel) -> Seq<u64> {
    match document.get("context"@) {
        Some(JsonModel::Array(items)) => unsigned_items(items),
        _ => Seq::empty(),
    }
}

/// The event that one chunk of a generation stream stands for.
///
/// A document that is done ends the stream and carries the context. Any other
/// document is a token: the text under `response`, or the chunk's own text
/// where that member is missing. A chunk that is no JSON is a token as it stands.
pub open spec fn generate_event(
    parsed: Result<JsonModel, Seq<char>>,
    raw: Seq<char>,
) -> StreamProgressModel {
    match parsed {
        Ok(document) => if is_done(document) {
            StreamProgressModel::Finished { context: context_of(document) }
        } else {
            StreamProgressModel::Streaming {
                token: match document.text_at("response"@) {
                    Some(text) => text,
                    None => raw,
                },
            }
        },
        Err(_) => StreamProgressModel::Streaming { token: raw },
    }
}

/// What one line of a download stream stands for.
///
/// A document with a text under `status` reports progress; `total` and
/// `completed` count as 0 where they are missing. A document without a status
/// says nothing. A line that is no JSON is a parse error.
pub open spec fn download_line_event(parsed: Result<JsonModel, Seq<char>>) -> Option<
    DownloadOutcomeModel,
> {
    match parsed {
        Ok(document) => match document.text_at("status"@) {
            Some(status) => Some(
                Ok(
                    DownloadUpdateModel::Progress {
                        status,
                        total: match document.u64_at("total"@) {
                            Some(total) => total,
                            None => 0,
                        },
                        completed: match document.u64_at("completed"@) {
                            Some(completed) => completed,
                            None => 0,
                        },
                    },
                ),
            ),
            None => None,
        },
        Err(description) => Some(Err(ErrorModel::ParseError(description))),
    }
}

/// The events that the lines of one chunk of a download stream stand for:
/// what each line stands for, in order, up to and with the first parse error.
/// The lines behind a parse error are not read.
pub open spec fn download_events(lines: Seq<Result<JsonModel, Seq<char>>>) -> Seq<
    DownloadOutcomeModel,
>
    decreases lines.len(),
{
    if lines.len() == 0 {
        Seq::empty()
    } else {
        match download_line_event(lines[0]) {
            Some(Err(error)) => seq![Err(error)],
            Some(Ok(update)) => seq![Ok(update)] + download_events(lines.drop_first()),
            None => download_events(lines.drop_first()),
        }
    }
}

/// What parsing makes of each line of a chunk, the line decoded leniently.
pub open spec fn parsed_lines(chunk: Seq<u8>) -> Seq<Result<JsonModel, Seq<char>>> {
    lines_of(chunk).map_values(|line: Seq<u8>| json_parse(utf8_lossy(line)))
}

/// A chunk of a generation stream gives one event. It ends the stream exactly
/// when the chunk is a JSON document whose `done` is `true`, and the event
/// then carries the context of that document. Every other chunk is a token.
pub proof fn law_done_chunk_finishes(parsed: Result<JsonModel, Seq<char>>, raw: Seq<char>)
    ensures
        generate_event(parsed, raw) is Finished <==> (parsed is Ok && parsed->Ok_0.bool_at(
            "done"@,
        ) == Some(true)),
        generate_event(parsed, raw) is Streaming <==> !(generate_event(parsed, raw) is Finished),
        generate_event(parsed, raw) is Finished ==> generate_event(parsed, raw)
            == (StreamProgressModel::Finished { context: context_of(parsed->Ok_0) }),
{
}

/// The context of a document is empty where the document has no `context`,
/// and where `context` is an array of unsigned integers it is those numbers,
/// one for one.
pub proof fn law_context_is_the_array(document: JsonModel)
    ensures
        document.get("context"@) is None ==> context_of(document) == Seq::<u64>::empty(),
        document.get("context"@) is Some && document.get("context"@)->0 is Array && all_unsigned(
            document.get("context"@)->0->Array_0,
        ) ==> {
            let items = document.get("context"@)->0->Array_0;
            &&& context_of(document).len() == items.len()
            &&& forall|i: int|
                0 <= i < items.len() ==> (#[trigger] context_of(document)[i])
                    == items[i].as_u64()->0
        },
{
    match document.get("context"@) {
        Some(JsonModel::Array(items)) => {
            if all_unsigned(items) {
                lemma_unsigned_items_of_numbers(items);
            }
        },
        _ => {},
    }
}

/// In the events of a chunk of a download stream only the last can be a
/// failure: nothing follows a parse error.
pub proof fn law_failure_ends_chunk(lines: Seq<Result<JsonModel, Seq<char>>>)
    ensures
        forall|i: int|
            0 <= i < download_events(lines).len() - 1 ==> (#[trigger] download_events(
                lines,
            )[i]) is Ok,
        forall|i: int|
            0 <= i < download_events(lines).len() ==> !((#[trigger] download_events(
                lines,
            )[i]) matches Ok(DownloadUpdateModel::Finished)),
    decreases lines.len(),
{
    if lines.len() > 0 {
        law_failure_ends_chunk(lines.drop_first());
        let rest = download_events(lines.drop_first());
        match download_line_event(lines[0]) {
            Some(Ok(update)) => {
                assert forall|i: int| 0 <= i < download_events(lines).len() - 1 implies (
                #[trigger] download_events(lines)[i]) is Ok by {
                    if i > 0 {
                        assert(download_events(lines)[i] == rest[i - 1]);
                    }
                }
                assert forall|i: int| 0 <= i < download_events(lines).len() implies !((
                #[trigger] download_events(lines)[i]) matches Ok(
                    DownloadUpdateModel::Finished,
                )) by {
                    if i > 0 {
                        assert(download_events(lines)[i] == rest[i - 1]);
                    }
                }
            },
            _ => {},
        }
    }
}

/// Collects the unsigned integers among the items of an array.
fn collect_unsigned(items: &Vec<JsonValue>) -> (numbers: Vec<u64>)
    ensures
        numbers@ == unsigned_items(items@.map_values(|item: JsonValue| item@)),
{
    let ghost all = items@.map_values(|item: JsonValue| item@);
    let mut numbers: Vec<u64> = Vec::new();
    let mut at: usize = 0;
    while at < items.len()
        invariant
            at <= items.len(),
            all == items@.map_values(|item: JsonValue| item@),
            numbers@ == unsigned_items(all.take(at as int)),
        decreases items.len() - at,
    {
        proof {
            assert(all.take(at + 1).drop_last() == all.take(at as int));
            assert(all.take(at + 1).last() == items@[at as int]@);
        }
        match items[at].as_u64() {
            Some(number) => numbers.push(number),
            None => {},
        }
        at += 1;
    }
    proof {
        assert(all.take(at as int) == all);
    }
    numbers
}

/// Reads the continuation state of a document of a generation stream.
fn read_context(document: &JsonValue) -> (context: Vec<u64>)
    ensures
        context@ == context_of(document@),
{
    match document.get("context") {
        Some(found) => match found.as_array() {
            Some(items) => collect_unsigned(items),
            None => Vec::new(),
        },
        None => Vec::new(),
    }
}

/// Decodes one chunk of a generation stream from what parsing made of it and
/// from its text.
pub fn decode_generate_value(parsed: Result<JsonValue, String>, raw: String) -> (event:
    OllamaStreamProgress)
    ensures
        event@ == generate_event(parsed_view(parsed), raw@),
{
    match parsed {
        Ok(document) => {
            let done = match document.get("done") {
                Some(flag) => match flag.as_bool() {
                    Some(value) => value,
                    None => false,
                },
                None => false,
            };
            if done {
                OllamaStreamProgress::Finished { context: read_context(&document) }
            } else {
                let response = match document.get("response") {
                    Some(found) => match found.as_str() {
                        Some(text) => Some(text.to_owned()),
                        None => None,
                    },
                    None => None,
                };
                match response {
                    Some(token) => OllamaStreamProgress::Streaming { token },
                    None => OllamaStreamProgress::Streaming { token: raw },
                }
            }
        },
        Err(_) => OllamaStreamProgress::Streaming { token: raw },
    }
}

/// Decodes one chunk of a generation stream.
///
/// Every chunk gives exactly one event. The bytes are decoded leniently, so
/// that no byte sequence is refused, and a chunk that is no JSON is handed on
/// as a token.
pub fn decode_generate_chunk(chunk: &[u8]) -> (event: OllamaStreamProgress)
    ensures
        event@ == generate_event(json_parse(utf8_lossy(chunk@)), utf8_lossy(chunk@)),
{
    let raw = decode_lossy(chunk);
    let parsed = parse_document(raw.as_str());
    decode_generate_value(parsed, raw)
}

/// Reads the unsigned integer under `key`, or 0 where none is there.
fn read_count(document: &JsonValue, key: &str) -> (count: u64)
    ensures
        count == match document@.u64_at(key@) {
            Some(number) => number,
            None => 0,
        },
{
    match document.get(key) {
        Some(found) => match found.as_u64() {
            Some(number) => number,
            None => 0,
        },
        None => 0,
    }
}

/// Decodes one line of a download stream from what parsing made of it.
pub fn decode_download_line(parsed: Result<JsonValue, String>) -> (event: Option<
    Result<DownloadProgressUpdate, Error>,
>)
    ensures
        match event {
            Some(outcome) => download_line_event(parsed_view(parsed)) == Some(
                crate::events::download_outcome_view(outcome),
            ),
            None => download_line_event(parsed_view(parsed)) is None,
        },
{
    match parsed {
        Ok(document) => {
            let status = match document.get("status") {
                Some(found) => match found.as_str() {
                    Some(text) => Some(text.to_owned()),
                    None => None,
                },
                None => None,
            };
            match status {
                Some(status) => {
                    let total = read_count(&document, "total");
                    let completed = read_count(&document, "completed");
                    Some(Ok(DownloadProgressUpdate::Progress { status, total, completed }))
                },
                None => None,
            }
        },
        Err(description) => Some(Err(Error::ParseError(description))),
    }
}

/// Decodes one chunk of a download stream.
///
/// Each line is decoded leniently and parsed by itself. The first line that is
/// no JSON gives a parse error, and the rest of the chunk is dropped.
pub fn decode_download_chunk(chunk: &[u8]) -> (events: Vec<Result<DownloadProgressUpdate, Error>>)
    ensures
        download_outcome_views(events@) == download_events(parsed_lines(chunk@)),
{
    let lines = split_lines(chunk);
    let ghost all = parsed_lines(chunk@);
    let mut events: Vec<Result<DownloadProgressUpdate, Error>> = Vec::new();
    let mut at: usize = 0;
    proof {
        assert(all.skip(0) == all);
        assert(download_outcome_views(events@) + download_events(all) == download_events(all));
    }
    while at < lines.len()
        invariant
            at <= lines.len(),
            byte_lines(lines@) == lines_of(chunk@),
            all == parsed_lines(chunk@),
            download_events(all) == download_outcome_views(events@) + download_events(
                all.skip(at as int),
            ),
        decreases lines.len() - at,
    {
        let ghost rest = all.skip(at as int);
        let ghost before = download_outcome_views(events@);
        proof {
            assert(byte_lines(lines@)[at as int] == lines@[at as int]@);
            assert(rest[0] == json_parse(utf8_lossy(lines@[at as int]@)));
            assert(rest.drop_first() == all.skip(at + 1));
        }
        let text = decode_lossy(lines[at].as_slice());
        let parsed = parse_document(text.as_str());
        match decode_download_line(parsed) {
            Some(Err(error)) => {
                events.push(Err(error));
                proof {
                    assert(download_outcome_views(events@) == before + seq![
                        Err::<DownloadUpdateModel, ErrorModel>(error@),
                    ]);
                }
                return events;
            },
            Some(Ok(update)) => {
                events.push(Ok(update));
                proof {
                    let one = seq![Ok::<DownloadUpdateModel, ErrorModel>(update@)];
                    assert(download_outcome_views(events@) == before + one);
                    assert(before + (one + download_events(all.skip(at + 1))) == before + one
                        + download_events(all.skip(at + 1)));
                }
            },
            None => {},
        }
        at += 1;
    }
    proof {
        assert(all.skip(at as int).len() == 0);
        assert(download_outcome_views(events@) + Seq::<DownloadOutcomeModel>::empty()
            == download_outcome_views(events@));
    }
    events
}

} // verus!
