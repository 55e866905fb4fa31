//! The decisions of a minimal Gradio 5 HTTP client.
//!
//! The client talks to a `/gradio_api` server: it uploads files
//! (`/gradio_api/upload`), starts a prediction (`POST /gradio_api/call/{api}`,
//! which answers an event id) and reads its server-sent event stream
//! (`GET /gradio_api/call/{api}/{event_id}`) until an `event: complete`
//! message. This module holds the endpoint addresses, the reading of the upload
//! answer and the event stream parser; sending and receiving stay with the
//! caller.
use crate::text::{
    chars_of, concat2, has_prefix, starts_with, strip_trailing, texts, trim_bounds, trim_end_char,
    trim_spec,
};
use crate::json::{json_array_values, parse_json_array, JsonValue};
use vstd::prelude::*;
use vstd::string::StrSliceExecFns;
use vstd::string::StringExecFns;

verus! {

/// A Gradio `FileData` reference. `path` is the server-side path; `url` is the
/// absolute fetchable URL. Either may be empty depending on context.
#[derive(Debug, Clone, Default, PartialEq, Eq)]
pub struct FileData {
    pub path: String,
    pub url: String,
}

/// The address of a Gradio server, kept without a trailing `/`.
#[derive(Debug)]
pub struct GradioEndpoint {
    base_url: String,
}

/// Whether `s` does not end with `/`.
pub open spec fn no_trailing_slash(s: Seq<char>) -> bool {
    s.len() == 0 || s.last() != '/'
}

/// Stripping the trailing `c`s of `s` leaves a prefix of `s` that does not end
/// with `c`, and what was stripped is made of `c`s only.
pub proof fn lemma_strip_trailing(s: Seq<char>, c: char)
    ensures
        strip_trailing(s, c).len() == 0 || strip_trailing(s, c).last() != c,
        strip_trailing(s, c).len() <= s.len(),
        s == strip_trailing(s, c) + Seq::new((s.len() - strip_trailing(s, c).len()) as nat, |i: int| c),
        strip_trailing(strip_trailing(s, c), c) == strip_trailing(s, c),
    decreases s.len(),
{
    if s.len() > 0 && s.last() == c {
        lemma_strip_trailing(s.drop_last(), c);
        let t = strip_trailing(s, c);
        let k = (s.len() - t.len()) as nat;
        assert(s.drop_last() == t + Seq::new((k - 1) as nat, |i: int| c));
        assert(t + Seq::new(k, |i: int| c) =~= (t + Seq::new((k - 1) as nat, |i: int| c)).push(c));
        assert(s =~= s.drop_last().push(c));
    } else {
        assert(s =~= s + Seq::new(0, |i: int| c));
    }
}

impl GradioEndpoint {
    #[verifier::type_invariant]
    spec fn inv(self) -> bool {
        no_trailing_slash(self.base_url@)
    }

    /// The server address, without a trailing `/`.
    pub closed spec fn base(&self) -> Seq<char> {
        self.base_url@
    }

    /// An endpoint for the server at `base_url`; trailing slashes are dropped.
    pub fn new(base_url: &str) -> (r: Self)
        ensures
            r.base() == strip_trailing(base_url@, '/'),
            no_trailing_slash(r.base()),
    {
        let trimmed = trim_end_char(base_url, '/');
        proof {
            lemma_strip_trailing(base_url@, '/');
        }
        GradioEndpoint { base_url: trimmed }
    }

    /// The server address, without a trailing `/`.
    pub fn base_url(&self) -> (r: &str)
        ensures
            r@ == self.base(),
            no_trailing_slash(r@),
    {
        proof {
            use_type_invariant(self);
        }
        self.base_url.as_str()
    }

    /// `{base}/gradio_api/upload`.
    pub fn upload_url(&self) -> (r: String)
        ensures
            r@ == self.base() + "/gradio_api/upload"@,
    {
        concat2(self.base_url.as_str(), "/gradio_api/upload")
    }

    /// `{base}/gradio_api/call{api_name}`: where a prediction is started.
    pub fn call_url(&self, api_name: &str) -> (r: String)
        ensures
            r@ == self.base() + "/gradio_api/call"@ + api_name@,
    {
        let head = concat2(self.base_url.as_str(), "/gradio_api/call");
        concat2(head.as_str(), api_name)
    }

    /// `{base}/gradio_api/call{api_name}/{event_id}`: the event stream of a
    /// started prediction.
    pub fn stream_url(&self, api_name: &str, event_id: &str) -> (r: String)
        ensures
            r@ == self.base() + "/gradio_api/call"@ + api_name@ + "/"@ + event_id@,
    {
        let call = self.call_url(api_name);
        let with_slash = concat2(call.as_str(), "/");
        concat2(with_slash.as_str(), event_id)
    }

    /// `{base}/gradio_api/file={path}`: where an uploaded file can be fetched.
    pub fn file_url(&self, path: &str) -> (r: String)
        ensures
            r@ == self.base() + "/gradio_api/file="@ + path@,
    {
        concat2(concat2(self.base_url.as_str(), "/gradio_api/file=").as_str(), path)
    }
}

/// An HTTP status code in the success class 200..=299.
pub open spec fn success_status(code: u16) -> bool {
    200 <= code <= 299
}

/// Tells whether an HTTP status code is in the success class 200..=299.
pub fn is_success(code: u16) -> (r: bool)
    ensures
        r == success_status(code),
{
    200 <= code && code <= 299
}

/// `serde_json::Error`, carried unopened in [`GradioError::UploadParse`].
#[verifier::external_type_specification]
#[verifier::external_body]
pub struct ExJsonError(serde_json::Error);

/// Why an upload answer could not be read.
#[derive(Debug)]
pub enum GradioError {
    /// The upload answer is not a JSON array of strings.
    UploadParse(serde_json::Error),
    /// The upload answer holds no path.
    UploadEmpty,
}

/// The JSON array of strings in `body`, as serde_json reads it; `None` where
/// `body` is not one.
pub uninterp spec fn json_string_array(body: Seq<u8>) -> Option<Seq<Seq<char>>>;

/// Reads `body` as a JSON array of strings with `serde_json::from_slice`. The
/// array it gives is named [`json_string_array`]; the error is passed on.
#[verifier::external_body]
fn parse_string_array(body: &[u8]) -> (r: Result<Vec<String>, serde_json::Error>)
    ensures
        match r {
            Ok(v) => json_string_array(body@) == Some(v@.map_values(|s: String| s@)),
            Err(_) => json_string_array(body@) is None,
        },
{
    serde_json::from_slice::<Vec<String>>(body)
}

/// The `FileData` for the first server path of an upload answer:
/// `{path, url: {base}/gradio_api/file={path}}`; `UploadEmpty` when there is
/// none.
pub fn file_data_from_paths(endpoint: &GradioEndpoint, paths: Vec<String>) -> (r: Result<FileData, GradioError>)
    ensures
        paths@.len() == 0 ==> r matches Err(GradioError::UploadEmpty),
        paths@.len() > 0 ==> (r matches Ok(f) && f.path@ == paths@[0]@ && f.url@ == endpoint.base()
            + "/gradio_api/file="@ + paths@[0]@),
{
    if paths.len() == 0 {
        return Err(GradioError::UploadEmpty);
    }
    let path = paths[0].clone();
    let url = endpoint.file_url(path.as_str());
    Ok(FileData { path, url })
}

/// Reads the answer of a successful upload: a JSON array of server paths, of
/// which the first one is taken.
pub fn parse_upload_response(endpoint: &GradioEndpoint, body: &[u8]) -> (r: Result<FileData, GradioError>)
    ensures
        json_string_array(body@) is None ==> r matches Err(GradioError::UploadParse(_)),
        json_string_array(body@) is Some && json_string_array(body@)->0.len() == 0 ==> r matches Err(
            GradioError::UploadEmpty,
        ),
        json_string_array(body@) is Some && json_string_array(body@)->0.len() > 0 ==> (r matches Ok(f)
            && f.path@ == json_string_array(body@)->0[0] && f.url@ == endpoint.base()
            + "/gradio_api/file="@ + json_string_array(body@)->0[0]),
{
    match parse_string_array(body) {
        Ok(paths) => {
            proof {
                if paths@.len() > 0 {
                    assert(paths@.map_values(|s: String| s@)[0] == paths@[0]@);
                }
            }
            file_data_from_paths(endpoint, paths)
        },
        Err(e) => Err(GradioError::UploadParse(e)),
    }
}


/// The state of an event stream reader: the current message's event name and
/// the data lines read for it so far.
pub struct SseState {
    pub event: Seq<char>,
    pub data: Seq<Seq<char>>,
}

/// What one line of an event stream leads to.
pub enum SseOutcome {
    /// Read on.
    Continue,
    /// An `event: complete` message ended; its data lines, joined.
    Complete(Seq<char>),
    /// An `event: error` message ended; its data lines, joined.
    Failed(Seq<char>),
}

/// The state before any line.
pub open spec fn sse_start() -> SseState {
    SseState { event: Seq::empty(), data: Seq::empty() }
}

/// `event:`
pub open spec fn event_field() -> Seq<char> {
    seq!['e', 'v', 'e', 'n', 't', ':']
}

/// `data:`
pub open spec fn data_field() -> Seq<char> {
    seq!['d', 'a', 't', 'a', ':']
}

/// `complete`
pub open spec fn complete_event() -> Seq<char> {
    seq!['c', 'o', 'm', 'p', 'l', 'e', 't', 'e']
}

/// `error`
pub open spec fn error_event() -> Seq<char> {
    seq!['e', 'r', 'r', 'o', 'r']
}

/// The lines joined with nothing between them.
pub open spec fn concat_all(lines: Seq<Seq<char>>) -> Seq<char>
    decreases lines.len(),
{
    if lines.len() == 0 {
        Seq::empty()
    } else {
        concat_all(lines.drop_last()) + lines.last()
    }
}

/// One line of an event stream. A blank line ends the current message: a
/// `complete` or `error` message gives its joined data, any other is forgotten.
/// `event:` sets the event name and `data:` adds a data line, both with
/// surrounding whitespace trimmed; other lines (`id:`, `retry:`, comments) are
/// ignored.
pub open spec fn sse_next(st: SseState, line: Seq<char>) -> (SseState, SseOutcome) {
    if line.len() == 0 {
        if st.event == complete_event() {
            (st, SseOutcome::Complete(concat_all(st.data)))
        } else if st.event == error_event() {
            (st, SseOutcome::Failed(concat_all(st.data)))
        } else {
            (sse_start(), SseOutcome::Continue)
        }
    } else if has_prefix(line, event_field()) {
        (
            SseState { event: trim_spec(line.subrange(6, line.len() as int)), data: st.data },
            SseOutcome::Continue,
        )
    } else if has_prefix(line, data_field()) {
        (
            SseState {
                event: st.event,
                data: st.data.push(trim_spec(line.subrange(5, line.len() as int))),
            },
            SseOutcome::Continue,
        )
    } else {
        (st, SseOutcome::Continue)
    }
}

/// Reading `lines` from `st` until a message decides: the state reached and
/// the outcome (`Continue` when the lines run out first).
pub open spec fn sse_fold(st: SseState, lines: Seq<Seq<char>>) -> (SseState, SseOutcome)
    decreases lines.len(),
{
    if lines.len() == 0 {
        (st, SseOutcome::Continue)
    } else {
        let (next, out) = sse_next(st, lines[0]);
        if out is Continue {
            sse_fold(next, lines.drop_first())
        } else {
            (next, out)
        }
    }
}

/// What a stream of `lines` yields: the joined data of its first `complete`
/// message, the joined data of an `error` message met before it, or
/// `Continue` when neither comes.
pub open spec fn sse_outcome(lines: Seq<Seq<char>>) -> SseOutcome {
    sse_fold(sse_start(), lines).1
}

/// Messages that neither complete nor fail leave nothing behind: when the
/// lines `pre` end with the state as it was at the start, reading
/// `pre + post` gives what reading `post` alone gives.
pub proof fn lemma_sse_forgets_finished_messages(pre: Seq<Seq<char>>, post: Seq<Seq<char>>)
    requires
        sse_fold(sse_start(), pre) == (sse_start(), SseOutcome::Continue),
    ensures
        sse_outcome(pre + post) == sse_outcome(post),
{
    lemma_sse_fold_append(sse_start(), pre, post);
}

/// The first message that completes or fails decides the stream: once the
/// lines `pre` have decided, no later line changes the outcome.
pub proof fn lemma_sse_first_decision_wins(pre: Seq<Seq<char>>, post: Seq<Seq<char>>)
    requires
        !(sse_outcome(pre) is Continue),
    ensures
        sse_outcome(pre + post) == sse_outcome(pre),
{
    lemma_sse_fold_append(sse_start(), pre, post);
}

/// Reading `a + b` from `st` is reading `a`, then, when `a` did not decide,
/// reading `b` from the state it reached.
pub proof fn lemma_sse_fold_append(st: SseState, a: Seq<Seq<char>>, b: Seq<Seq<char>>)
    ensures
        sse_fold(st, a + b) == (if sse_fold(st, a).1 is Continue {
            sse_fold(sse_fold(st, a).0, b)
        } else {
            sse_fold(st, a)
        }),
    decreases a.len(),
{
    if a.len() == 0 {
        assert(a + b =~= b);
    } else {
        assert((a + b)[0] == a[0]);
        assert((a + b).drop_first() =~= a.drop_first() + b);
        let (next, out) = sse_next(st, a[0]);
        if out is Continue {
            lemma_sse_fold_append(next, a.drop_first(), b);
        }
    }
}

/// What reading one line of an event stream leads to.
#[derive(Debug, Clone, PartialEq, Eq)]
pub enum SseStep {
    /// Read on.
    Continue,
    /// An `event: complete` message ended; its data lines, joined.
    Complete(String),
    /// An `event: error` message ended; its data lines, joined.
    Failed(String),
}

impl View for SseStep {
    type V = SseOutcome;

    open spec fn view(&self) -> SseOutcome {
        match self {
            SseStep::Continue => SseOutcome::Continue,
            SseStep::Complete(s) => SseOutcome::Complete(s@),
            SseStep::Failed(s) => SseOutcome::Failed(s@),
        }
    }
}

/// A reader of a Gradio server-sent event stream, fed one line at a time
/// (without its line ending).
#[derive(Debug)]
pub struct SseParser {
    event: String,
    data_lines: Vec<String>,
}

fn join_lines(lines: &Vec<String>) -> (r: String)
    ensures
        r@ == concat_all(texts(lines@)),
{
    let mut out = String::new();
    let mut i: usize = 0;
    while i < lines.len()
        invariant
            i <= lines@.len(),
            out@ == concat_all(texts(lines@.take(i as int))),
        decreases lines@.len() - i,
    {
        out.append(lines[i].as_str());
        assert(texts(lines@.take(i + 1)).drop_last() =~= texts(lines@.take(i as int)));
        i = i + 1;
    }
    assert(lines@.take(lines@.len() as int) =~= lines@);
    out
}

fn str_is(s: &String, lit: &str) -> (r: bool)
    ensures
        r == (s@ == lit@),
{
    let owned = lit.to_owned();
    *s == owned
}

impl View for SseParser {
    type V = SseState;

    closed spec fn view(&self) -> SseState {
        SseState { event: self.event@, data: texts(self.data_lines@) }
    }
}

impl SseParser {
    /// A reader at the start of a stream.
    pub fn new() -> (r: Self)
        ensures
            r@ == sse_start(),
    {
        let r = SseParser { event: String::new(), data_lines: Vec::new() };
        assert(r@.data =~= Seq::<Seq<char>>::empty());
        r
    }

    /// Reads one line: see [`sse_next`].
    pub fn feed(&mut self, line: &str) -> (r: SseStep)
        ensures
            (final(self)@, r@) == sse_next(old(self)@, line@),
    {
        let cs = chars_of(line);
        if cs.len() == 0 {
            proof {
                reveal_strlit("complete");
                reveal_strlit("error");
                assert("complete"@ =~= complete_event());
                assert("error"@ =~= error_event());
            }
            if str_is(&self.event, "complete") {
                assert(self.event@ == complete_event());
                return SseStep::Complete(join_lines(&self.data_lines));
            } else if str_is(&self.event, "error") {
                assert(self.event@ == error_event());
                return SseStep::Failed(join_lines(&self.data_lines));
            }
            assert(self.event@ != complete_event());
            assert(self.event@ != error_event());
            self.event = String::new();
            self.data_lines = Vec::new();
            assert(self@.data =~= Seq::<Seq<char>>::empty());
            return SseStep::Continue;
        }
        proof {
            reveal_strlit("event:");
            reveal_strlit("data:");
        }
        if starts_with(&cs, "event:") {
            assert("event:"@ =~= event_field());
            let (a, b) = trim_bounds(&cs, 6);
            self.event = line.substring_char(a, b).to_owned();
        } else if starts_with(&cs, "data:") {
            assert("event:"@ =~= event_field());
            assert("data:"@ =~= data_field());
            let (a, b) = trim_bounds(&cs, 5);
            let text = line.substring_char(a, b).to_owned();
            self.data_lines.push(text);
            assert(self@.data =~= old(self)@.data.push(text@));
        } else {
            assert("event:"@ =~= event_field());
            assert("data:"@ =~= data_field());
        }
        SseStep::Continue
    }
}

/// Why a prediction's event stream gave no result.
#[derive(Debug)]
pub enum SseError {
    /// The data of the `complete` message is not a JSON array.
    CompleteData { error: serde_json::Error, raw: String },
    /// The stream carried an `event: error` message with this data.
    ErrorEvent(String),
    /// The stream ended without a `complete` or `error` message.
    StreamEnded,
}

/// What a prediction yields once its event stream has decided (or ended,
/// `Continue`): the JSON array carried by the `complete` message, parsed by
/// serde_json; an error with the message's data for an `error` message; an
/// end-of-stream error when nothing decided.
pub fn prediction_result(step: SseStep) -> (r: Result<Vec<JsonValue>, SseError>)
    ensures
        match step {
            SseStep::Complete(d) => match r {
                Ok(v) => json_array_values(d@) == Some(v@),
                Err(e) => json_array_values(d@) is None && (e matches SseError::CompleteData { raw, .. }
                    && raw@ == d@),
            },
            SseStep::Failed(d) => (r matches Err(SseError::ErrorEvent(m)) && m@ == d@),
            SseStep::Continue => (r matches Err(SseError::StreamEnded)),
        },
{
    match step {
        SseStep::Complete(data) => match parse_json_array(data.as_str()) {
            Ok(values) => Ok(values),
            Err(error) => Err(SseError::CompleteData { error, raw: data }),
        },
        SseStep::Failed(data) => Err(SseError::ErrorEvent(data)),
        SseStep::Continue => Err(SseError::StreamEnded),
    }
}

} // verus!
