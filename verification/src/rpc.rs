//! The RPC transport's verified half.
//!
//! One call is: resolve the session's port, open a fresh connection,
//! send one correlated request frame, then read incoming frames in
//! order until one carries the request's correlation id or the stream
//! closes.  The connection itself is the shell's work; this module
//! decides everything else.  [`SidecarManager::prepare_command`]
//! plans the call (port lookup, fresh id, exact request text, URL),
//! [`classify_frame`] judges one incoming frame, and
//! [`correlate_frames`] states the whole receive loop's behaviour
//! over a recorded sequence of frames: the first frame with the
//! matching id is returned as-is, frames with other ids are silently
//! discarded, a malformed frame is a protocol error, and a close —
//! or running out of frames — ends the call as `ConnectionClosed`.

use vstd::prelude::*;
use vstd::string::*;

use crate::errors::SidecarError;
use crate::manager::SidecarManager;
use crate::wire::request_text_spec;
use crate::wire::ws_url_text;
use crate::wire::ws_url_text_spec;
use crate::wire::encode_request;

verus! {

/// Whether serde_json accepts the text as one JSON document.
pub uninterp spec fn json_valid(s: Seq<char>) -> bool;

/// The string value of the document's `id` member, when the text is
/// a JSON object whose `id` member is a string.
pub uninterp spec fn json_id_field(s: Seq<char>) -> Option<Seq<char>>;

/// The normal form the url crate gives the text, when it parses.
pub uninterp spec fn url_normalized(s: Seq<char>) -> Option<Seq<char>>;

#[verifier::external_type_specification]
#[verifier::external_body]
pub struct ExValue(serde_json::Value);

/// Relies on serde_json::from_str::<Value>: whether a frame parses is
/// a function of its characters alone, named [`json_valid`]; and on
/// serde_json::Value::get and Value::as_str: the `id` member's string
/// value, a function of the same characters, named [`json_id_field`].
#[verifier::external_body]
fn parse_frame(text: &str) -> (r: Option<(serde_json::Value, Option<String>)>)
    ensures
        r.is_some() == json_valid(text@),
        r matches Some(p) ==> (match p.1 {
            Some(s) => json_id_field(text@) == Some(s@),
            None => json_id_field(text@) == None::<Seq<char>>,
        }),
{
    match serde_json::from_str::<serde_json::Value>(text) {
        Ok(v) => {
            let id = match v.get("id") {
                Some(x) => match x.as_str() {
                    Some(s) => Some(s.to_string()),
                    None => None,
                },
                None => None,
            };
            Some((v, id))
        },
        Err(_) => None,
    }
}

/// Relies on serde_json::to_string: serializing a JSON value has no
/// failure path — it writes into a vector and every object key is a
/// string — so the document text always comes back.  Nothing is
/// claimed about parsing the text back: the parser enforces a
/// recursion limit that the serializer does not, so a deeply nested
/// value can serialize to text the parser would reject.  (A value
/// nested deeply enough can also exhaust the stack and abort, which
/// no contract can exclude.)
#[verifier::external_body]
fn value_to_text(v: &serde_json::Value) -> (r: Option<String>)
    ensures
        r is Some,
{
    match serde_json::to_string(v) {
        Ok(t) => Some(t),
        Err(_) => None,
    }
}

/// A character of a hyphenated lower-case UUID rendering.
pub open spec fn uuid_char(c: char) -> bool {
    c == '-' || ('0' <= c && c <= '9') || ('a' <= c && c <= 'f')
}

/// Relies on uuid::Uuid::new_v4 and its display form: a freshly
/// generated random identifier, rendered as 36 characters of
/// hyphenated lower-case hex.  The value is random, so only its
/// shape is stated.  The generator panics if the operating system's
/// randomness source fails — an environmental failure no `requires`
/// could exclude.
#[verifier::external_body]
fn fresh_request_id() -> (r: String)
    ensures
        r@.len() == 36,
        forall|i: int| 0 <= i < r@.len() ==> uuid_char(#[trigger] r@[i]),
{
    uuid::Uuid::new_v4().to_string()
}

/// Relies on url::Url::parse and the parsed URL's display form: both
/// are functions of the given text alone, named [`url_normalized`];
/// `None` stands for a parse error.
#[verifier::external_body]
fn normalize_url(s: &str) -> (r: Option<String>)
    ensures
        (match r {
            Some(t) => url_normalized(s@) == Some(t@),
            None => url_normalized(s@) == None::<Seq<char>>,
        }),
{
    match url::Url::parse(s) {
        Ok(u) => Some(u.to_string()),
        Err(_) => None,
    }
}

/// One message received from the worker's stream, as the shell hands
/// it over: a text frame's payload, a close frame, or any other kind
/// of frame (ping, pong, binary), which a call ignores.
#[derive(Debug)]
pub enum FrameEvent {
    /// A text frame and its payload.
    Text(String),
    /// The stream's close frame.
    Close,
    /// Any other frame kind.
    Other,
}

/// The reply a completed call hands back: the parsed JSON document
/// and the raw frame text it was parsed from.
#[derive(Debug)]
pub struct CallReply {
    /// The reply document, returned to the caller as-is.
    pub value: serde_json::Value,
    /// The exact text of the frame the document was parsed from.
    pub raw: String,
}

/// What a call does with one incoming frame.
#[derive(Debug)]
pub enum FrameAction {
    /// The frame carries the matching id: the call completes with it.
    Reply(CallReply),
    /// The frame does not concern this call: read on.
    Discard,
    /// The frame ends the call with an error.
    Fail(SidecarError),
}

/// Whether the frame's text carries the call's correlation id.
pub open spec fn frame_matches(t: Seq<char>, id: Seq<char>) -> bool {
    json_valid(t) && json_id_field(t) == Some(id)
}

/// Whether the frame ends the receive loop: a matching or malformed
/// text frame does, a close frame does, anything else is read past.
pub open spec fn frame_decisive(f: FrameEvent, id: Seq<char>) -> bool {
    match f {
        FrameEvent::Text(t) => !json_valid(t@) || frame_matches(t@, id),
        FrameEvent::Close => true,
        FrameEvent::Other => false,
    }
}

/// The position of the first frame that ends the receive loop.
pub open spec fn first_decisive(frames: Seq<FrameEvent>, id: Seq<char>) -> Option<int>
    decreases frames.len(),
{
    if frames.len() == 0 {
        None
    } else if frame_decisive(frames[0], id) {
        Some(0)
    } else {
        match first_decisive(frames.skip(1), id) {
            None => None,
            Some(j) => Some(j + 1),
        }
    }
}

proof fn lemma_first_decisive_at(frames: Seq<FrameEvent>, id: Seq<char>, i: int)
    requires
        0 <= i < frames.len(),
        frame_decisive(frames[i], id),
        forall|j: int| 0 <= j < i ==> !frame_decisive(frames[j], id),
    ensures
        first_decisive(frames, id) == Some(i),
    decreases i,
{
    if i > 0 {
        assert(forall|j: int| 0 <= j < i - 1 ==> !frame_decisive(frames.skip(1)[j], id));
        assert(frame_decisive(frames.skip(1)[i - 1], id));
        lemma_first_decisive_at(frames.skip(1), id, i - 1);
    }
}

proof fn lemma_first_decisive_none(frames: Seq<FrameEvent>, id: Seq<char>)
    requires
        forall|j: int| 0 <= j < frames.len() ==> !frame_decisive(frames[j], id),
    ensures
        first_decisive(frames, id) == None::<int>,
    decreases frames.len(),
{
    if frames.len() > 0 {
        assert(forall|j: int| 0 <= j < frames.skip(1).len() ==> !frame_decisive(
            frames.skip(1)[j],
            id,
        ));
        lemma_first_decisive_none(frames.skip(1), id);
    }
}

/// Judge one incoming frame against the call's correlation id: the
/// first frame whose id matches is the result; a text frame that is
/// not JSON is a protocol error; a frame with another id — or no
/// string id at all — is silently discarded; a close frame ends the
/// call as closed; other frame kinds are read past.
pub fn classify_frame(frame: &FrameEvent, request_id: &str) -> (r: FrameAction)
    ensures
        frame matches FrameEvent::Text(t) ==> (if frame_matches(t@, request_id@) {
            r matches FrameAction::Reply(rep) && rep.raw@ == t@
        } else if !json_valid(t@) {
            r matches FrameAction::Fail(e) && e == SidecarError::ProtocolError
        } else {
            r matches FrameAction::Discard
        }),
        frame matches FrameEvent::Close ==> r matches FrameAction::Fail(e) && e
            == SidecarError::ConnectionClosed,
        frame matches FrameEvent::Other ==> r matches FrameAction::Discard,
{
    match frame {
        FrameEvent::Text(t) => {
            match parse_frame(t.as_str()) {
                None => FrameAction::Fail(SidecarError::ProtocolError),
                Some(parsed) => {
                    let (value, id_opt) = parsed;
                    let matched = match &id_opt {
                        Some(s) => {
                            let req: String = request_id.to_owned();
                            *s == req
                        },
                        None => false,
                    };
                    if matched {
                        FrameAction::Reply(CallReply { value, raw: t.clone() })
                    } else {
                        FrameAction::Discard
                    }
                },
            }
        },
        FrameEvent::Close => FrameAction::Fail(SidecarError::ConnectionClosed),
        FrameEvent::Other => FrameAction::Discard,
    }
}

/// The whole receive loop of one call, over a recorded sequence of
/// frames: read frames in order; the first one carrying the matching
/// id is returned as-is, together with its raw text; earlier frames
/// with other ids are discarded; a malformed frame fails the call
/// with `ProtocolError`; a close frame — or the end of the stream —
/// fails it with `ConnectionClosed`.
pub fn correlate_frames(frames: &Vec<FrameEvent>, request_id: &str) -> (r: Result<
    CallReply,
    SidecarError,
>)
    ensures
        (match first_decisive(frames@, request_id@) {
            None => r matches Err(e) && e == SidecarError::ConnectionClosed,
            Some(i) => (match frames@[i] {
                FrameEvent::Text(t) => (if json_valid(t@) {
                    r matches Ok(rep) && rep.raw@ == t@
                } else {
                    r matches Err(e) && e == SidecarError::ProtocolError
                }),
                FrameEvent::Close => r matches Err(e) && e == SidecarError::ConnectionClosed,
                FrameEvent::Other => false,
            }),
        }),
        r matches Ok(rep) ==> json_valid(rep.raw@) && json_id_field(rep.raw@) == Some(
            request_id@,
        ),
{
    let n = frames.len();
    let mut i: usize = 0;
    while i < n
        invariant
            i <= n,
            n == frames@.len(),
            forall|j: int| 0 <= j < i ==> !frame_decisive(frames@[j], request_id@),
        decreases n - i,
    {
        let action = classify_frame(&frames[i], request_id);
        match action {
            FrameAction::Reply(rep) => {
                proof {
                    lemma_first_decisive_at(frames@, request_id@, i as int);
                }
                return Ok(rep);
            },
            FrameAction::Fail(e) => {
                proof {
                    lemma_first_decisive_at(frames@, request_id@, i as int);
                }
                return Err(e);
            },
            FrameAction::Discard => {},
        }
        i += 1;
    }
    proof {
        lemma_first_decisive_none(frames@, request_id@);
    }
    Err(SidecarError::ConnectionClosed)
}

/// Everything the shell needs to perform one planned call: the
/// session's port, the fresh correlation id, the exact request frame
/// to send, and the URL to connect to.
#[derive(Debug)]
pub struct CommandPlan {
    /// The port the session's record names.
    pub ws_port: u16,
    /// The call's fresh correlation id.
    pub request_id: String,
    /// The exact text of the request frame.
    pub request_text: String,
    /// The normalized URL of the worker's endpoint.
    pub ws_url: String,
}

impl SidecarManager {
    /// Plan one call to a session's worker, with the params document
    /// given as already-serialized text: resolve the session's port
    /// (`SessionNotFound` if the label is not tracked), draw a fresh
    /// correlation id, and build the exact request frame and
    /// endpoint URL.  The plan succeeds exactly when the session
    /// exists and the endpoint text parses as a URL.
    pub fn prepare_command(&self, window_label: &str, method: &str, params_text: &str) -> (r:
        Result<CommandPlan, SidecarError>)
        requires
            self.inv(),
        ensures
            (match r {
                Ok(plan) => self.sessions().contains_key(window_label@) && plan.ws_port
                    == self.sessions()[window_label@].ws_port && plan.request_id@.len() == 36 && (
                forall|i: int|
                    0 <= i < plan.request_id@.len() ==> uuid_char(#[trigger] plan.request_id@[i]))
                    && plan.request_text@ == request_text_spec(
                    method@,
                    params_text@,
                    plan.request_id@,
                ) && url_normalized(ws_url_text_spec(plan.ws_port)) == Some(plan.ws_url@),
                Err(e) => (if !self.sessions().contains_key(window_label@) {
                    e == SidecarError::SessionNotFound
                } else {
                    e == SidecarError::ConnectionError && url_normalized(
                        ws_url_text_spec(self.sessions()[window_label@].ws_port),
                    ) == None::<Seq<char>>
                }),
            }),
    {
        let port = match self.get_ws_port(window_label) {
            Some(p) => p,
            None => {
                return Err(SidecarError::SessionNotFound);
            },
        };
        let url_text = ws_url_text(port);
        let ws_url = match normalize_url(url_text.as_str()) {
            Some(u) => u,
            None => {
                return Err(SidecarError::ConnectionError);
            },
        };
        let request_id = fresh_request_id();
        let request_text = encode_request(method, params_text, request_id.as_str());
        Ok(CommandPlan { ws_port: port, request_id, request_text, ws_url })
    }

    /// Plan one call whose params are given as a JSON value, as the
    /// host hands them over: the value is serialized — which cannot
    /// fail — and spliced into the request frame.  The plan succeeds
    /// exactly when the session exists and the endpoint text parses
    /// as a URL, just as [`SidecarManager::prepare_command`] does.
    pub fn prepare_command_json(
        &self,
        window_label: &str,
        method: &str,
        params: &serde_json::Value,
    ) -> (r: Result<CommandPlan, SidecarError>)
        requires
            self.inv(),
        ensures
            (match r {
                Ok(plan) => self.sessions().contains_key(window_label@) && plan.ws_port
                    == self.sessions()[window_label@].ws_port && plan.request_id@.len() == 36 && (
                forall|i: int|
                    0 <= i < plan.request_id@.len() ==> uuid_char(#[trigger] plan.request_id@[i]))
                    && (exists|p: Seq<char>|
                    plan.request_text@ == request_text_spec(method@, p, plan.request_id@))
                    && url_normalized(ws_url_text_spec(plan.ws_port)) == Some(plan.ws_url@),
                Err(e) => (if !self.sessions().contains_key(window_label@) {
                    e == SidecarError::SessionNotFound
                } else {
                    e == SidecarError::ConnectionError && url_normalized(
                        ws_url_text_spec(self.sessions()[window_label@].ws_port),
                    ) == None::<Seq<char>>
                }),
            }),
    {
        let params_text = value_to_text(params).unwrap();
        let r = self.prepare_command(window_label, method, params_text.as_str());
        proof {
            if r is Ok {
                let plan = r->Ok_0;
                assert(plan.request_text@ == request_text_spec(
                    method@,
                    params_text@,
                    plan.request_id@,
                ));
            }
        }
        r
    }
}

} // verus!
