//! The host functions the plugin calls.
//!
//! Every host function takes a JSON text and gives one back, and answers with
//! an `{"error": "..."}` envelope where it fails. The calls themselves are made
//! outside this crate: an operation that needs one hands out a [`HostCall`],
//! and goes on with what came back. [`Step`] is how far an operation has got.
use vstd::prelude::*;
use vstd::string::StringExecFns;
use crate::json::{
    Json, JsonView, json_parsed, json_string, json_text, nesting_limit, outcome, parse_json,
    parses_to, reads_back,
};

verus! {

/// Which host function a [`HostCall`] targets. `HttpRequest` is gated on the
/// `http_request` permission the manifest declares; a plugin may always read
/// and write its own settings.
#[derive(Clone, Copy, Debug, PartialEq, Eq, Structural)]
pub enum HostFn {
    HttpRequest,
    GetPluginSetting,
    SetPluginSetting,
}

/// One call of a host function: which one, and the JSON it is given.
#[derive(Debug)]
pub struct HostCall {
    pub which: HostFn,
    pub input: Json,
}

/// What a [`HostCall`] means.
pub struct HostCallView {
    pub which: HostFn,
    pub input: JsonView,
}

impl View for HostCall {
    type V = HostCallView;

    open spec fn view(&self) -> HostCallView {
        HostCallView { which: self.which, input: self.input@ }
    }
}

impl HostCall {
    /// The text the host function is given.
    pub fn input_text(&self) -> (r: String)
        ensures
            r@ == json_text(self@.input),
            reads_back(self@.input, nesting_limit()) ==> parses_to(r@, self@.input),
    {
        json_string(&self.input)
    }
}

/// How far an operation has got: it waits for what a host call gives back, or
/// it is done.
#[derive(Debug)]
pub enum Step<S, T> {
    Call(HostCall, S),
    Done(Result<T, String>),
}

/// What a [`Step`] means.
pub enum StepView<S, T> {
    Call(HostCallView, S),
    Done(Result<T, Seq<char>>),
}

impl<S: View, T: DeepView> View for Step<S, T> {
    type V = StepView<S::V, T::V>;

    open spec fn view(&self) -> StepView<S::V, T::V> {
        match self {
            Step::Call(call, state) => StepView::Call(call@, state@),
            Step::Done(r) => StepView::Done(outcome(*r)),
        }
    }
}

/// What a host function's answer means to the operation that asked: its value,
/// or the error of its envelope.
pub open spec fn envelope_of(parsed: Result<JsonView, Seq<char>>) -> Result<JsonView, Seq<char>> {
    match parsed {
        Err(e) => Err("host returned invalid json: "@ + e),
        Ok(value) => match value.str_at("error"@) {
            Some(e) => Err(e),
            None => Ok(value),
        },
    }
}

/// What the text or the failure of a host call means.
pub open spec fn reply_of(raw: Result<Seq<char>, Seq<char>>) -> Result<JsonView, Seq<char>> {
    match raw {
        Ok(text) => envelope_of(json_parsed(text)),
        Err(e) => Err(e),
    }
}

/// Turns an `{"error": "..."}` envelope into an error.
pub fn open_envelope(parsed: Result<Json, String>) -> (r: Result<Json, String>)
    ensures
        outcome(r) == envelope_of(outcome(parsed)),
{
    match parsed {
        Err(e) => Err("host returned invalid json: ".to_owned().concat(e.as_str())),
        Ok(value) => {
            let error: Option<String> = match value.str_at("error") {
                Some(e) => Some(e.to_owned()),
                None => None,
            };
            match error {
                Some(e) => Err(e),
                None => Ok(value),
            }
        },
    }
}

/// Reads what a host function gave back.
pub fn parse_envelope(out: &str) -> (r: Result<Json, String>)
    ensures
        outcome(r) == envelope_of(json_parsed(out@)),
{
    open_envelope(parse_json(out))
}

/// What became of a host call: the value it gave back, or why it failed,
/// whether by a trap or by its envelope.
pub fn host_reply(raw: Result<String, String>) -> (r: Result<Json, String>)
    ensures
        outcome(r) == reply_of(outcome(raw)),
{
    match raw {
        Ok(out) => parse_envelope(out.as_str()),
        Err(e) => Err(e),
    }
}

// ── Laws ──────────────────────────────────────────────────────────────
/// A host call fails where it traps, where its answer is no JSON, and where the
/// answer holds a string under `error`, each with its words; any other answer is
/// handed on as it is.
pub proof fn host_failures_are_told(text: Seq<char>, e: Seq<char>, value: JsonView)
    ensures
        reply_of(Err(e)) == Err::<JsonView, Seq<char>>(e),
        json_parsed(text) == Err::<JsonView, Seq<char>>(e) ==> reply_of(Ok(text)) == Err::<
            JsonView,
            Seq<char>,
        >("host returned invalid json: "@ + e),
        json_parsed(text) == Ok::<JsonView, Seq<char>>(value) ==> {
            &&& value.get("error"@) == Some(JsonView::String(e)) ==> reply_of(Ok(text)) == Err::<
                JsonView,
                Seq<char>,
            >(e)
            &&& !(value.get("error"@) matches Some(err) && err is String) ==> reply_of(Ok(text))
                == Ok::<JsonView, Seq<char>>(value)
        },
{
}

} // verus!
