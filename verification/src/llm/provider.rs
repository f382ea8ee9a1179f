//! What a language model returns for one citizen, and the errors of talking
//! to a model.
use vstd::prelude::*;

verus! {

/// The reply the model gives for a single citizen.
#[derive(Debug, PartialEq)]
pub struct CitizenResponse {
    pub speech: String,
    pub inner_thought: String,
    pub action: String,
    pub emotion_change: String,
    pub tech_hint: Option<String>,
}

/// The character content of a `CitizenResponse`.
pub struct ResponseFields {
    pub speech: Seq<char>,
    pub inner_thought: Seq<char>,
    pub action: Seq<char>,
    pub emotion_change: Seq<char>,
    pub tech_hint: Option<Seq<char>>,
}

/// The characters of an optional string.
pub open spec fn opt_view(o: Option<String>) -> Option<Seq<char>> {
    match o {
        Some(s) => Some(s@),
        None => None,
    }
}

impl View for CitizenResponse {
    type V = ResponseFields;

    open spec fn view(&self) -> ResponseFields {
        ResponseFields {
            speech: self.speech@,
            inner_thought: self.inner_thought@,
            action: self.action@,
            emotion_change: self.emotion_change@,
            tech_hint: opt_view(self.tech_hint),
        }
    }
}

/// The all-empty reply used in place of a malformed batch entry.
pub open spec fn empty_fields() -> ResponseFields {
    ResponseFields {
        speech: Seq::empty(),
        inner_thought: Seq::empty(),
        action: Seq::empty(),
        emotion_change: Seq::empty(),
        tech_hint: None,
    }
}

impl Clone for CitizenResponse {
    fn clone(&self) -> (r: CitizenResponse)
        ensures
            r@ == self@,
    {
        CitizenResponse {
            speech: self.speech.clone(),
            inner_thought: self.inner_thought.clone(),
            action: self.action.clone(),
            emotion_change: self.emotion_change.clone(),
            tech_hint: match &self.tech_hint {
                Some(t) => Some(t.clone()),
                None => None,
            },
        }
    }
}

impl Default for CitizenResponse {
    /// Empty texts and no tech hint.
    fn default() -> (r: CitizenResponse)
        ensures
            r@ == empty_fields(),
    {
        CitizenResponse {
            speech: String::new(),
            inner_thought: String::new(),
            action: String::new(),
            emotion_change: String::new(),
            tech_hint: None,
        }
    }
}

/// Failure of a model call or of reading its reply.
#[derive(Debug)]
pub enum LlmError {
    /// The HTTP exchange failed; the text describes the failure.
    Http(String),
    /// The reply was not valid in its format; the text is the format
    /// reader's message.
    Parse(String),
    /// The reply was readable but not what was asked for.
    Provider(String),
}

/// Which kind of failure, with its text.
pub enum LlmErrorView {
    Http(Seq<char>),
    Parse(Seq<char>),
    Provider(Seq<char>),
}

impl View for LlmError {
    type V = LlmErrorView;

    open spec fn view(&self) -> LlmErrorView {
        match self {
            LlmError::Http(m) => LlmErrorView::Http(m@),
            LlmError::Parse(m) => LlmErrorView::Parse(m@),
            LlmError::Provider(m) => LlmErrorView::Provider(m@),
        }
    }
}

/// How an error reads to a person.
pub open spec fn error_message(e: LlmErrorView) -> Seq<char> {
    match e {
        LlmErrorView::Http(m) => "HTTP error: "@ + m,
        LlmErrorView::Parse(m) => "parse error: "@ + m,
        LlmErrorView::Provider(m) => "Provider error: "@ + m,
    }
}

impl LlmError {
    /// The error as a person reads it, e.g. `Provider error: empty choices`.
    #[allow(clippy::inherent_to_string)]
    pub fn to_string(&self) -> (s: String)
        ensures
            s@ == error_message(self@),
    {
        match self {
            LlmError::Http(m) => {
                let mut s = String::from_str("HTTP error: ");
                s.append(m.as_str());
                s
            },
            LlmError::Parse(m) => {
                let mut s = String::from_str("parse error: ");
                s.append(m.as_str());
                s
            },
            LlmError::Provider(m) => {
                let mut s = String::from_str("Provider error: ");
                s.append(m.as_str());
                s
            },
        }
    }
}

/// The text of a chat reply: its first choice, or a provider error when the
/// model sent no choice at all.
pub fn first_choice_text(choices: Vec<String>) -> (r: Result<String, LlmError>)
    ensures
        choices@.len() == 0 ==> r is Err && r->Err_0@ == LlmErrorView::Provider("empty choices"@),
        choices@.len() > 0 ==> r is Ok && r->Ok_0@ == choices@[0]@,
{
    let mut choices = choices;
    if choices.len() == 0 {
        return Err(LlmError::Provider(String::from_str("empty choices")));
    }
    Ok(choices.swap_remove(0))
}

} // verus!
