//! Why a generation fails.
use vstd::prelude::*;
use crate::extract::{ExtractError, after_opener, extraction, fenced_region};

verus! {

/// The four ways a generation can fail. None is retried.
pub enum GenerateError {
    /// The credential is missing, or an address cannot be parsed; no request
    /// was sent.
    Configuration(String),
    /// The round trip could not complete.
    Transport(String),
    /// A body could not be encoded, or the reply is not of the expected shape.
    Protocol(String),
    /// The reply holds no usable code block.
    Extraction(ExtractError),
}

impl GenerateError {
    /// A message for humans.
    pub fn message(&self) -> (r: String)
        ensures
            r@ == match self {
                GenerateError::Configuration(m) => "configuration error: "@ + m@,
                GenerateError::Transport(m) => "transport error: "@ + m@,
                GenerateError::Protocol(m) => "protocol error: "@ + m@,
                GenerateError::Extraction(e) => match e {
                    ExtractError::NoResponse => "no response"@,
                    ExtractError::NoStart(t) => "no code block start found: "@ + t@,
                    ExtractError::NoEnd(t) => "no code block end found: "@ + t@,
                },
            },
    {
        match self {
            GenerateError::Configuration(m) => String::from_str("configuration error: ").concat(
                m.as_str(),
            ),
            GenerateError::Transport(m) => String::from_str("transport error: ").concat(
                m.as_str(),
            ),
            GenerateError::Protocol(m) => String::from_str("protocol error: ").concat(m.as_str()),
            GenerateError::Extraction(e) => e.message(),
        }
    }
}

/// The text of the first of the reply's choices; a reply without any is a
/// protocol error that quotes the reply's body.
pub fn first_choice(texts: Vec<String>, body: &str) -> (r: Result<String, GenerateError>)
    ensures
        texts@.len() > 0 ==> (r matches Ok(t) && t@ == texts@[0]@),
        texts@.len() == 0 ==> (r matches Err(GenerateError::Protocol(m)) && m@ == "no choice in reply: "@
            + body@),
{
    let mut texts = texts;
    if texts.len() == 0 {
        return Err(
            GenerateError::Protocol(String::from_str("no choice in reply: ").concat(body)),
        );
    }
    Ok(texts.swap_remove(0))
}

/// `r` is what extracting code of language `lang` from the text `t` gives.
pub open spec fn extracted_from(r: Result<String, ExtractError>, t: Seq<char>, lang: Seq<char>) -> bool {
    &&& (after_opener(t, lang) is None <==> (r matches Err(ExtractError::NoStart(_))))
    &&& (after_opener(t, lang) is Some && fenced_region(t, lang) is None <==> (r matches Err(
        ExtractError::NoEnd(_),
    )))
    &&& (extraction(t, lang) is Some ==> r is Ok)
    &&& match r {
        Ok(c) => extraction(t, lang) == Some(c@),
        Err(ExtractError::NoStart(s)) => s@ == t,
        Err(ExtractError::NoEnd(s)) => s@ == t,
        Err(ExtractError::NoResponse) => false,
    }
}

/// `r` is what extracting code of language `lang` from the reply text `t`
/// gives, an extraction failure wrapped as such.
pub open spec fn generated_from(r: Result<String, GenerateError>, t: Seq<char>, lang: Seq<char>) -> bool {
    match r {
        Ok(c) => extraction(t, lang) == Some(c@),
        Err(GenerateError::Extraction(e)) => extracted_from(Err(e), t, lang),
        Err(_) => false,
    }
}

/// Wraps an extraction outcome as a generation outcome.
pub fn lift_extraction(r: Result<String, ExtractError>) -> (g: Result<String, GenerateError>)
    ensures
        forall|t: Seq<char>, lang: Seq<char>|
            extracted_from(r, t, lang) ==> #[trigger] generated_from(g, t, lang),
{
    match r {
        Ok(c) => Ok(c),
        Err(e) => Err(GenerateError::Extraction(e)),
    }
}

} // verus!
