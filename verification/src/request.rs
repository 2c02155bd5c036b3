//! The embeddings request: what a client asks for.

use vstd::prelude::*;
use crate::error::PipelineError;

verus! {

/// The error of the JSON reader. Nothing of it is read here.
#[verifier::external_type_specification]
#[verifier::external_body]
pub struct ExJsonError(serde_json::Error);

/// The model, the texts and the user that a request body states, or `None`
/// for a body that is not JSON or not of the shape of an embeddings request.
pub uninterp spec fn decoded_body(body: Seq<u8>) -> Option<
    (Seq<char>, Seq<Seq<char>>, Option<Seq<char>>),
>;

/// The contents of a list of strings.
pub open spec fn texts(strings: Seq<String>) -> Seq<Seq<char>> {
    Seq::new(strings.len(), |i: int| strings[i]@)
}

/// The contents of an optional string.
pub open spec fn optional_text(string: Option<String>) -> Option<Seq<char>> {
    match string {
        Some(s) => Some(s@),
        None => None,
    }
}

/// Reads a request body with `serde_json::from_slice`, as an
/// `openai_api_rust::embeddings::EmbeddingsBody`, and hands out its three
/// fields. The contract gives what was read the name `decoded_body`: the
/// reader is a function of the bytes alone. It claims nothing else of it.
#[verifier::external_body]
fn parse_body(body: &[u8]) -> (r: Result<(String, Vec<String>, Option<String>), serde_json::Error>)
    ensures
        r matches Ok(fields) ==> decoded_body(body@) == Some(
            (fields.0@, texts(fields.1@), optional_text(fields.2)),
        ),
        r is Err ==> decoded_body(body@) is None,
{
    match serde_json::from_slice::<openai_api_rust::embeddings::EmbeddingsBody>(body) {
        Ok(parsed) => Ok((parsed.model, parsed.input, parsed.user)),
        Err(e) => Err(e),
    }
}

/// A request for embeddings: a model name, at least one text, and
/// optionally a name for the end user.
///
/// The model name is echoed in the response and not looked up anywhere.
/// The user is carried along and not used.
#[derive(Debug)]
pub struct EmbeddingsRequest {
    model: String,
    input: Vec<String>,
    user: Option<String>,
}

impl View for EmbeddingsRequest {
    type V = (Seq<char>, Seq<Seq<char>>, Option<Seq<char>>);

    closed spec fn view(&self) -> Self::V {
        (self.model@, texts(self.input@), optional_text(self.user))
    }
}

impl EmbeddingsRequest {
    #[verifier::type_invariant]
    spec fn well_formed(self) -> bool {
        self.input@.len() >= 1
    }

    /// Makes a request of its three parts. One without a text is refused.
    pub fn new(model: String, input: Vec<String>, user: Option<String>) -> (r: Result<
        Self,
        PipelineError,
    >)
        ensures
            input@.len() == 0 ==> (r matches Err(f) && f == PipelineError::EmptyInput),
            input@.len() > 0 ==> (r matches Ok(request) && request@ == (
                model@,
                texts(input@),
                optional_text(user),
            )),
    {
        if input.len() == 0 {
            Err(PipelineError::EmptyInput)
        } else {
            Ok(EmbeddingsRequest { model, input, user })
        }
    }

    /// The name of the model asked for.
    pub fn model(&self) -> (m: &String)
        ensures
            m@ == self@.0,
    {
        &self.model
    }

    /// The texts to embed: at least one, in the order given.
    pub fn input(&self) -> (texts: &Vec<String>)
        ensures
            self::texts(texts@) == self@.1,
            texts@.len() >= 1,
    {
        proof {
            use_type_invariant(self);
        }
        &self.input
    }

    /// The end user named in the request, if any.
    pub fn user(&self) -> (u: &Option<String>)
        ensures
            optional_text(*u) == self@.2,
    {
        &self.user
    }

    /// How many texts the request holds.
    pub fn batch_size(&self) -> (n: usize)
        ensures
            n == self@.1.len(),
            n >= 1,
    {
        proof {
            use_type_invariant(self);
        }
        self.input.len()
    }
}

/// Reads an embeddings request from the body of an HTTP request.
///
/// A body that the JSON reader refuses is malformed. One that it reads but
/// that holds no text is refused as well. Any other body gives the request
/// that it states.
pub fn decode_request(body: &[u8]) -> (r: Result<EmbeddingsRequest, PipelineError>)
    ensures
        match decoded_body(body@) {
            None => r matches Err(f) && f == PipelineError::MalformedBody,
            Some(fields) => if fields.1.len() == 0 {
                r matches Err(f) && f == PipelineError::EmptyInput
            } else {
                r matches Ok(request) && request@ == fields
            },
        },
{
    match parse_body(body) {
        Err(_) => Err(PipelineError::MalformedBody),
        Ok(fields) => EmbeddingsRequest::new(fields.0, fields.1, fields.2),
    }
}

} // verus!
