//! Response fragments: one line of the backend's answer, read as a JSON
//! document that may carry a piece of text and a conversation context.

use crate::json::{integers_of, member_of, parse_value, parsed, text_of, value_model, JsonView};
use crate::text::{integers_view, text_view};
use vstd::prelude::*;

verus! {

/// Why a line of the backend's answer could not be decoded.
#[derive(Clone, Copy, Debug, PartialEq, Eq, Structural)]
pub enum DecodeError {
    /// The line is no JSON document.
    Syntax,
    /// The line has a `context` member that is no array of integers.
    Context,
}

/// What one line carries, as a mathematical value.
pub struct FragmentView {
    pub delta: Option<Seq<char>>,
    pub context: Option<Seq<i64>>,
}

/// What one line of the backend's answer carries.
#[derive(Debug, PartialEq, Eq)]
pub struct Fragment {
    /// The next piece of the answer's text.
    pub delta: Option<String>,
    /// The conversation context that ends the answer.
    pub context: Option<Vec<i64>>,
}

impl View for Fragment {
    type V = FragmentView;

    open spec fn view(&self) -> FragmentView {
        FragmentView { delta: text_view(self.delta), context: integers_view(self.context) }
    }
}

/// The integers of an array of integers, in their order.
pub open spec fn integer_items(document: JsonView) -> Seq<i64> {
    match document {
        JsonView::Array(items) => Seq::new(
            items.len(),
            |i: int|
                match items[i] {
                    JsonView::Number(Some(n)) => n,
                    _ => 0,
                },
        ),
        _ => Seq::empty(),
    }
}

/// The text that a document carries: its member `response`, where that is a
/// string.
pub open spec fn document_delta(document: JsonView) -> Option<Seq<char>> {
    match document.member("response"@) {
        Some(JsonView::Text(text)) => Some(text),
        _ => None,
    }
}

/// What a document carries. A member `response` that is a string is its text;
/// one that is anything else is passed over. A member `context` must be an
/// array of integers and is then its context.
pub open spec fn document_fragment(document: JsonView) -> Result<FragmentView, DecodeError> {
    match document.member("context"@) {
        None => Ok(FragmentView { delta: document_delta(document), context: None }),
        Some(context) => if context.is_integers() {
            Ok(
                FragmentView {
                    delta: document_delta(document),
                    context: Some(integer_items(context)),
                },
            )
        } else {
            Err(DecodeError::Context)
        },
    }
}

/// What a line of text carries.
pub open spec fn text_fragment(text: Seq<char>) -> Result<FragmentView, DecodeError> {
    match parsed(text) {
        None => Err(DecodeError::Syntax),
        Some(document) => document_fragment(document),
    }
}

/// The array of the integers `items` is an array of integers, and its integers
/// are `items`.
pub proof fn lemma_integers(items: Seq<i64>)
    ensures
        JsonView::integers(items).is_integers(),
        integer_items(JsonView::integers(items)) == items,
{
}

/// Reads what a document carries.
pub fn fragment_of(document: &serde_json::Value) -> (outcome: Result<Fragment, DecodeError>)
    ensures
        match outcome {
            Ok(fragment) => document_fragment(value_model(*document)) == Ok::<
                FragmentView,
                DecodeError,
            >(fragment@),
            Err(error) => document_fragment(value_model(*document)) == Err::<
                FragmentView,
                DecodeError,
            >(error),
        },
{
    let delta = match member_of(document, "response") {
        Some(member) => match text_of(member) {
            Some(text) => Some(text.to_owned()),
            None => None,
        },
        None => None,
    };
    match member_of(document, "context") {
        None => Ok(Fragment { delta, context: None }),
        Some(member) => match integers_of(member) {
            Ok(items) => {
                proof {
                    lemma_integers(items@);
                }
                Ok(Fragment { delta, context: Some(items) })
            },
            Err(_) => Err(DecodeError::Context),
        },
    }
}

/// Decodes one line of text.
pub fn decode_text(text: &str) -> (outcome: Result<Fragment, DecodeError>)
    ensures
        match outcome {
            Ok(fragment) => text_fragment(text@) == Ok::<FragmentView, DecodeError>(fragment@),
            Err(error) => text_fragment(text@) == Err::<FragmentView, DecodeError>(error),
        },
{
    match parse_value(text) {
        Ok(document) => fragment_of(&document),
        Err(_) => Err(DecodeError::Syntax),
    }
}

} // verus!
