//! Generation request: the body that is posted to the backend for one turn.

use crate::json::{
    empty_object, integers_value, render_value, rendered, set_member, text_value, value_model,
    JsonView,
};
use vstd::prelude::*;

verus! {

/// The model that the backend is asked to answer with.
pub const MODEL: &'static str = "llama2-uncensored";

/// The request for an answer to `prompt` in the conversation `context`: an
/// object with the members `model` and `prompt` and, unless `context` is
/// empty, the member `context` with the integers of `context` in their order.
/// An empty context starts a new conversation, and is left out.
pub open spec fn request_model(prompt: Seq<char>, context: Seq<i64>) -> JsonView {
    let opening = Map::<Seq<char>, JsonView>::empty().insert(
        "model"@,
        JsonView::Text(MODEL@),
    ).insert("prompt"@, JsonView::Text(prompt));
    if context.len() == 0 {
        JsonView::Object(opening)
    } else {
        JsonView::Object(opening.insert("context"@, JsonView::integers(context)))
    }
}

/// Every number of a request is an integer of the context.
pub proof fn lemma_request_exact(prompt: Seq<char>, context: Seq<i64>)
    ensures
        request_model(prompt, context).exact(),
{
    reveal_with_fuel(JsonView::exact, 3);
    let list = JsonView::integers(context);
    assert forall|i: int| 0 <= i < context.len() implies (#[trigger] list->Array_0[i]).exact() by {}
}

/// What a request holds under each of its three names: the context is there
/// exactly when it is not empty, and is then handed on as it was given.
pub proof fn lemma_request_members(prompt: Seq<char>, context: Seq<i64>)
    ensures
        request_model(prompt, context).member("model"@) == Some(JsonView::Text(MODEL@)),
        request_model(prompt, context).member("prompt"@) == Some(JsonView::Text(prompt)),
        request_model(prompt, context).member("context"@) == if context.len() == 0 {
            None
        } else {
            Some(JsonView::integers(context))
        },
{
    reveal_strlit("model");
    reveal_strlit("prompt");
    reveal_strlit("context");
    assert("model"@.len() == 5);
    assert("prompt"@.len() == 6);
    assert("context"@.len() == 7);
}

/// Builds the request for an answer to `prompt` in the conversation `context`.
pub fn request_document(prompt: &str, context: &[i64]) -> (document: serde_json::Value)
    ensures
        value_model(document) == request_model(prompt@, context@),
{
    let mut document = empty_object();
    set_member(&mut document, "model", text_value(MODEL));
    set_member(&mut document, "prompt", text_value(prompt));
    if context.len() > 0 {
        set_member(&mut document, "context", integers_value(context));
    }
    document
}

/// The body of the request for an answer to `prompt` in the conversation
/// `context`.
pub fn request_body(prompt: &str, context: &[i64]) -> (body: String)
    ensures
        body@ == rendered(request_model(prompt@, context@)),
{
    let document = request_document(prompt, context);
    proof {
        lemma_request_exact(prompt@, context@);
    }
    render_value(&document)
}

} // verus!
