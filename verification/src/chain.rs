//! The text model of a guild: a Markov chain of the `markov` crate.
//!
//! Nothing in this file is proved: each item below states what the crate is
//! relied on for.

use vstd::prelude::*;

verus! {

/// A `markov::Chain` over words, of order one.
#[verifier::external_body]
pub struct TextModel {
    chain: markov::Chain<String>,
}

/// The texts that a model has been fed since it was made, oldest first.
pub uninterp spec fn model_fed(model: TextModel) -> Seq<Seq<char>>;

/// `markov::Chain::new`: a chain that has been fed nothing.
#[verifier::external_body]
pub(crate) fn new_model() -> (r: TextModel)
    ensures
        model_fed(r).len() == 0,
{
    TextModel { chain: markov::Chain::new() }
}

/// `markov::Chain::feed_str`: the chain learns the words of `text`; so it has
/// been fed one text more.
#[verifier::external_body]
pub(crate) fn feed_model(model: &mut TextModel, text: &str)
    ensures
        model_fed(*final(model)) == model_fed(*old(model)).push(text@),
{
    model.chain.feed_str(text);
}

/// `markov::Chain::is_empty`: whether the chain has learnt nothing yet. Every
/// text holds at least one word, if only an empty one, so a chain is empty
/// exactly as long as it has been fed no text.
#[verifier::external_body]
pub(crate) fn model_is_empty(model: &TextModel) -> (r: bool)
    ensures
        r == (model_fed(*model).len() == 0),
{
    model.chain.is_empty()
}

/// `markov::Chain::generate_str`: a sentence drawn at random from what the
/// chain has learnt. Nothing is claimed of the sentence. An empty chain has
/// nothing to draw from and is left out.
#[verifier::external_body]
pub(crate) fn generate_from_model(model: &TextModel) -> (r: String)
    requires
        model_fed(*model).len() > 0,
{
    model.chain.generate_str()
}

} // verus!
