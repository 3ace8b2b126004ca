//! Choice selection for OpenAI chat completions.
use vstd::prelude::*;
use crate::llm::chat::helper::{best_choice, best_choice_position, ChoiceRanking};
use crate::llm::chat::response::{choices_view, ChatChoice};

verus! {

/// Selects the preferred choice: truncated or filtered choices come last,
/// then the lowest index first, the earliest among equals. Nothing is selected
/// when there is no choice.
pub fn select_choice<L, A>(choices: Vec<ChatChoice<L, A>>) -> (r: Option<ChatChoice<L, A>>)
    ensures
        choices@.len() == 0 ==> r is None,
        choices@.len() > 0 ==> r == Some(
            choices@[best_choice(ChoiceRanking::AvoidTruncated, choices_view(choices@))],
        ),
{
    if choices.len() == 0 {
        return None;
    }
    let k = best_choice_position(ChoiceRanking::AvoidTruncated, &choices);
    let mut choices = choices;
    Some(choices.remove(k))
}

} // verus!
