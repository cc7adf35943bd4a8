//! What the tools may say to the model: errors and outputs of a bounded size.

use vstd::prelude::*;
use vstd::string::*;

use crate::errors::{git_error_message, GitErrorView, GitToolingError};
use crate::text::{
    concat2, concat3, concat5, decimal, decimal_text, fits_bytes, fitting_prefix, fitting_suffix,
    is_longest_prefix, is_longest_suffix, lemma_decimal_length, lemma_longest_prefix_is_unique,
    lemma_longest_suffix_is_unique, lemma_text_bytes_concat, lemma_text_bytes_range,
    lemma_text_bytes_take, longest_prefix, longest_suffix, text_bytes,
};

verus! {

/// What worktree tool output is allowed to cost the model's context.
///
/// The cap is deliberately one byte per token. Worktree output is dominated by paths, branch
/// names, and ids, which can tokenize much more densely than prose, so the byte bound must remain
/// conservative without depending on a non-token-accurate average.
pub const WORKTREE_OUTPUT_MAX_TOKENS: usize = 512;

pub const WORKTREE_OUTPUT_MAX_BYTES: usize = WORKTREE_OUTPUT_MAX_TOKENS;

/// Why a tool call failed.
pub enum FunctionCallError {
    /// The model is told, and the turn goes on.
    RespondToModel(String),
    /// The turn ends.
    Fatal(String),
}

/// A failed tool call, in specifications.
pub enum CallErrorView {
    RespondToModel(Seq<char>),
    Fatal(Seq<char>),
}

impl DeepView for FunctionCallError {
    type V = CallErrorView;

    open spec fn deep_view(&self) -> CallErrorView {
        match self {
            FunctionCallError::RespondToModel(message) => CallErrorView::RespondToModel(message@),
            FunctionCallError::Fatal(message) => CallErrorView::Fatal(message@),
        }
    }
}

/// The text of an error.
pub open spec fn call_error_message(error: CallErrorView) -> Seq<char> {
    match error {
        CallErrorView::RespondToModel(message) => message,
        CallErrorView::Fatal(message) => "Fatal error: "@ + message,
    }
}

impl FunctionCallError {
    /// The text of the error.
    pub fn message(&self) -> (text: String)
        ensures
            text@ == call_error_message(self.deep_view()),
    {
        match self {
            FunctionCallError::RespondToModel(message) => message.clone(),
            FunctionCallError::Fatal(message) => concat2("Fatal error: ", message.as_str()),
        }
    }
}

/// A text cut down in its middle: where it is too large, as much of its start as fits into half
/// of the bytes and as much of its end as fits into the rest stay, and between them stands how many
/// characters were left out.
pub open spec fn cut_text(text: Seq<char>, max: nat) -> Seq<char> {
    if text_bytes(text) <= max {
        text
    } else {
        let head = fitting_prefix(text, max / 2);
        let tail = fitting_suffix(text, (max - max / 2) as nat);
        text.take(head as int) + "…"@ + decimal((text.len() - head - tail) as nat)
            + " chars truncated…"@ + text.skip(text.len() - tail)
    }
}

proof fn lemma_cut_leaves_a_gap(text: Seq<char>, max: nat, head: nat, tail: nat)
    requires
        text_bytes(text) > max,
        is_longest_prefix(text, max / 2, head),
        is_longest_suffix(text, (max - max / 2) as nat, tail),
    ensures
        head + tail < text.len(),
{
    if head + tail >= text.len() {
        let start = text.len() - tail;
        lemma_text_bytes_take(text, start);
        lemma_text_bytes_take(text.take(head as int), start);
        assert(text.take(head as int).take(start) =~= text.take(start));
    }
}

/// Cuts `text` down so that little more than `max` bytes of it stay.
pub fn truncate_text(text: &str, max: usize) -> (shown: String)
    ensures
        shown@ == cut_text(text@, max as nat),
{
    if fits_bytes(text, max) {
        return text.to_owned();
    }
    let head: usize = longest_prefix(text, max / 2);
    let tail: usize = longest_suffix(text, max - max / 2);
    let total: usize = text.unicode_len();
    proof {
        lemma_cut_leaves_a_gap(text@, max as nat, head as nat, tail as nat);
        lemma_longest_prefix_is_unique(text@, (max / 2) as nat, head as nat);
        lemma_longest_suffix_is_unique(text@, (max - max / 2) as nat, tail as nat);
    }
    let removed: String = decimal_text((total - head - tail) as u64);
    let start: String = text.substring_char(0, head).to_owned();
    let end: String = text.substring_char(total - tail, total).to_owned();
    assert(start@ =~= text@.take(head as int));
    assert(end@ =~= text@.skip(text@.len() - tail));
    concat5(start.as_str(), "…", removed.as_str(), " chars truncated…", end.as_str())
}

/// An error for the model: its message is cut down to the size of an output.
pub open spec fn model_error(message: Seq<char>) -> CallErrorView {
    CallErrorView::RespondToModel(cut_text(message, WORKTREE_OUTPUT_MAX_BYTES as nat))
}

/// An error that tells the model `message`, cut down where it is too large.
pub fn worktree_model_error(message: &str) -> (error: FunctionCallError)
    ensures
        error.deep_view() == model_error(message@),
{
    FunctionCallError::RespondToModel(truncate_text(message, WORKTREE_OUTPUT_MAX_BYTES))
}

/// What the model is told of an error of a git procedure.
pub open spec fn git_error_view(error: GitErrorView) -> CallErrorView {
    model_error("worktree operation failed: "@ + git_error_message(error))
}

/// The error for the model that stands for an error of a git procedure.
pub fn git_error(error: &GitToolingError) -> (told: FunctionCallError)
    ensures
        told.deep_view() == git_error_view(error.deep_view()),
{
    worktree_model_error(concat2("worktree operation failed: ", error.message().as_str()).as_str())
}

/// An error with its message for the model cut down to the size of an output.
pub open spec fn bounded_error(error: CallErrorView) -> CallErrorView {
    match error {
        CallErrorView::RespondToModel(message) => model_error(message),
        CallErrorView::Fatal(_) => error,
    }
}

/// Cuts down what an error tells the model.
pub fn bound_worktree_error(error: &FunctionCallError) -> (bounded: FunctionCallError)
    ensures
        bounded.deep_view() == bounded_error(error.deep_view()),
{
    match error {
        FunctionCallError::RespondToModel(message) => worktree_model_error(message.as_str()),
        FunctionCallError::Fatal(message) => FunctionCallError::Fatal(message.clone()),
    }
}

/// The error about an output that is too large.
pub open spec fn output_too_large() -> CallErrorView {
    model_error(
        "worktree output exceeds "@ + decimal(WORKTREE_OUTPUT_MAX_BYTES as nat)
            + " bytes; use a shorter repository path or worktree name"@,
    )
}

/// An output fits where it takes no more bytes than the cap.
pub open spec fn fits_context(content: Seq<char>) -> bool {
    text_bytes(content) <= WORKTREE_OUTPUT_MAX_BYTES
}

/// Fails where the output `content` takes more bytes than the cap.
pub fn ensure_worktree_output_fits_context(content: &str) -> (checked: Result<
    (),
    FunctionCallError,
>)
    ensures
        checked is Ok <==> fits_context(content@),
        checked is Err ==> checked->Err_0.deep_view() == output_too_large(),
{
    if fits_bytes(content, WORKTREE_OUTPUT_MAX_BYTES) {
        Ok(())
    } else {
        let cap: String = decimal_text(WORKTREE_OUTPUT_MAX_BYTES as u64);
        Err(
            worktree_model_error(
                concat3(
                    "worktree output exceeds ",
                    cap.as_str(),
                    " bytes; use a shorter repository path or worktree name",
                ).as_str(),
            ),
        )
    }
}

/// What the model is told takes less than twice the bytes of an output, however long the message
/// was that it stands for.
pub proof fn lemma_model_errors_are_bounded(message: Seq<char>)
    requires
        message.len() <= u64::MAX,
    ensures
        model_error(message) matches CallErrorView::RespondToModel(told) && text_bytes(told)
            < WORKTREE_OUTPUT_MAX_BYTES + 512,
{
    let max = WORKTREE_OUTPUT_MAX_BYTES as nat;
    if text_bytes(message) > max {
        let head = fitting_prefix(message, max / 2);
        let tail = fitting_suffix(message, (max - max / 2) as nat);
        lemma_fitting_parts_exist(message, max / 2);
        lemma_fitting_parts_exist(message, (max - max / 2) as nat);
        lemma_cut_leaves_a_gap(message, max, head, tail);
        let start = message.take(head as int);
        let end = message.skip(message.len() - tail);
        let count = decimal((message.len() - head - tail) as nat);
        let opening = "…"@;
        let closing = " chars truncated…"@;
        reveal_strlit("…");
        reveal_strlit(" chars truncated…");
        assert(vstd::arithmetic::power::pow(10, 20) == 100_000_000_000_000_000_000int) by {
            reveal_with_fuel(vstd::arithmetic::power::pow, 21);
        }
        lemma_decimal_length(
            (message.len() - head - tail) as nat,
            20,
            100_000_000_000_000_000_000nat,
        );
        lemma_text_bytes_range(opening);
        lemma_text_bytes_range(closing);
        lemma_text_bytes_range(count);
        lemma_text_bytes_concat(start, opening);
        lemma_text_bytes_concat(start + opening, count);
        lemma_text_bytes_concat(start + opening + count, closing);
        lemma_text_bytes_concat(start + opening + count + closing, end);
    }
}

proof fn lemma_fitting_parts_exist(text: Seq<char>, budget: nat)
    ensures
        is_longest_prefix(text, budget, fitting_prefix(text, budget)),
        is_longest_suffix(text, budget, fitting_suffix(text, budget)),
{
    lemma_some_prefix_is_longest(text, budget, 0);
    lemma_some_suffix_is_longest(text, budget, 0);
}

proof fn lemma_some_prefix_is_longest(text: Seq<char>, budget: nat, from: nat)
    requires
        from <= text.len(),
        text_bytes(text.take(from as int)) <= budget,
    ensures
        exists|k: nat| is_longest_prefix(text, budget, k),
    decreases text.len() - from,
{
    if from < text.len() && text_bytes(text.take(from as int + 1)) <= budget {
        lemma_some_prefix_is_longest(text, budget, from + 1);
    } else {
        assert(is_longest_prefix(text, budget, from));
    }
}

proof fn lemma_some_suffix_is_longest(text: Seq<char>, budget: nat, from: nat)
    requires
        from <= text.len(),
        text_bytes(text.skip(text.len() - from)) <= budget,
    ensures
        exists|k: nat| is_longest_suffix(text, budget, k),
    decreases text.len() - from,
{
    if from < text.len() && text_bytes(text.skip(text.len() - from - 1)) <= budget {
        lemma_some_suffix_is_longest(text, budget, from + 1);
    } else {
        assert(is_longest_suffix(text, budget, from));
    }
}

/// An error of up to 512 bytes is told as it is. Of a longer one the middle is left out: what stays
/// at each end is as long as it can be within half of the bytes, and the number of characters that
/// are missing stands between.
pub proof fn lemma_long_errors_lose_their_middle(message: Seq<char>)
    ensures
        text_bytes(message) <= 512 ==> model_error(message) == CallErrorView::RespondToModel(
            message,
        ),
        text_bytes(message) > 512 ==> exists|head: Seq<char>, gone: Seq<char>, tail: Seq<char>|
            {
                &&& message == #[trigger] (head + gone + tail)
                &&& gone.len() > 0
                &&& text_bytes(head) <= 256 < text_bytes(head.push(gone[0]))
                &&& text_bytes(tail) <= 256 < text_bytes(seq![gone.last()] + tail)
                &&& model_error(message) == CallErrorView::RespondToModel(
                    head + "…"@ + decimal(gone.len()) + " chars truncated…"@ + tail,
                )
            },
{
    if text_bytes(message) > 512 {
        let head = fitting_prefix(message, 256);
        let tail = fitting_suffix(message, 256);
        lemma_fitting_parts_exist(message, 256);
        lemma_cut_leaves_a_gap(message, 512, head, tail);
        let n = message.len() as int;
        let first = message.take(head as int);
        let last = message.skip(n - tail);
        let gone = message.subrange(head as int, n - tail);
        assert(message =~= first + gone + last);
        assert(message.take(head as int + 1) =~= first.push(gone[0]));
        assert(message.skip(n - tail - 1) =~= seq![gone.last()] + last);
        assert(gone.len() == n - head - tail);
    }
}

/// A result fits where it has at most 512 bytes; that one does not is told with this number. What
/// a git procedure fails with is told with what it was for, and what ends a turn is not cut.
pub proof fn lemma_results_have_to_be_short(content: Seq<char>, error: GitErrorView)
    ensures
        fits_context(content) <==> text_bytes(content) <= 512,
        output_too_large() == model_error(
            "worktree output exceeds "@ + decimal(512)
                + " bytes; use a shorter repository path or worktree name"@,
        ),
        git_error_view(error) == model_error(
            "worktree operation failed: "@ + git_error_message(error),
        ),
        bounded_error(CallErrorView::Fatal(content)) == CallErrorView::Fatal(content),
        bounded_error(CallErrorView::RespondToModel(content)) == model_error(content),
        call_error_message(CallErrorView::RespondToModel(content)) == content,
        call_error_message(CallErrorView::Fatal(content)) == "Fatal error: "@ + content,
{
}

} // verus!
