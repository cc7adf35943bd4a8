//! Taking back input that a turn has not used yet.

use vstd::prelude::*;
use vstd::string::*;

use crate::json::{
    optional_text, optional_text_value, push_member, JsonValue, JsonView,
};
use crate::rpc::{
    invalid_request, invalid_request_view, JSONRPCErrorError, RpcErrorView,
};
use crate::text::concat5;

verus! {

/// What became of the attempt to take input back.
pub enum WithdrawPendingInputResult {
    Withdrawn { turn_id: String },
    NoActiveTurn,
    ExpectedTurnMismatch { expected: String, actual: String },
    NotPending { turn_id: String },
    AmbiguousClientId { turn_id: String },
}

/// The answer to a request that took input back.
pub struct TurnWithdrawPendingInputResponse {
    pub turn_id: String,
}

/// Why input was not taken back.
pub enum TurnWithdrawPendingInputErrorReason {
    NoActiveTurn,
    ExpectedTurnMismatch,
    NotPending,
    AmbiguousClientUserMessageId,
}

/// The data of the error about input that was not taken back.
pub struct TurnWithdrawPendingInputError {
    pub reason: TurnWithdrawPendingInputErrorReason,
    pub expected_turn_id: Option<String>,
    pub actual_turn_id: Option<String>,
}

/// An attempt to take input back, in specifications.
pub enum WithdrawView {
    Withdrawn { turn_id: Seq<char> },
    NoActiveTurn,
    ExpectedTurnMismatch { expected: Seq<char>, actual: Seq<char> },
    NotPending { turn_id: Seq<char> },
    AmbiguousClientId { turn_id: Seq<char> },
}

/// The data of the error, in specifications.
pub struct WithdrawErrorView {
    pub reason: TurnWithdrawPendingInputErrorReason,
    pub expected_turn_id: Option<Seq<char>>,
    pub actual_turn_id: Option<Seq<char>>,
}

impl DeepView for WithdrawPendingInputResult {
    type V = WithdrawView;

    open spec fn deep_view(&self) -> WithdrawView {
        match self {
            WithdrawPendingInputResult::Withdrawn { turn_id } => WithdrawView::Withdrawn {
                turn_id: turn_id@,
            },
            WithdrawPendingInputResult::NoActiveTurn => WithdrawView::NoActiveTurn,
            WithdrawPendingInputResult::ExpectedTurnMismatch { expected, actual } =>
                WithdrawView::ExpectedTurnMismatch { expected: expected@, actual: actual@ },
            WithdrawPendingInputResult::NotPending { turn_id } => WithdrawView::NotPending {
                turn_id: turn_id@,
            },
            WithdrawPendingInputResult::AmbiguousClientId { turn_id } =>
                WithdrawView::AmbiguousClientId { turn_id: turn_id@ },
        }
    }
}

impl DeepView for TurnWithdrawPendingInputError {
    type V = WithdrawErrorView;

    open spec fn deep_view(&self) -> WithdrawErrorView {
        WithdrawErrorView {
            reason: self.reason,
            expected_turn_id: self.expected_turn_id.deep_view(),
            actual_turn_id: self.actual_turn_id.deep_view(),
        }
    }
}

/// How a reason is written.
pub open spec fn reason_text(reason: TurnWithdrawPendingInputErrorReason) -> Seq<char> {
    match reason {
        TurnWithdrawPendingInputErrorReason::NoActiveTurn => "noActiveTurn"@,
        TurnWithdrawPendingInputErrorReason::ExpectedTurnMismatch => "expectedTurnMismatch"@,
        TurnWithdrawPendingInputErrorReason::NotPending => "notPending"@,
        TurnWithdrawPendingInputErrorReason::AmbiguousClientUserMessageId =>
            "ambiguousClientUserMessageId"@,
    }
}

impl TurnWithdrawPendingInputErrorReason {
    /// How the reason is written.
    pub fn as_str(&self) -> (text: &'static str)
        ensures
            text@ == reason_text(*self),
    {
        match self {
            TurnWithdrawPendingInputErrorReason::NoActiveTurn => "noActiveTurn",
            TurnWithdrawPendingInputErrorReason::ExpectedTurnMismatch => "expectedTurnMismatch",
            TurnWithdrawPendingInputErrorReason::NotPending => "notPending",
            TurnWithdrawPendingInputErrorReason::AmbiguousClientUserMessageId =>
                "ambiguousClientUserMessageId",
        }
    }
}

/// The error about input that was not taken back.
pub open spec fn withdrawal_error_view(message: Seq<char>, data: WithdrawErrorView) -> RpcErrorView {
    RpcErrorView {
        data: Some(
            seq![
                ("reason"@, JsonView::Text(reason_text(data.reason))),
                ("expectedTurnId"@, optional_text_value(data.expected_turn_id)),
                ("actualTurnId"@, optional_text_value(data.actual_turn_id)),
            ],
        ),
        ..invalid_request_view(message)
    }
}

/// The error about input that was not taken back, with its data.
pub fn withdrawal_error(message: &str, data: TurnWithdrawPendingInputError) -> (error:
    JSONRPCErrorError)
    ensures
        error.deep_view() == withdrawal_error_view(message@, data.deep_view()),
{
    let mut members: Vec<(String, JsonValue)> = Vec::new();
    assert(members.deep_view() =~= Seq::<(Seq<char>, JsonView)>::empty());
    push_member(&mut members, "reason", JsonValue::Text(data.reason.as_str().to_owned()));
    push_member(&mut members, "expectedTurnId", optional_text(&data.expected_turn_id));
    push_member(&mut members, "actualTurnId", optional_text(&data.actual_turn_id));
    assert(members.deep_view() =~= withdrawal_error_view(message@, data.deep_view()).data->0);
    let mut error: JSONRPCErrorError = invalid_request(message);
    error.data = Some(members);
    error
}

/// The answer to a request to take input back: the turn, or why it was not possible.
pub open spec fn withdraw_outcome(expected_turn_id: Seq<char>, result: WithdrawView) -> Result<
    Seq<char>,
    RpcErrorView,
> {
    match result {
        WithdrawView::Withdrawn { turn_id } => Ok(turn_id),
        WithdrawView::NoActiveTurn => Err(
            withdrawal_error_view(
                "no active turn contains pending input"@,
                WithdrawErrorView {
                    reason: TurnWithdrawPendingInputErrorReason::NoActiveTurn,
                    expected_turn_id: Some(expected_turn_id),
                    actual_turn_id: None,
                },
            ),
        ),
        WithdrawView::ExpectedTurnMismatch { expected, actual } => Err(
            withdrawal_error_view(
                "expected active turn id `"@ + expected + "` but found `"@ + actual + "`"@,
                WithdrawErrorView {
                    reason: TurnWithdrawPendingInputErrorReason::ExpectedTurnMismatch,
                    expected_turn_id: Some(expected),
                    actual_turn_id: Some(actual),
                },
            ),
        ),
        WithdrawView::NotPending { turn_id } => Err(
            withdrawal_error_view(
                "client user message id is not pending"@,
                WithdrawErrorView {
                    reason: TurnWithdrawPendingInputErrorReason::NotPending,
                    expected_turn_id: Some(expected_turn_id),
                    actual_turn_id: Some(turn_id),
                },
            ),
        ),
        WithdrawView::AmbiguousClientId { turn_id } => Err(
            withdrawal_error_view(
                "client user message id matches multiple pending inputs"@,
                WithdrawErrorView {
                    reason: TurnWithdrawPendingInputErrorReason::AmbiguousClientUserMessageId,
                    expected_turn_id: Some(expected_turn_id),
                    actual_turn_id: Some(turn_id),
                },
            ),
        ),
    }
}

/// The answer to a request to take input back from the turn `expected_turn_id`.
pub fn map_withdraw_pending_input_result(
    expected_turn_id: &str,
    result: WithdrawPendingInputResult,
) -> (answer: Result<TurnWithdrawPendingInputResponse, JSONRPCErrorError>)
    ensures
        match answer {
            Ok(response) => withdraw_outcome(expected_turn_id@, result.deep_view()) == Ok::<
                Seq<char>,
                RpcErrorView,
            >(response.turn_id@),
            Err(error) => withdraw_outcome(expected_turn_id@, result.deep_view()) == Err::<
                Seq<char>,
                RpcErrorView,
            >(error.deep_view()),
        },
{
    match result {
        WithdrawPendingInputResult::Withdrawn { turn_id } => Ok(
            TurnWithdrawPendingInputResponse { turn_id },
        ),
        WithdrawPendingInputResult::NoActiveTurn => Err(
            withdrawal_error(
                "no active turn contains pending input",
                TurnWithdrawPendingInputError {
                    reason: TurnWithdrawPendingInputErrorReason::NoActiveTurn,
                    expected_turn_id: Some(expected_turn_id.to_owned()),
                    actual_turn_id: None,
                },
            ),
        ),
        WithdrawPendingInputResult::ExpectedTurnMismatch { expected, actual } => {
            let message: String = concat5(
                "expected active turn id `",
                expected.as_str(),
                "` but found `",
                actual.as_str(),
                "`",
            );
            Err(
                withdrawal_error(
                    message.as_str(),
                    TurnWithdrawPendingInputError {
                        reason: TurnWithdrawPendingInputErrorReason::ExpectedTurnMismatch,
                        expected_turn_id: Some(expected),
                        actual_turn_id: Some(actual),
                    },
                ),
            )
        },
        WithdrawPendingInputResult::NotPending { turn_id } => Err(
            withdrawal_error(
                "client user message id is not pending",
                TurnWithdrawPendingInputError {
                    reason: TurnWithdrawPendingInputErrorReason::NotPending,
                    expected_turn_id: Some(expected_turn_id.to_owned()),
                    actual_turn_id: Some(turn_id),
                },
            ),
        ),
        WithdrawPendingInputResult::AmbiguousClientId { turn_id } => Err(
            withdrawal_error(
                "client user message id matches multiple pending inputs",
                TurnWithdrawPendingInputError {
                    reason: TurnWithdrawPendingInputErrorReason::AmbiguousClientUserMessageId,
                    expected_turn_id: Some(expected_turn_id.to_owned()),
                    actual_turn_id: Some(turn_id),
                },
            ),
        ),
    }
}

/// Pending input is withdrawn exactly where the turn says so, with the turn. Everything else is an
/// invalid request that says why, and which turn was expected and which one is there.
pub proof fn lemma_withdrawals_are_answered(expected_turn_id: Seq<char>, result: WithdrawView)
    ensures
        withdraw_outcome(expected_turn_id, result) is Ok <==> result is Withdrawn,
        result matches WithdrawView::Withdrawn { turn_id } ==> withdraw_outcome(
            expected_turn_id,
            result,
        ) == Ok::<Seq<char>, RpcErrorView>(turn_id),
        withdraw_outcome(expected_turn_id, result) matches Err(error) ==> {
            &&& error.code == -32600
            &&& error.message == (match result {
                WithdrawView::ExpectedTurnMismatch { expected, actual } =>
                    "expected active turn id `"@ + expected + "` but found `"@ + actual + "`"@,
                WithdrawView::NotPending { turn_id: _ } => "client user message id is not pending"@,
                WithdrawView::AmbiguousClientId { turn_id: _ } =>
                    "client user message id matches multiple pending inputs"@,
                _ => "no active turn contains pending input"@,
            })
            &&& error.data matches Some(data) && data.len() == 3 && data[0] == (
                "reason"@,
                JsonView::Text(
                    match result {
                        WithdrawView::ExpectedTurnMismatch { expected: _, actual: _ } =>
                            "expectedTurnMismatch"@,
                        WithdrawView::NotPending { turn_id: _ } => "notPending"@,
                        WithdrawView::AmbiguousClientId { turn_id: _ } =>
                            "ambiguousClientUserMessageId"@,
                        _ => "noActiveTurn"@,
                    },
                ),
            ) && data[1] == (
                "expectedTurnId"@,
                JsonView::Text(
                    match result {
                        WithdrawView::ExpectedTurnMismatch { expected, actual: _ } => expected,
                        _ => expected_turn_id,
                    },
                ),
            ) && data[2] == (
                "actualTurnId"@,
                match result {
                    WithdrawView::ExpectedTurnMismatch { expected: _, actual } => JsonView::Text(
                        actual,
                    ),
                    WithdrawView::NotPending { turn_id } => JsonView::Text(turn_id),
                    WithdrawView::AmbiguousClientId { turn_id } => JsonView::Text(turn_id),
                    _ => JsonView::Null,
                },
            )
        },
{
}

} // verus!
