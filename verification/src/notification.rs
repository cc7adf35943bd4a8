//! Hooks that are told when a session wants the attention of its user.

use vstd::prelude::*;
use vstd::string::*;

use crate::json::{
    lemma_an_object_reads_back, object_text, optional_text, optional_text_value, push_member,
    write_object, JsonValue, JsonView,
};
use crate::paths::{lemma_split_join, lemma_split_single};
use crate::text::{
    concat2, ends_with, same_text, signed_decimal, signed_decimal_text, split, split_on, trim,
    trimmed,
};

verus! {

/// A bounded user-attention lifecycle notification exposed to observer hooks.
#[derive(Debug, Clone, Copy, PartialEq, Eq, Structural)]
pub enum NotificationType {
    UserInputRequest,
    UserInputComplete,
    ElicitationDialog,
    ElicitationUrlDialog,
    ElicitationComplete,
    PlanImplementationRequest,
    PlanImplementationComplete,
}

/// How a notification is written.
pub open spec fn type_text(notification_type: NotificationType) -> Seq<char> {
    match notification_type {
        NotificationType::UserInputRequest => "user_input_request"@,
        NotificationType::UserInputComplete => "user_input_complete"@,
        NotificationType::ElicitationDialog => "elicitation_dialog"@,
        NotificationType::ElicitationUrlDialog => "elicitation_url_dialog"@,
        NotificationType::ElicitationComplete => "elicitation_complete"@,
        NotificationType::PlanImplementationRequest => "plan_implementation_request"@,
        NotificationType::PlanImplementationComplete => "plan_implementation_complete"@,
    }
}

/// The notification says that the attention is no longer needed.
pub open spec fn is_completion(notification_type: NotificationType) -> bool {
    notification_type is UserInputComplete || notification_type is ElicitationComplete
        || notification_type is PlanImplementationComplete
}

/// What a notification says to a reader.
pub open spec fn type_message(notification_type: NotificationType) -> Seq<char> {
    if is_completion(notification_type) {
        "Codex input request completed"@
    } else {
        "Codex needs your input"@
    }
}

impl NotificationType {
    /// How the notification is written.
    pub fn as_str(self) -> (text: &'static str)
        ensures
            text@ == type_text(self),
    {
        match self {
            NotificationType::UserInputRequest => "user_input_request",
            NotificationType::UserInputComplete => "user_input_complete",
            NotificationType::ElicitationDialog => "elicitation_dialog",
            NotificationType::ElicitationUrlDialog => "elicitation_url_dialog",
            NotificationType::ElicitationComplete => "elicitation_complete",
            NotificationType::PlanImplementationRequest => "plan_implementation_request",
            NotificationType::PlanImplementationComplete => "plan_implementation_complete",
        }
    }

    /// What the notification says to a reader.
    pub fn message(self) -> (text: &'static str)
        ensures
            text@ == type_message(self),
    {
        match self {
            NotificationType::UserInputRequest
            | NotificationType::ElicitationDialog
            | NotificationType::ElicitationUrlDialog
            | NotificationType::PlanImplementationRequest => "Codex needs your input",
            NotificationType::UserInputComplete
            | NotificationType::ElicitationComplete
            | NotificationType::PlanImplementationComplete => "Codex input request completed",
        }
    }
}

/// What hooks are told about.
pub struct NotificationRequest {
    pub session_id: String,
    /// Internal correlation for public hook lifecycle events; never serialized to hook stdin.
    pub turn_id: String,
    pub cwd: String,
    pub transcript_path: Option<String>,
    pub model: String,
    pub permission_mode: String,
    pub notification_type: NotificationType,
}

/// What hooks are told about, in specifications.
pub struct RequestView {
    pub session_id: Seq<char>,
    pub turn_id: Seq<char>,
    pub cwd: Seq<char>,
    pub transcript_path: Option<Seq<char>>,
    pub model: Seq<char>,
    pub permission_mode: Seq<char>,
    pub notification_type: NotificationType,
}

impl DeepView for NotificationRequest {
    type V = RequestView;

    open spec fn deep_view(&self) -> RequestView {
        RequestView {
            session_id: self.session_id@,
            turn_id: self.turn_id@,
            cwd: self.cwd@,
            transcript_path: self.transcript_path.deep_view(),
            model: self.model@,
            permission_mode: self.permission_mode@,
            notification_type: self.notification_type,
        }
    }
}

/// When a hook runs.
#[derive(Debug, Clone, Copy, PartialEq, Eq, Structural)]
pub enum HookEventName {
    Notification,
    Stop,
}

/// The pattern that says which notifications a hook is for. There are few notifications, so the
/// pattern is kept together with those whose names it accepts.
pub struct HandlerMatcher {
    pub pattern: String,
    pub accepted: Vec<NotificationType>,
}

/// A pattern, in specifications.
pub struct MatcherView {
    pub pattern: Seq<char>,
    pub accepted: Seq<NotificationType>,
}

impl DeepView for HandlerMatcher {
    type V = MatcherView;

    open spec fn deep_view(&self) -> MatcherView {
        MatcherView { pattern: self.pattern@, accepted: self.accepted@ }
    }
}

/// The notification that is written as a text.
pub open spec fn type_named(name: Seq<char>) -> Option<NotificationType> {
    if name == "user_input_request"@ {
        Some(NotificationType::UserInputRequest)
    } else if name == "user_input_complete"@ {
        Some(NotificationType::UserInputComplete)
    } else if name == "elicitation_dialog"@ {
        Some(NotificationType::ElicitationDialog)
    } else if name == "elicitation_url_dialog"@ {
        Some(NotificationType::ElicitationUrlDialog)
    } else if name == "elicitation_complete"@ {
        Some(NotificationType::ElicitationComplete)
    } else if name == "plan_implementation_request"@ {
        Some(NotificationType::PlanImplementationRequest)
    } else if name == "plan_implementation_complete"@ {
        Some(NotificationType::PlanImplementationComplete)
    } else {
        None
    }
}

fn named_type(name: &str) -> (notification_type: Option<NotificationType>)
    ensures
        notification_type == type_named(name@),
{
    if same_text(name, "user_input_request") {
        Some(NotificationType::UserInputRequest)
    } else if same_text(name, "user_input_complete") {
        Some(NotificationType::UserInputComplete)
    } else if same_text(name, "elicitation_dialog") {
        Some(NotificationType::ElicitationDialog)
    } else if same_text(name, "elicitation_url_dialog") {
        Some(NotificationType::ElicitationUrlDialog)
    } else if same_text(name, "elicitation_complete") {
        Some(NotificationType::ElicitationComplete)
    } else if same_text(name, "plan_implementation_request") {
        Some(NotificationType::PlanImplementationRequest)
    } else if same_text(name, "plan_implementation_complete") {
        Some(NotificationType::PlanImplementationComplete)
    } else {
        None
    }
}

/// A pattern is a list of notifications, each written in full, with bars between them.
pub open spec fn lists_names(pattern: Seq<char>) -> bool {
    forall|i: int|
        0 <= i < split(pattern, '|').len() ==> type_named(#[trigger] split(pattern, '|')[i]) is Some
}

/// The notifications that such a list holds.
pub open spec fn listed_types(pattern: Seq<char>) -> Seq<NotificationType> {
    split(pattern, '|').map_values(|name: Seq<char>| type_named(name)->0)
}

impl HandlerMatcher {
    /// The matcher of a pattern that is a list of notifications. Another pattern needs an engine
    /// that says what it accepts.
    pub fn of_names(pattern: &str) -> (matcher: Option<HandlerMatcher>)
        ensures
            match matcher {
                Some(matcher) => lists_names(pattern@) && matcher.deep_view() == (MatcherView {
                    pattern: pattern@,
                    accepted: listed_types(pattern@),
                }),
                None => !lists_names(pattern@),
            },
    {
        let names: Vec<String> = split_on(pattern, '|');
        let mut accepted: Vec<NotificationType> = Vec::new();
        let mut i: usize = 0;
        let ghost all = split(pattern@, '|');
        let ghost wanted = listed_types(pattern@);
        assert(names.deep_view().len() == names.len());
        assert(accepted@ =~= wanted.take(0));
        while i < names.len()
            invariant
                i <= names.len(),
                all == split(pattern@, '|'),
                names.deep_view() == all,
                all.len() == names.len(),
                wanted == listed_types(pattern@),
                accepted@ == wanted.take(i as int),
                forall|j: int| 0 <= j < i ==> type_named(#[trigger] all[j]) is Some,
            decreases names.len() - i,
        {
            assert(all[i as int] == names[i as int]@);
            match named_type(names[i].as_str()) {
                Some(notification_type) => {
                    accepted.push(notification_type);
                    assert(accepted@ =~= wanted.take(i + 1));
                },
                None => {
                    assert(type_named(split(pattern@, '|')[i as int]) is None);
                    return None;
                },
            }
            i += 1;
        }
        assert(wanted.take(names.len() as int) =~= wanted);
        Some(HandlerMatcher { pattern: pattern.to_owned(), accepted })
    }

    /// The matcher again.
    pub fn copy(&self) -> (copy: HandlerMatcher)
        ensures
            copy.deep_view() == self.deep_view(),
    {
        let accepted: Vec<NotificationType> = self.accepted.clone();
        assert(accepted@ =~= self.accepted@);
        HandlerMatcher { pattern: self.pattern.clone(), accepted }
    }
}

/// A hook that is configured.
pub struct ConfiguredHandler {
    pub event_name: HookEventName,
    /// The notifications that the hook is for; all of them without it.
    pub matcher: Option<HandlerMatcher>,
    pub status_message: Option<String>,
    pub display_order: i64,
    /// The number under which the command of the hook is kept.
    pub command: u64,
}

/// A configured hook, in specifications.
pub struct HandlerView {
    pub event_name: HookEventName,
    pub matcher: Option<MatcherView>,
    pub status_message: Option<Seq<char>>,
    pub display_order: i64,
    pub command: u64,
}

impl DeepView for ConfiguredHandler {
    type V = HandlerView;

    open spec fn deep_view(&self) -> HandlerView {
        HandlerView {
            event_name: self.event_name,
            matcher: self.matcher.deep_view(),
            status_message: self.status_message.deep_view(),
            display_order: self.display_order,
            command: self.command,
        }
    }
}

/// How far a run of a hook is.
#[derive(Debug, Clone, Copy, PartialEq, Eq)]
pub enum HookRunStatus {
    Running,
    Completed,
    Failed,
}

/// What a line about a run is.
#[derive(Debug, Clone, Copy, PartialEq, Eq)]
pub enum HookOutputEntryKind {
    Error,
}

/// A line about a run.
#[derive(Debug, PartialEq, Eq)]
pub struct HookOutputEntry {
    pub kind: HookOutputEntryKind,
    pub text: String,
}

/// A line about a run, in specifications.
pub struct EntryView {
    pub kind: HookOutputEntryKind,
    pub text: Seq<char>,
}

impl DeepView for HookOutputEntry {
    type V = EntryView;

    open spec fn deep_view(&self) -> EntryView {
        EntryView { kind: self.kind, text: self.text@ }
    }
}

/// When a run began and ended.
#[derive(Debug, Clone, Copy, PartialEq, Eq)]
pub struct HookRunTimes {
    pub started_at: i64,
    pub completed_at: i64,
    pub duration_ms: i64,
}

/// A run of a hook.
pub struct HookRunSummary {
    pub event_name: HookEventName,
    pub status_message: Option<String>,
    pub display_order: i64,
    pub status: HookRunStatus,
    /// When the run began and ended, once it has ended.
    pub times: Option<HookRunTimes>,
    pub entries: Vec<HookOutputEntry>,
}

/// A run of a hook, in specifications.
pub struct SummaryView {
    pub event_name: HookEventName,
    pub status_message: Option<Seq<char>>,
    pub display_order: i64,
    pub status: HookRunStatus,
    pub times: Option<HookRunTimes>,
    pub entries: Seq<EntryView>,
}

impl DeepView for HookRunSummary {
    type V = SummaryView;

    open spec fn deep_view(&self) -> SummaryView {
        SummaryView {
            event_name: self.event_name,
            status_message: self.status_message.deep_view(),
            display_order: self.display_order,
            status: self.status,
            times: self.times,
            entries: self.entries.deep_view(),
        }
    }
}

/// The process of a hook has ended.
pub struct HandlerRunResult {
    pub started_at: i64,
    pub completed_at: i64,
    pub duration_ms: i64,
    pub exit_code: Option<i32>,
    pub stdout: String,
    pub stderr: String,
    /// The process could not be run.
    pub error: Option<String>,
}

/// An ended process, in specifications.
pub struct ResultView {
    pub started_at: i64,
    pub completed_at: i64,
    pub duration_ms: i64,
    pub exit_code: Option<i32>,
    pub stdout: Seq<char>,
    pub stderr: Seq<char>,
    pub error: Option<Seq<char>>,
}

impl DeepView for HandlerRunResult {
    type V = ResultView;

    open spec fn deep_view(&self) -> ResultView {
        ResultView {
            started_at: self.started_at,
            completed_at: self.completed_at,
            duration_ms: self.duration_ms,
            exit_code: self.exit_code,
            stdout: self.stdout@,
            stderr: self.stderr@,
            error: self.error.deep_view(),
        }
    }
}

/// A run of a hook has ended.
pub struct HookCompletedEvent {
    pub turn_id: Option<String>,
    pub run: HookRunSummary,
}

/// An ended run, in specifications.
pub struct CompletedView {
    pub turn_id: Option<Seq<char>>,
    pub run: SummaryView,
}

impl DeepView for HookCompletedEvent {
    type V = CompletedView;

    open spec fn deep_view(&self) -> CompletedView {
        CompletedView { turn_id: self.turn_id.deep_view(), run: self.run.deep_view() }
    }
}

/// What became of telling the hooks.
pub struct NotificationOutcome {
    pub hook_events: Vec<HookCompletedEvent>,
}

impl Default for NotificationOutcome {
    fn default() -> (outcome: Self)
        ensures
            outcome.hook_events@.len() == 0,
    {
        NotificationOutcome { hook_events: Vec::new() }
    }
}

/// The outcome of a hook, as it is taken from its process.
pub struct ParsedHandler {
    pub completed: HookCompletedEvent,
    pub completion_order: usize,
}

/// A hook is for a notification: it has no pattern, or its pattern accepts the notification.
pub open spec fn matches_type(
    matcher: Option<MatcherView>,
    notification_type: NotificationType,
) -> bool {
    match matcher {
        None => true,
        Some(matcher) => matcher.accepted.contains(notification_type),
    }
}

fn is_for(matcher: &Option<HandlerMatcher>, notification_type: NotificationType) -> (is: bool)
    ensures
        is == matches_type(matcher.deep_view(), notification_type),
{
    let accepted: &Vec<NotificationType> = match matcher {
        None => return true,
        Some(matcher) => &matcher.accepted,
    };
    let mut i: usize = 0;
    while i < accepted.len()
        invariant
            i <= accepted.len(),
            matcher is Some,
            accepted@ == matcher->0.accepted@,
            forall|j: int| 0 <= j < i ==> (#[trigger] accepted@[j]) != notification_type,
        decreases accepted.len() - i,
    {
        if accepted[i] == notification_type {
            assert(accepted@.contains(notification_type));
            return true;
        }
        i += 1;
    }
    false
}

/// A hook is to be told.
pub open spec fn is_matched(handler: HandlerView, notification_type: NotificationType) -> bool {
    handler.event_name is Notification && matches_type(handler.matcher, notification_type)
}

/// The hooks that are to be told, in their order.
pub open spec fn matched_handlers(
    handlers: Seq<HandlerView>,
    notification_type: NotificationType,
) -> Seq<HandlerView>
    decreases handlers.len(),
{
    if handlers.len() == 0 {
        Seq::empty()
    } else if is_matched(handlers.last(), notification_type) {
        matched_handlers(handlers.drop_last(), notification_type).push(handlers.last())
    } else {
        matched_handlers(handlers.drop_last(), notification_type)
    }
}

impl ConfiguredHandler {
    /// The hook again.
    pub fn copy(&self) -> (copy: ConfiguredHandler)
        ensures
            copy.deep_view() == self.deep_view(),
    {
        ConfiguredHandler {
            event_name: self.event_name,
            matcher: match &self.matcher {
                Some(matcher) => Some(matcher.copy()),
                None => None,
            },
            status_message: self.status_message.clone(),
            display_order: self.display_order,
            command: self.command,
        }
    }
}

/// Chooses the hooks that are to be told of a notification.
pub fn select_handlers(
    handlers: &Vec<ConfiguredHandler>,
    notification_type: NotificationType,
) -> (matched: Vec<ConfiguredHandler>)
    ensures
        matched.deep_view() == matched_handlers(handlers.deep_view(), notification_type),
{
    let mut matched: Vec<ConfiguredHandler> = Vec::new();
    let mut i: usize = 0;
    let ghost all = handlers.deep_view();
    assert(all.take(0) =~= Seq::<HandlerView>::empty());
    assert(matched.deep_view() =~= Seq::<HandlerView>::empty());
    while i < handlers.len()
        invariant
            i <= handlers.len(),
            all == handlers.deep_view(),
            matched.deep_view() == matched_handlers(all.take(i as int), notification_type),
        decreases handlers.len() - i,
    {
        proof {
            assert(all.take(i + 1).drop_last() =~= all.take(i as int));
            assert(all.take(i + 1).last() == handlers[i as int].deep_view());
        }
        if handlers[i].event_name == HookEventName::Notification && is_for(
            &handlers[i].matcher,
            notification_type,
        ) {
            let ghost before = matched.deep_view();
            matched.push(handlers[i].copy());
            assert(matched.deep_view() =~= before.push(handlers[i as int].deep_view()));
        }
        i += 1;
    }
    assert(all.take(all.len() as int) =~= all);
    matched
}

/// A run of a hook that has begun.
pub open spec fn running(handler: HandlerView) -> SummaryView {
    SummaryView {
        event_name: handler.event_name,
        status_message: handler.status_message,
        display_order: handler.display_order,
        status: HookRunStatus::Running,
        times: None,
        entries: Seq::empty(),
    }
}

/// The run of `handler`, which has begun.
pub fn running_summary(handler: &ConfiguredHandler) -> (summary: HookRunSummary)
    ensures
        summary.deep_view() == running(handler.deep_view()),
{
    let entries: Vec<HookOutputEntry> = Vec::new();
    assert(entries.deep_view() =~= Seq::<EntryView>::empty());
    HookRunSummary {
        event_name: handler.event_name,
        status_message: handler.status_message.clone(),
        display_order: handler.display_order,
        status: HookRunStatus::Running,
        times: None,
        entries,
    }
}

/// The runs that a notification will begin, in the order of the hooks.
pub fn preview(handlers: &Vec<ConfiguredHandler>, request: &NotificationRequest) -> (runs: Vec<
    HookRunSummary,
>)
    ensures
        runs.deep_view() == matched_handlers(
            handlers.deep_view(),
            request.notification_type,
        ).map_values(|handler: HandlerView| running(handler)),
{
    let matched: Vec<ConfiguredHandler> = select_handlers(handlers, request.notification_type);
    let mut runs: Vec<HookRunSummary> = Vec::new();
    let mut i: usize = 0;
    let ghost wanted = matched.deep_view().map_values(|handler: HandlerView| running(handler));
    assert(runs.deep_view() =~= wanted.take(0));
    while i < matched.len()
        invariant
            i <= matched.len(),
            wanted == matched.deep_view().map_values(|handler: HandlerView| running(handler)),
            runs.deep_view() == wanted.take(i as int),
        decreases matched.len() - i,
    {
        let ghost before = runs.deep_view();
        let run: HookRunSummary = running_summary(&matched[i]);
        assert(run.deep_view() == wanted[i as int]);
        runs.push(run);
        assert(runs.deep_view() =~= before.push(run.deep_view()));
        assert(before.push(run.deep_view()) =~= wanted.take(i + 1));
        i += 1;
    }
    assert(wanted.take(matched.len() as int) =~= wanted);
    runs
}

/// The members of what a hook reads.
pub open spec fn input_members(request: RequestView) -> Seq<(Seq<char>, JsonView)> {
    seq![
        ("session_id"@, JsonView::Text(request.session_id)),
        ("transcript_path"@, optional_text_value(request.transcript_path)),
        ("cwd"@, JsonView::Text(request.cwd)),
        ("hook_event_name"@, JsonView::Text("Notification"@)),
        ("model"@, JsonView::Text(request.model)),
        ("permission_mode"@, JsonView::Text(request.permission_mode)),
        ("notification_type"@, JsonView::Text(type_text(request.notification_type))),
        ("message"@, JsonView::Text(type_message(request.notification_type))),
        ("title"@, JsonView::Null),
    ]
}

/// What a hook reads.
pub open spec fn hook_input(request: RequestView) -> Seq<char> {
    object_text(input_members(request))
}

/// What a hook that is told of `request` reads.
pub fn notification_input(request: &NotificationRequest) -> (input: String)
    ensures
        input@ == hook_input(request.deep_view()),
{
    let mut members: Vec<(String, JsonValue)> = Vec::new();
    assert(members.deep_view() =~= Seq::<(Seq<char>, JsonView)>::empty());
    push_member(&mut members, "session_id", JsonValue::Text(request.session_id.clone()));
    push_member(&mut members, "transcript_path", optional_text(&request.transcript_path));
    push_member(&mut members, "cwd", JsonValue::Text(request.cwd.clone()));
    push_member(&mut members, "hook_event_name", JsonValue::Text("Notification".to_owned()));
    push_member(&mut members, "model", JsonValue::Text(request.model.clone()));
    push_member(
        &mut members,
        "permission_mode",
        JsonValue::Text(request.permission_mode.clone()),
    );
    push_member(
        &mut members,
        "notification_type",
        JsonValue::Text(request.notification_type.as_str().to_owned()),
    );
    push_member(
        &mut members,
        "message",
        JsonValue::Text(request.notification_type.message().to_owned()),
    );
    push_member(&mut members, "title", JsonValue::Null);
    assert(members.deep_view() =~= input_members(request.deep_view()));
    write_object(&members)
}

/// What telling the hooks takes: the hooks, and what each of them reads.
pub struct NotificationRun {
    pub matched: Vec<ConfiguredHandler>,
    pub input: String,
}

/// Puts together what telling the hooks takes, where there is a hook to be told.
pub fn plan_run(handlers: &Vec<ConfiguredHandler>, request: &NotificationRequest) -> (run: Option<
    NotificationRun,
>)
    ensures
        match run {
            Some(run) => run.matched.deep_view() == matched_handlers(
                handlers.deep_view(),
                request.notification_type,
            ) && run.matched@.len() > 0 && run.input@ == hook_input(request.deep_view()),
            None => matched_handlers(handlers.deep_view(), request.notification_type).len() == 0,
        },
{
    let matched: Vec<ConfiguredHandler> = select_handlers(handlers, request.notification_type);
    assert(matched.deep_view().len() == matched.len());
    if matched.len() == 0 {
        return None;
    }
    Some(NotificationRun { matched, input: notification_input(request) })
}

/// The line about a run that failed.
pub open spec fn error_entry(text: Seq<char>) -> Seq<EntryView> {
    seq![EntryView { kind: HookOutputEntryKind::Error, text }]
}

/// How a run ended, and the lines about it. Only the exit code zero is a success. Of a failure the
/// error stream is told, where it says anything. What the hook wrote on its output has no effect.
pub open spec fn run_ending(result: ResultView) -> (HookRunStatus, Seq<EntryView>) {
    match (result.error, result.exit_code) {
        (Some(error), _) => (HookRunStatus::Failed, error_entry(error)),
        (None, Some(code)) => if code == 0 {
            (HookRunStatus::Completed, Seq::empty())
        } else {
            (
                HookRunStatus::Failed,
                error_entry(
                    if trimmed(result.stderr).len() > 0 {
                        trimmed(result.stderr)
                    } else {
                        "hook exited with code "@ + signed_decimal(code as int)
                    },
                ),
            )
        },
        (None, None) => (
            HookRunStatus::Failed,
            error_entry("hook process terminated without an exit code"@),
        ),
    }
}

/// The event about a run that ended.
pub open spec fn completed_event(
    handler: HandlerView,
    result: ResultView,
    turn_id: Option<Seq<char>>,
) -> CompletedView {
    CompletedView {
        turn_id,
        run: SummaryView {
            event_name: handler.event_name,
            status_message: handler.status_message,
            display_order: handler.display_order,
            status: run_ending(result).0,
            times: Some(
                HookRunTimes {
                    started_at: result.started_at,
                    completed_at: result.completed_at,
                    duration_ms: result.duration_ms,
                },
            ),
            entries: run_ending(result).1,
        },
    }
}

fn failure(text: String) -> (ending: (HookRunStatus, Vec<HookOutputEntry>))
    ensures
        ending.0 is Failed,
        ending.1.deep_view() == error_entry(text@),
{
    let mut entries: Vec<HookOutputEntry> = Vec::new();
    entries.push(HookOutputEntry { kind: HookOutputEntryKind::Error, text });
    assert(entries.deep_view() =~= error_entry(text@));
    (HookRunStatus::Failed, entries)
}

/// The text without the white space around it, where some is left.
pub fn trimmed_non_empty(text: &str) -> (rest: Option<String>)
    ensures
        rest.deep_view() == if trimmed(text@).len() > 0 {
            Some(trimmed(text@))
        } else {
            None
        },
{
    let rest: String = trim(text);
    if rest.as_str().is_empty() {
        None
    } else {
        Some(rest)
    }
}

/// The event about the run of `handler` that ended with `run_result`.
pub fn parse_completed(
    handler: &ConfiguredHandler,
    run_result: HandlerRunResult,
    turn_id: Option<String>,
) -> (parsed: ParsedHandler)
    ensures
        parsed.completed.deep_view() == completed_event(
            handler.deep_view(),
            run_result.deep_view(),
            turn_id.deep_view(),
        ),
        parsed.completion_order == 0,
{
    let (status, entries): (HookRunStatus, Vec<HookOutputEntry>) = match (
        &run_result.error,
        run_result.exit_code,
    ) {
        (Some(error), _) => failure(error.clone()),
        (None, Some(code)) => {
            if code == 0 {
                let none: Vec<HookOutputEntry> = Vec::new();
                assert(none.deep_view() =~= Seq::<EntryView>::empty());
                (HookRunStatus::Completed, none)
            } else {
                match trimmed_non_empty(run_result.stderr.as_str()) {
                    Some(text) => failure(text),
                    None => failure(
                        concat2("hook exited with code ", signed_decimal_text(code).as_str()),
                    ),
                }
            }
        },
        (None, None) => failure("hook process terminated without an exit code".to_owned()),
    };
    ParsedHandler {
        completed: HookCompletedEvent {
            turn_id,
            run: HookRunSummary {
                event_name: handler.event_name,
                status_message: handler.status_message.clone(),
                display_order: handler.display_order,
                status,
                times: Some(
                    HookRunTimes {
                        started_at: run_result.started_at,
                        completed_at: run_result.completed_at,
                        duration_ms: run_result.duration_ms,
                    },
                ),
                entries,
            },
        },
        completion_order: 0,
    }
}

/// The events about the runs of hooks that ended, in the order of the hooks.
pub open spec fn completed_events(
    matched: Seq<HandlerView>,
    results: Seq<ResultView>,
    turn_id: Seq<char>,
) -> Seq<CompletedView> {
    Seq::new(
        matched.len(),
        |i: int| completed_event(matched[i], results[i], Some(turn_id)),
    )
}

/// What became of telling the hooks `matched`, whose processes ended with `results`.
pub fn finish_run(
    matched: &Vec<ConfiguredHandler>,
    results: Vec<HandlerRunResult>,
    turn_id: &str,
) -> (outcome: NotificationOutcome)
    requires
        matched@.len() == results@.len(),
    ensures
        outcome.hook_events.deep_view() == completed_events(
            matched.deep_view(),
            results.deep_view(),
            turn_id@,
        ),
{
    let mut events: Vec<HookCompletedEvent> = Vec::new();
    let ghost wanted = completed_events(matched.deep_view(), results.deep_view(), turn_id@);
    let ghost all = results.deep_view();
    let mut rest: Vec<HandlerRunResult> = results;
    let mut i: usize = 0;
    assert(events.deep_view() =~= wanted.take(0));
    assert(rest.deep_view() =~= all.skip(0));
    while i < matched.len()
        invariant
            i <= matched.len(),
            matched.len() == all.len(),
            wanted == completed_events(matched.deep_view(), all, turn_id@),
            rest.deep_view() == all.skip(i as int),
            events.deep_view() == wanted.take(i as int),
        decreases matched.len() - i,
    {
        let ghost left = rest.deep_view();
        assert(left.len() == rest.len());
        let result: HandlerRunResult = rest.remove(0);
        assert(result.deep_view() == left[0]);
        assert(rest.deep_view() =~= left.remove(0));
        assert(left.remove(0) =~= all.skip(i + 1));
        let parsed: ParsedHandler = parse_completed(&matched[i], result, Some(turn_id.to_owned()));
        let ghost before = events.deep_view();
        assert(parsed.completed.deep_view() == wanted[i as int]);
        let event: HookCompletedEvent = parsed.completed;
        events.push(event);
        assert(events.deep_view() =~= before.push(event.deep_view()));
        assert(before.push(event.deep_view()) =~= wanted.take(i + 1));
        i += 1;
    }
    assert(wanted.take(matched.len() as int) =~= wanted);
    NotificationOutcome { hook_events: events }
}

/// What a hook writes on its output has no effect on the session: the event about its run is the
/// same whatever it wrote.
pub proof fn lemma_output_has_no_effect(
    handler: HandlerView,
    a: ResultView,
    b: ResultView,
    turn_id: Option<Seq<char>>,
)
    requires
        a == (ResultView { stdout: a.stdout, ..b }),
    ensures
        completed_event(handler, a, turn_id) == completed_event(handler, b, turn_id),
{
}

/// A hook does not learn of the turn: what it reads is the same for every turn.
pub proof fn lemma_the_turn_is_not_told(a: RequestView, b: RequestView)
    requires
        a == (RequestView { turn_id: a.turn_id, ..b }),
    ensures
        hook_input(a) == hook_input(b),
{
}

/// A notification is found again by how it is written.
pub proof fn lemma_a_notification_is_found_by_its_name(notification_type: NotificationType)
    ensures
        type_named(type_text(notification_type)) == Some(notification_type),
        forall|name: Seq<char>| #[trigger]
            type_named(name) == Some(notification_type) ==> name == type_text(notification_type),
{
    if let Some(found) = type_named(type_text(notification_type)) {
        lemma_notifications_are_told_apart(found, notification_type);
    }
}

/// A list of notifications selects a hook for those that it names, and for no others.
pub proof fn lemma_a_list_accepts_what_it_names(
    pattern: Seq<char>,
    notification_type: NotificationType,
)
    requires
        lists_names(pattern),
    ensures
        matches_type(
            Some(MatcherView { pattern, accepted: listed_types(pattern) }),
            notification_type,
        ) == split(pattern, '|').contains(type_text(notification_type)),
{
    let names = split(pattern, '|');
    let accepted = listed_types(pattern);
    lemma_a_notification_is_found_by_its_name(notification_type);
    if names.contains(type_text(notification_type)) {
        let i = choose|i: int| 0 <= i < names.len() && names[i] == type_text(notification_type);
        assert(accepted[i] == notification_type);
    }
    if accepted.contains(notification_type) {
        let i = choose|i: int| 0 <= i < accepted.len() && accepted[i] == notification_type;
        assert(type_named(names[i]) is Some);
        assert(type_named(names[i]) == Some(notification_type));
        assert(names[i] == type_text(notification_type));
    }
}

/// Each notification is written in its own way.
pub proof fn lemma_notifications_are_told_apart(a: NotificationType, b: NotificationType)
    requires
        type_text(a) == type_text(b),
    ensures
        a == b,
{
    reveal_strlit("user_input_request");
    reveal_strlit("user_input_complete");
    reveal_strlit("elicitation_dialog");
    reveal_strlit("elicitation_url_dialog");
    reveal_strlit("elicitation_complete");
    reveal_strlit("plan_implementation_request");
    reveal_strlit("plan_implementation_complete");
    assert("user_input_request"@.len() == 18 && "user_input_request"@[0] == 'u');
    assert("user_input_complete"@.len() == 19);
    assert("elicitation_dialog"@.len() == 18 && "elicitation_dialog"@[0] == 'e');
    assert("elicitation_url_dialog"@.len() == 22);
    assert("elicitation_complete"@.len() == 20);
    assert("plan_implementation_request"@.len() == 27);
    assert("plan_implementation_complete"@.len() == 28);
}

/// A hook reads an object that tells it everything of the request but the turn: the members have
/// these names and values, in this order.
pub proof fn lemma_hooks_are_told_the_request(request: RequestView)
    ensures
        exists|members: Seq<(Seq<char>, JsonView)>| #[trigger]
            object_text(members) == hook_input(request) && members.len() == 9 && members[0] == (
                "session_id"@,
                JsonView::Text(request.session_id),
            ) && members[1] == (
                "transcript_path"@,
                match request.transcript_path {
                    Some(path) => JsonView::Text(path),
                    None => JsonView::Null,
                },
            ) && members[2] == ("cwd"@, JsonView::Text(request.cwd)) && members[3] == (
                "hook_event_name"@,
                JsonView::Text("Notification"@),
            ) && members[4] == ("model"@, JsonView::Text(request.model)) && members[5] == (
                "permission_mode"@,
                JsonView::Text(request.permission_mode),
            ) && members[6] == (
                "notification_type"@,
                JsonView::Text(type_text(request.notification_type)),
            ) && members[7] == (
                "message"@,
                JsonView::Text(type_message(request.notification_type)),
            ) && members[8] == ("title"@, JsonView::Null),
{
    assert(object_text(input_members(request)) == hook_input(request));
}

/// What a hook reads says which notification it is told of, and everything else of the request but
/// the turn: two requests that read the same differ in their turns at most.
pub proof fn lemma_different_requests_read_differently(a: RequestView, b: RequestView)
    requires
        hook_input(a) == hook_input(b),
    ensures
        a.notification_type == b.notification_type,
        a.session_id == b.session_id,
        a.cwd == b.cwd,
        a.transcript_path == b.transcript_path,
        a.model == b.model,
        a.permission_mode == b.permission_mode,
{
    let in_a = input_members(a);
    let in_b = input_members(b);
    lemma_an_object_reads_back(in_a, in_b);
    assert(in_a[0] == in_b[0] && in_a[1] == in_b[1] && in_a[2] == in_b[2] && in_a[4] == in_b[4]
        && in_a[5] == in_b[5] && in_a[6] == in_b[6]);
    assert(type_text(a.notification_type) == type_text(b.notification_type));
    lemma_notifications_are_told_apart(a.notification_type, b.notification_type);
}

/// The message of a notification says that the request is completed exactly where the notification
/// is written as a completion, and otherwise that input is needed.
#[verifier::spinoff_prover]
pub proof fn lemma_the_message_tells_completions(notification_type: NotificationType)
    ensures
        ends_with(type_text(notification_type), "_complete"@) ==> type_message(notification_type)
            == "Codex input request completed"@,
        !ends_with(type_text(notification_type), "_complete"@) ==> type_message(notification_type)
            == "Codex needs your input"@,
{
    reveal_strlit("user_input_request");
    reveal_strlit("user_input_complete");
    reveal_strlit("elicitation_dialog");
    reveal_strlit("elicitation_url_dialog");
    reveal_strlit("elicitation_complete");
    reveal_strlit("plan_implementation_request");
    reveal_strlit("plan_implementation_complete");
    reveal_strlit("_complete");
    let text = type_text(notification_type);
    let n = text.len() as int;
    if is_completion(notification_type) {
        assert(text.skip(n - 9) =~= "_complete"@);
    } else {
        assert(text[n - 1] == 't' || text[n - 1] == 'g');
        assert("_complete"@[8] == 'e');
        if text.skip(n - 9) == "_complete"@ {
            assert(text.skip(n - 9)[8] == text[n - 1]);
        }
    }
}

/// The hooks that are told are the hooks for notifications whose pattern, if they have one,
/// accepts the notification; each of them is told as often as it is configured, in their order.
pub proof fn lemma_hooks_are_told_in_order(
    before: Seq<HandlerView>,
    handler: HandlerView,
    after: Seq<HandlerView>,
    notification_type: NotificationType,
)
    ensures
        matched_handlers(before + seq![handler] + after, notification_type) == matched_handlers(
            before,
            notification_type,
        ) + matched_handlers(seq![handler], notification_type) + matched_handlers(
            after,
            notification_type,
        ),
        matched_handlers(seq![handler], notification_type) == (if handler.event_name
            is Notification && (handler.matcher matches Some(matcher) ==> matcher.accepted.contains(
            notification_type,
        )) {
            seq![handler]
        } else {
            Seq::empty()
        }),
        matched_handlers(Seq::empty(), notification_type) == Seq::<HandlerView>::empty(),
    decreases after.len(),
{
    let one = seq![handler];
    assert(one.drop_last() =~= Seq::<HandlerView>::empty());
    assert(one.last() == handler);
    assert(Seq::<HandlerView>::empty().push(handler) =~= seq![handler]);
    reveal_with_fuel(matched_handlers, 2);
    let all = before + one + after;
    if after.len() == 0 {
        assert(all =~= before.push(handler));
        assert(all.drop_last() =~= before);
        assert(matched_handlers(all, notification_type) =~= matched_handlers(
            before,
            notification_type,
        ) + matched_handlers(one, notification_type) + matched_handlers(after, notification_type));
    } else {
        let fewer = after.drop_last();
        lemma_hooks_are_told_in_order(before, handler, fewer, notification_type);
        assert(all.drop_last() =~= before + one + fewer);
        assert(all.last() == after.last());
        assert(matched_handlers(all, notification_type) =~= matched_handlers(
            before,
            notification_type,
        ) + matched_handlers(one, notification_type) + matched_handlers(after, notification_type));
    }
}

/// A run is a success exactly where the process ran and ended with zero; then nothing is said of
/// it. Of every other one a single line is said: why it could not be run, or what it wrote on its
/// error stream, or, where that is blank, how it ended.
pub proof fn lemma_only_zero_is_a_success(
    handler: HandlerView,
    result: ResultView,
    turn_id: Option<Seq<char>>,
)
    ensures
        completed_event(handler, result, turn_id).run.status is Completed <==> result.error is None
            && result.exit_code == Some(0i32),
        !(completed_event(handler, result, turn_id).run.status is Running),
        completed_event(handler, result, turn_id).run.status is Completed ==> completed_event(
            handler,
            result,
            turn_id,
        ).run.entries.len() == 0,
        completed_event(handler, result, turn_id).run.status is Failed ==> completed_event(
            handler,
            result,
            turn_id,
        ).run.entries.len() == 1 && completed_event(handler, result, turn_id).run.entries[0].text
            == (match (result.error, result.exit_code) {
            (Some(error), _) => error,
            (None, None) => "hook process terminated without an exit code"@,
            (None, Some(code)) => if trimmed(result.stderr).len() > 0 {
                trimmed(result.stderr)
            } else {
                "hook exited with code "@ + signed_decimal(code as int)
            },
        }),
{
}

/// The event about an ended run names the hook that ran and the turn, and when it ran. A run that
/// begins is shown in the same way, without times and lines.
pub proof fn lemma_events_name_the_hook(
    handler: HandlerView,
    result: ResultView,
    turn_id: Option<Seq<char>>,
)
    ensures
        completed_event(handler, result, turn_id).turn_id == turn_id,
        completed_event(handler, result, turn_id).run.event_name == handler.event_name,
        completed_event(handler, result, turn_id).run.status_message == handler.status_message,
        completed_event(handler, result, turn_id).run.display_order == handler.display_order,
        completed_event(handler, result, turn_id).run.times matches Some(times)
            && times.started_at == result.started_at && times.completed_at == result.completed_at
            && times.duration_ms == result.duration_ms,
        running(handler).event_name == handler.event_name,
        running(handler).status_message == handler.status_message,
        running(handler).display_order == handler.display_order,
        running(handler).status is Running,
        running(handler).times is None,
        running(handler).entries.len() == 0,
{
}

/// There is one event for each hook, in their order, about its own run.
pub proof fn lemma_each_run_has_its_event(
    matched: Seq<HandlerView>,
    results: Seq<ResultView>,
    turn_id: Seq<char>,
    i: int,
)
    requires
        matched.len() == results.len(),
        0 <= i < matched.len(),
    ensures
        completed_events(matched, results, turn_id).len() == matched.len(),
        completed_events(matched, results, turn_id)[i] == completed_event(
            matched[i],
            results[i],
            Some(turn_id),
        ),
{
}

/// A pattern is a list exactly where each of its parts between bars is a notification written in
/// full; a list of one list and another holds what both hold.
pub proof fn lemma_lists_are_made_of_names(
    name: Seq<char>,
    a: Seq<char>,
    b: Seq<char>,
    notification_type: NotificationType,
)
    requires
        !name.contains('|'),
    ensures
        lists_names(name) <==> exists|known: NotificationType| #[trigger] type_text(known) == name,
        name == type_text(notification_type) ==> listed_types(name) == seq![notification_type],
        lists_names(a + seq!['|'] + b) <==> lists_names(a) && lists_names(b),
        listed_types(a + seq!['|'] + b) == listed_types(a) + listed_types(b),
{
    lemma_split_single(name, '|');
    lemma_split_join(a, b, '|');
    let whole = split(a + seq!['|'] + b, '|');
    let left = split(a, '|');
    let right = split(b, '|');
    assert(split(name, '|')[0] == name);
    if let Some(known) = type_named(name) {
        assert(type_text(known) == name);
    }
    if lists_names(name) {
        assert(type_named(split(name, '|')[0]) is Some);
    }
    if exists|known: NotificationType| #[trigger] type_text(known) == name {
        let known = choose|known: NotificationType| #[trigger] type_text(known) == name;
        lemma_a_notification_is_found_by_its_name(known);
    }
    if name == type_text(notification_type) {
        lemma_a_notification_is_found_by_its_name(notification_type);
        assert(listed_types(name) =~= seq![notification_type]);
    }
    if lists_names(a + seq!['|'] + b) {
        assert forall|i: int| 0 <= i < left.len() implies type_named(#[trigger] left[i]) is Some by {
            assert(whole[i] == left[i]);
        }
        assert forall|i: int| 0 <= i < right.len() implies type_named(
            #[trigger] right[i],
        ) is Some by {
            assert(whole[left.len() + i] == right[i]);
        }
    }
    if lists_names(a) && lists_names(b) {
        assert forall|i: int| 0 <= i < whole.len() implies type_named(
            #[trigger] whole[i],
        ) is Some by {
            if i < left.len() {
                assert(whole[i] == left[i]);
            } else {
                assert(whole[i] == right[i - left.len()]);
            }
        }
    }
    assert(listed_types(a + seq!['|'] + b) =~= listed_types(a) + listed_types(b));
}

} // verus!
