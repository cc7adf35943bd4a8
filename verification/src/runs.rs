//! A run of a tool: the requests that it makes, one after the other, and what becomes of the session.

use vstd::prelude::*;

use crate::bounds::{fits_context, CallErrorView};
use crate::checks::{
    absolute_or_fatal, inspected_optional_step, inspected_step, managed_step, matching_step,
    noted_step, read_step, still_inside_step, update_step, writable_path_step, writable_step,
};
use crate::discovery::{active_for_exit_step, active_step, native_cwd};
use crate::enter::{
    adopted_entry_step, created_entry_step, described_entry_step, enter_prepared_step, enter_step,
    enter_update, entered_worktree, entry_content, entry_step, existing_entry_step, managed_entry_step,
    recorded_step, required_paths, same_session_step, starting_point, ContextView, EnterArgsView,
    EntryView, PayloadView,
};
use crate::environment::{local_primary, reselected, selections_of, StateView, UpdateView};
use crate::exit::{
    exit_content, exit_found_step, exit_step, exit_update, leave_step, ExitArgsView,
};
use crate::guarantees::{changes_nothing, lemma_exit_undoes_enter};
use crate::json::object_text;
use crate::output::{
    exit_members, preflight_step, writes_allowed_step, EnterOutputView, ExitOutputView,
};
use crate::paths::joined_path;
use crate::progress::Step;
use crate::session::{
    active_of, ActiveStateView, ActiveView, BlockingView, ToolAnswer, ToolAsk, ToolStep,
};
use crate::worktree::InfoView;

verus! {

/// Two lists of answers begin with the same answers.
pub open spec fn same_so_far(answers: Seq<ToolAnswer>, other: Seq<ToolAnswer>, n: int) -> bool {
    &&& n <= answers.len()
    &&& n <= other.len()
    &&& forall|i: int| 0 <= i < n ==> #[trigger] answers[i] == other[i]
}

/// A request that changes the session itself, or takes a worktree away from it.
pub open spec fn changes_session(ask: ToolAsk) -> bool {
    ask is UpdateSettings || ask is PersistCwd || ask is SetActiveWorktree
        || ask is ClearActiveWorktree || ask is RemoveManaged
}

/// A procedure does not change the session. Where it comes to its end, it has used answers that were
/// there, and it comes to the same end on every list that begins with the answers that it used.
pub open spec fn settles_alike<T>(
    step: ToolStep<T>,
    other: ToolStep<T>,
    at: int,
    len: int,
    n: int,
) -> bool {
    match step {
        Step::Ask(ask) => !changes_session(ask),
        Step::Failed(_, used) => at <= used && (used == at || used <= len) && (used <= n ==> other
            == step),
        Step::Done(_, used) => at <= used && (used == at || used <= len) && (used <= n ==> other
            == step),
    }
}

#[verifier::spinoff_prover]
proof fn lemma_active_settles_alike(
    cwd: Seq<char>,
    thread_id: Seq<char>,
    answers: Seq<ToolAnswer>,
    other: Seq<ToolAnswer>,
    n: int,
    at: int,
)
    requires
        0 <= at,
        same_so_far(answers, other, n),
    ensures
        settles_alike(
            active_step(cwd, thread_id, answers, at),
            active_step(cwd, thread_id, other, at),
            at,
            answers.len() as int,
            n,
        ),
        changes_nothing(active_step(cwd, thread_id, answers, at)),
{
}

#[verifier::spinoff_prover]
proof fn lemma_writable_settles_alike(
    tool_name: Seq<char>,
    full_disk_write: bool,
    cwd: Seq<char>,
    paths: Seq<Seq<char>>,
    answers: Seq<ToolAnswer>,
    other: Seq<ToolAnswer>,
    n: int,
    at: int,
)
    requires
        0 <= at,
        same_so_far(answers, other, n),
    ensures
        settles_alike(
            writable_step(tool_name, full_disk_write, cwd, paths, answers, at),
            writable_step(tool_name, full_disk_write, cwd, paths, other, at),
            at,
            answers.len() as int,
            n,
        ),
    decreases paths.len(),
{
    if paths.len() > 0 {
        if let Step::Done(_, used) = writable_path_step(
            tool_name,
            full_disk_write,
            cwd,
            paths[0],
            answers,
            at,
        ) {
            lemma_writable_settles_alike(
                tool_name,
                full_disk_write,
                cwd,
                paths.drop_first(),
                answers,
                other, n,
                used,
            );
        }
    }
}

#[verifier::spinoff_prover]
proof fn lemma_preflight_settles_alike(
    info: InfoView,
    original_cwd: Seq<char>,
    name: Seq<char>,
    answers: Seq<ToolAnswer>,
    other: Seq<ToolAnswer>,
    n: int,
    at: int,
)
    requires
        0 <= at,
        same_so_far(answers, other, n),
    ensures
        settles_alike(
            preflight_step(info, original_cwd, name, answers, at),
            preflight_step(info, original_cwd, name, other, at),
            at,
            answers.len() as int,
            n,
        ),
{
}

#[verifier::spinoff_prover]
proof fn lemma_matching_settles_alike(
    repo_root: Seq<char>,
    original_cwd: Seq<char>,
    worktree_path: Seq<char>,
    answers: Seq<ToolAnswer>,
    other: Seq<ToolAnswer>,
    n: int,
    at: int,
)
    requires
        0 <= at,
        same_so_far(answers, other, n),
    ensures
        settles_alike(
            matching_step(repo_root, original_cwd, worktree_path, answers, at),
            matching_step(repo_root, original_cwd, worktree_path, other, at),
            at,
            answers.len() as int,
            n,
        ),
{
}

#[verifier::spinoff_prover]
proof fn lemma_created_entry_settles_alike(
    context: ContextView,
    original_cwd: Seq<char>,
    info: InfoView,
    name: Seq<char>,
    answers: Seq<ToolAnswer>,
    other: Seq<ToolAnswer>,
    n: int,
    at: int,
)
    requires
        0 <= at,
        same_so_far(answers, other, n),
    ensures
        settles_alike(
            created_entry_step(context, original_cwd, info, name, answers, at),
            created_entry_step(context, original_cwd, info, name, other, at),
            at,
            answers.len() as int,
            n,
        ),
{
    if let Step::Done(managed, used) = managed_step(original_cwd, name, answers, at) {
        if let Ok(path) = absolute_or_fatal(managed.path, "managed worktree path"@) {
            lemma_matching_settles_alike(info.repo_root, original_cwd, path, answers, other, n, used);
            if let Step::Done(_, used) = matching_step(
                info.repo_root,
                original_cwd,
                path,
                answers,
                used,
            ) {
                if let Step::Done(_, used) = read_step(
                    info.common_dir,
                    managed.name,
                    answers,
                    used,
                ) {
                    lemma_writable_settles_alike(
                        "enter_worktree"@,
                        context.full_disk_write,
                        original_cwd,
                        seq![original_cwd, path],
                        answers,
                        other, n,
                        used,
                    );
                }
            }
        }
    }
}

#[verifier::spinoff_prover]
proof fn lemma_managed_entry_settles_alike(
    context: ContextView,
    original_cwd: Seq<char>,
    name: Seq<char>,
    answers: Seq<ToolAnswer>,
    other: Seq<ToolAnswer>,
    n: int,
    at: int,
)
    requires
        0 <= at,
        same_so_far(answers, other, n),
    ensures
        settles_alike(
            managed_entry_step(context, original_cwd, name, answers, at),
            managed_entry_step(context, original_cwd, name, other, at),
            at,
            answers.len() as int,
            n,
        ),
{
    if let Step::Done(info, used) = inspected_step(original_cwd, answers, at) {
        lemma_preflight_settles_alike(info, original_cwd, name, answers, other, n, used);
        if let Step::Done(_, used) = preflight_step(info, original_cwd, name, answers, used) {
            lemma_writable_settles_alike(
                "enter_worktree"@,
                context.full_disk_write,
                original_cwd,
                seq![original_cwd],
                answers,
                other, n,
                used,
            );
            if let Step::Done(_, used) = writes_allowed_step(
                "enter_worktree"@,
                context.full_disk_write,
                original_cwd,
                name,
                answers,
                used,
            ) {
                lemma_created_entry_settles_alike(
                    context,
                    original_cwd,
                    info,
                    name,
                    answers,
                    other, n,
                    used,
                );
            }
        }
    }
}

#[verifier::spinoff_prover]
proof fn lemma_same_session_settles_alike(
    context: ContextView,
    original_cwd: Seq<char>,
    info: Option<InfoView>,
    answers: Seq<ToolAnswer>,
    other: Seq<ToolAnswer>,
    n: int,
    at: int,
)
    requires
        0 <= at,
        same_so_far(answers, other, n),
    ensures
        settles_alike(
            same_session_step(context, original_cwd, info, answers, at),
            same_session_step(context, original_cwd, info, other, at),
            at,
            answers.len() as int,
            n,
        ),
{
}

#[verifier::spinoff_prover]
proof fn lemma_described_settles_alike(
    path: Seq<char>,
    info: Option<InfoView>,
    same_session: bool,
    answers: Seq<ToolAnswer>,
    other: Seq<ToolAnswer>,
    n: int,
    at: int,
)
    requires
        0 <= at,
        same_so_far(answers, other, n),
    ensures
        settles_alike(
            described_entry_step(path, info, same_session, answers, at),
            described_entry_step(path, info, same_session, other, at),
            at,
            answers.len() as int,
            n,
        ),
{
}

#[verifier::spinoff_prover]
proof fn lemma_existing_entry_settles_alike(
    context: ContextView,
    original_cwd: Seq<char>,
    path: Seq<char>,
    answers: Seq<ToolAnswer>,
    other: Seq<ToolAnswer>,
    n: int,
    at: int,
)
    requires
        0 <= at,
        same_so_far(answers, other, n),
    ensures
        settles_alike(
            existing_entry_step(context, original_cwd, path, answers, at),
            existing_entry_step(context, original_cwd, path, other, at),
            at,
            answers.len() as int,
            n,
        ),
{
    if let Step::Done(info, used) = inspected_optional_step(path, answers, at) {
        lemma_same_session_settles_alike(context, original_cwd, info, answers, other, n, used);
        if let Step::Done(same, used) = same_session_step(
            context,
            original_cwd,
            info,
            answers,
            used,
        ) {
            let paths = required_paths(original_cwd, path, same);
            lemma_writable_settles_alike(
                "enter_worktree"@,
                context.full_disk_write,
                original_cwd,
                paths,
                answers,
                other, n,
                used,
            );
            if let Step::Done(_, used) = writable_step(
                "enter_worktree"@,
                context.full_disk_write,
                original_cwd,
                paths,
                answers,
                used,
            ) {
                lemma_described_settles_alike(path, info, same, answers, other, n, used);
            }
        }
    }
}

#[verifier::spinoff_prover]
proof fn lemma_adopted_entry_settles_alike(
    context: ContextView,
    original_cwd: Seq<char>,
    path: Seq<char>,
    answers: Seq<ToolAnswer>,
    other: Seq<ToolAnswer>,
    n: int,
    at: int,
)
    requires
        0 <= at,
        same_so_far(answers, other, n),
    ensures
        settles_alike(
            adopted_entry_step(context, original_cwd, path, answers, at),
            adopted_entry_step(context, original_cwd, path, other, at),
            at,
            answers.len() as int,
            n,
        ),
{
    if let Step::Done(candidate, used) = crate::checks::canonical_step(
        joined_path(original_cwd, path),
        answers,
        at,
    ) {
        lemma_existing_entry_settles_alike(context, original_cwd, candidate, answers, other, n, used + 1);
    }
}

#[verifier::spinoff_prover]
proof fn lemma_recorded_settles_alike(
    context: ContextView,
    original_cwd: Seq<char>,
    entry: EntryView,
    answers: Seq<ToolAnswer>,
    other: Seq<ToolAnswer>,
    n: int,
    at: int,
)
    requires
        0 <= at,
        same_so_far(answers, other, n),
    ensures
        settles_alike(
            recorded_step(context, original_cwd, entry, answers, at),
            recorded_step(context, original_cwd, entry, other, at),
            at,
            answers.len() as int,
            n,
        ),
{
}

#[verifier::spinoff_prover]
proof fn lemma_still_inside_settles_alike(
    active: ActiveView,
    current_cwd: Seq<char>,
    answers: Seq<ToolAnswer>,
    other: Seq<ToolAnswer>,
    n: int,
    at: int,
)
    requires
        0 <= at,
        same_so_far(answers, other, n),
    ensures
        settles_alike(
            still_inside_step(active, current_cwd, answers, at),
            still_inside_step(active, current_cwd, other, at),
            at,
            answers.len() as int,
            n,
        ),
        changes_nothing(still_inside_step(active, current_cwd, answers, at)),
{
}

#[verifier::spinoff_prover]
proof fn lemma_entry_settles_alike(
    context: ContextView,
    original_cwd: Seq<char>,
    args: EnterArgsView,
    answers: Seq<ToolAnswer>,
    other: Seq<ToolAnswer>,
    n: int,
    at: int,
)
    requires
        0 <= at,
        same_so_far(answers, other, n),
    ensures
        settles_alike(
            entry_step(context, original_cwd, args, answers, at),
            entry_step(context, original_cwd, args, other, at),
            at,
            answers.len() as int,
            n,
        ),
{
    match (args.name, args.path) {
        (Some(name), None) => {
            lemma_managed_entry_settles_alike(context, original_cwd, name, answers, other, n, at);
        },
        (None, Some(path)) => {
            lemma_adopted_entry_settles_alike(context, original_cwd, path, answers, other, n, at);
        },
        _ => {},
    }
}

/// What the tools change: the environments of a session, the worktree that it remembers, the
/// directory that is kept for it, and the worktrees that there are.
pub struct SessionView {
    pub environments: Seq<StateView>,
    pub active: Option<ActiveView>,
    pub persisted_cwd: Option<Seq<char>>,
    pub worktrees: Set<Seq<char>>,
}

/// The session after a request was answered.
pub open spec fn affected(session: SessionView, ask: ToolAsk, answer: ToolAnswer) -> SessionView {
    match (ask, answer) {
        (ToolAsk::UpdateSettings(update), ToolAnswer::Updated(Ok(_))) => SessionView {
            environments: reselected(session.environments, update.environments),
            ..session
        },
        (ToolAsk::PersistCwd(cwd), ToolAnswer::CwdPersisted) => SessionView {
            persisted_cwd: Some(cwd),
            ..session
        },
        (ToolAsk::SetActiveWorktree(active), ToolAnswer::ActiveSet) => SessionView {
            active: Some(active),
            ..session
        },
        (ToolAsk::ClearActiveWorktree, ToolAnswer::ActiveCleared) => SessionView {
            active: None,
            ..session
        },
        (
            ToolAsk::CreateManaged { repository_path: _, name: _ },
            ToolAnswer::Managed(BlockingView::Finished(Ok(managed))),
        ) => SessionView { worktrees: session.worktrees.insert(managed.path), ..session },
        (
            ToolAsk::RemoveCreated { repository_path: _, worktree_path, created_branch: _ },
            ToolAnswer::Removed(BlockingView::Finished(Ok(_))),
        ) => SessionView { worktrees: session.worktrees.remove(worktree_path), ..session },
        (
            ToolAsk::RemoveManaged { repository_path: _, worktree_path },
            ToolAnswer::Removed(BlockingView::Finished(Ok(_))),
        ) => SessionView { worktrees: session.worktrees.remove(worktree_path), ..session },
        _ => session,
    }
}

/// What a tool comes to after some answers.
pub type ToolRun = spec_fn(Seq<ToolAnswer>) -> ToolStep<Seq<char>>;

/// The session after a tool has got answers: each one answers the request that the tool made after
/// those before it.
pub open spec fn after_run(
    session: SessionView,
    tool: ToolRun,
    answers: Seq<ToolAnswer>,
) -> SessionView
    decreases answers.len(),
{
    if answers.len() == 0 {
        session
    } else {
        let before = after_run(session, tool, answers.drop_last());
        match tool(answers.drop_last()) {
            Step::Ask(ask) => affected(before, ask, answers.last()),
            _ => before,
        }
    }
}

/// The tool that enters a worktree.
#[verifier::opaque]
pub open spec fn entering(context: ContextView, payload: PayloadView<EnterArgsView>) -> ToolRun {
    |answers: Seq<ToolAnswer>| enter_step(context, payload, answers, 0)
}

/// The tool that leaves a worktree.
#[verifier::opaque]
pub open spec fn leaving(context: ContextView, keep: bool) -> ToolRun {
    |answers: Seq<ToolAnswer>|
        exit_step(context, PayloadView::Function(Ok(ExitArgsView { keep })), answers, 0)
}

/// Up to here a tool has not changed the session.
spec fn is_quiet(tool: ToolRun, answers: Seq<ToolAnswer>) -> bool {
    tool(answers) matches Step::Ask(ask) ==> !changes_session(ask)
}

/// Up to here a tool has made no worktree and taken none away.
spec fn spares_worktrees(tool: ToolRun, answers: Seq<ToolAnswer>) -> bool {
    changes_nothing(tool(answers))
}

proof fn lemma_quiet_run(session: SessionView, tool: ToolRun, answers: Seq<ToolAnswer>, n: int)
    requires
        0 <= n <= answers.len(),
        forall|m: int| 0 <= m < n ==> is_quiet(tool, #[trigger] answers.take(m)),
    ensures
        after_run(session, tool, answers.take(n)).environments == session.environments,
        after_run(session, tool, answers.take(n)).active == session.active,
        after_run(session, tool, answers.take(n)).persisted_cwd == session.persisted_cwd,
        (forall|m: int| 0 <= m < n ==> spares_worktrees(tool, #[trigger] answers.take(m)))
            ==> after_run(session, tool, answers.take(n)).worktrees == session.worktrees,
    decreases n,
{
    if n > 0 {
        lemma_quiet_run(session, tool, answers, n - 1);
        assert(answers.take(n).drop_last() =~= answers.take(n - 1));
        assert(is_quiet(tool, answers.take(n - 1)));
        if forall|m: int| 0 <= m < n ==> spares_worktrees(tool, #[trigger] answers.take(m)) {
            assert(spares_worktrees(tool, answers.take(n - 1)));
        }
    }
}

proof fn lemma_next(session: SessionView, tool: ToolRun, answers: Seq<ToolAnswer>, n: int)
    requires
        0 <= n < answers.len(),
    ensures
        after_run(session, tool, answers.take(n + 1)) == (match tool(answers.take(n)) {
            Step::Ask(ask) => affected(
                after_run(session, tool, answers.take(n)),
                ask,
                answers[n],
            ),
            _ => after_run(session, tool, answers.take(n)),
        }),
{
    assert(answers.take(n + 1).drop_last() =~= answers.take(n));
}

/// Where a run of entering stands: from where, what was chosen, and how many answers each part used.
pub struct EnterRun {
    pub original_cwd: Seq<char>,
    pub original_roots: Seq<Seq<char>>,
    pub entry: EntryView,
    pub found: int,
    pub chosen: int,
    pub recorded: int,
}

/// A run of entering comes to its last part, in which the session is changed.
#[verifier::opaque]
spec fn is_at_the_change(
    context: ContextView,
    args: EnterArgsView,
    answers: Seq<ToolAnswer>,
    run: EnterRun,
) -> bool {
    &&& starting_point(context.environments) == Ok::<(Seq<char>, Seq<Seq<char>>), CallErrorView>(
        (run.original_cwd, run.original_roots),
    )
    &&& answers.len() > 0
    &&& answers[0] == ToolAnswer::Locked
    &&& active_step(run.original_cwd, context.thread_id, answers, 1) == ToolStep::<
        Option<ActiveStateView>,
    >::Done(None, run.found)
    &&& entry_step(context, run.original_cwd, args, answers, run.found) == ToolStep::<
        EntryView,
    >::Done(run.entry, run.chosen)
    &&& recorded_step(context, run.original_cwd, run.entry, answers, run.chosen) == ToolStep::<
        (),
    >::Done((), run.recorded)
}

#[verifier::spinoff_prover]
proof fn lemma_parts_of_entering(
    context: ContextView,
    args: EnterArgsView,
    answers: Seq<ToolAnswer>,
    out: Seq<char>,
    used: int,
) -> (run: (Seq<char>, Seq<Seq<char>>, EntryView, int, int))
    requires
        enter_step(context, PayloadView::Function(Ok(args)), answers, 0) == ToolStep::<
            Seq<char>,
        >::Done(out, used),
    ensures
        starting_point(context.environments) == Ok::<(Seq<char>, Seq<Seq<char>>), CallErrorView>(
            (run.0, run.1),
        ),
        answers.len() > 0,
        answers[0] == ToolAnswer::Locked,
        active_step(run.0, context.thread_id, answers, 1) == ToolStep::<
            Option<ActiveStateView>,
        >::Done(None, run.3),
        entry_step(context, run.0, args, answers, run.3) == ToolStep::<EntryView>::Done(
            run.2,
            run.4,
        ),
        enter_prepared_step(context, run.0, run.1, run.2, answers, run.4) == ToolStep::<
            Seq<char>,
        >::Done(out, used),
{
    let (original_cwd, original_roots) = starting_point(context.environments)->Ok_0;
    let found = active_step(original_cwd, context.thread_id, answers, 1)->Done_1;
    let entry = entry_step(context, original_cwd, args, answers, found)->Done_0;
    let chosen = entry_step(context, original_cwd, args, answers, found)->Done_1;
    (original_cwd, original_roots, entry, found, chosen)
}

#[verifier::spinoff_prover]
proof fn lemma_parts_of_the_change(
    context: ContextView,
    original_cwd: Seq<char>,
    original_roots: Seq<Seq<char>>,
    entry: EntryView,
    answers: Seq<ToolAnswer>,
    at: int,
    out: Seq<char>,
    used: int,
) -> (recorded: int)
    requires
        0 <= at,
        enter_prepared_step(context, original_cwd, original_roots, entry, answers, at)
            == ToolStep::<Seq<char>>::Done(out, used),
    ensures
        recorded_step(context, original_cwd, entry, answers, at) == ToolStep::<()>::Done(
            (),
            recorded,
        ),
        at <= recorded,
        recorded + 4 == used,
        used <= answers.len(),
        answers[recorded] is Updated,
        answers[recorded]->Updated_0 is Ok,
        answers[recorded + 1] == ToolAnswer::CwdPersisted,
        answers[recorded + 2] == ToolAnswer::ActiveSet,
        answers[recorded + 3] == ToolAnswer::Announced,
        enter_update(context, original_cwd, original_roots, entry) is Ok,
        out == entry_content(original_cwd, entry),
{
    let n = answers.len() as int;
    lemma_recorded_settles_alike(context, original_cwd, entry, answers, answers, n, at);
    recorded_step(context, original_cwd, entry, answers, at)->Done_1
}

proof fn lemma_the_change_is_at_the_end(
    context: ContextView,
    args: EnterArgsView,
    answers: Seq<ToolAnswer>,
    out: Seq<char>,
) -> (run: EnterRun)
    requires
        entering(context, PayloadView::Function(Ok(args)))(answers) == ToolStep::<Seq<char>>::Done(
            out,
            answers.len() as int,
        ),
    ensures
        is_at_the_change(context, args, answers, run),
        1 <= run.found <= run.chosen <= run.recorded,
        run.recorded + 4 == answers.len(),
        answers[run.recorded] is Updated,
        answers[run.recorded]->Updated_0 is Ok,
        answers[run.recorded + 1] == ToolAnswer::CwdPersisted,
        answers[run.recorded + 2] == ToolAnswer::ActiveSet,
        answers[run.recorded + 3] == ToolAnswer::Announced,
        starting_point(context.environments) == Ok::<(Seq<char>, Seq<Seq<char>>), CallErrorView>(
            (run.original_cwd, run.original_roots),
        ),
        enter_update(context, run.original_cwd, run.original_roots, run.entry) is Ok,
        out == entry_content(run.original_cwd, run.entry),
{
    reveal(entering);
    reveal(is_at_the_change);
    let n = answers.len() as int;
    let (original_cwd, original_roots, entry, found, chosen) = lemma_parts_of_entering(
        context,
        args,
        answers,
        out,
        n,
    );
    lemma_active_settles_alike(original_cwd, context.thread_id, answers, answers, n, 1);
    lemma_entry_settles_alike(context, original_cwd, args, answers, answers, n, found);
    let recorded = lemma_parts_of_the_change(
        context,
        original_cwd,
        original_roots,
        entry,
        answers,
        chosen,
        out,
        n,
    );
    EnterRun { original_cwd, original_roots, entry, found, chosen, recorded }
}

#[verifier::spinoff_prover]
proof fn lemma_entering_is_quiet_before(
    context: ContextView,
    args: EnterArgsView,
    answers: Seq<ToolAnswer>,
    run: EnterRun,
    m: int,
)
    requires
        is_at_the_change(context, args, answers, run),
        0 <= m < run.recorded,
        m <= answers.len(),
    ensures
        is_quiet(entering(context, PayloadView::Function(Ok(args))), answers.take(m)),
{
    reveal(entering);
    reveal(is_at_the_change);
    let part = answers.take(m);
    let cwd = run.original_cwd;
    if m > 0 {
        assert(part[0] == answers[0]);
        lemma_active_settles_alike(cwd, context.thread_id, part, answers, m, 1);
        if let Step::Done(None, found) = active_step(cwd, context.thread_id, part, 1) {
            assert(found == run.found);
            lemma_entry_settles_alike(context, cwd, args, part, answers, m, found);
            if let Step::Done(entry, chosen) = entry_step(context, cwd, args, part, found) {
                assert(chosen == run.chosen && entry == run.entry);
                lemma_recorded_settles_alike(context, cwd, entry, part, answers, m, chosen);
                assert(!(recorded_step(context, cwd, entry, part, chosen) is Done));
            }
        }
    }
}

#[verifier::spinoff_prover]
proof fn lemma_entering_goes_on(
    context: ContextView,
    args: EnterArgsView,
    answers: Seq<ToolAnswer>,
    original_cwd: Seq<char>,
    original_roots: Seq<Seq<char>>,
    found: int,
    entry: EntryView,
    chosen: int,
)
    requires
        starting_point(context.environments) == Ok::<(Seq<char>, Seq<Seq<char>>), CallErrorView>(
            (original_cwd, original_roots),
        ),
        answers.len() > 0,
        answers[0] == ToolAnswer::Locked,
        active_step(original_cwd, context.thread_id, answers, 1) == ToolStep::<
            Option<ActiveStateView>,
        >::Done(None, found),
        entry_step(context, original_cwd, args, answers, found) == ToolStep::<EntryView>::Done(
            entry,
            chosen,
        ),
    ensures
        enter_step(context, PayloadView::Function(Ok(args)), answers, 0) == enter_prepared_step(
            context,
            original_cwd,
            original_roots,
            entry,
            answers,
            chosen,
        ),
{
}

proof fn lemma_enter_requests(
    context: ContextView,
    args: EnterArgsView,
    answers: Seq<ToolAnswer>,
    run: EnterRun,
    m: int,
)
    requires
        is_at_the_change(context, args, answers, run),
        1 <= run.found <= run.chosen <= run.recorded <= m <= answers.len(),
    ensures
        entering(context, PayloadView::Function(Ok(args)))(answers.take(m)) == enter_changing_step(
            context,
            run,
            answers.take(m),
        ),
{
    reveal(entering);
    reveal(is_at_the_change);
    let part = answers.take(m);
    let cwd = run.original_cwd;
    assert(part[0] == answers[0]);
    lemma_active_settles_alike(cwd, context.thread_id, answers, part, m, 1);
    lemma_entry_settles_alike(context, cwd, args, answers, part, m, run.found);
    lemma_recorded_settles_alike(context, cwd, run.entry, answers, part, m, run.chosen);
    lemma_entering_goes_on(
        context,
        args,
        part,
        cwd,
        run.original_roots,
        run.found,
        run.entry,
        run.chosen,
    );
}

/// The last part of entering, in which the session is changed.
spec fn enter_changing_step(
    context: ContextView,
    run: EnterRun,
    answers: Seq<ToolAnswer>,
) -> ToolStep<Seq<char>> {
    match enter_update(context, run.original_cwd, run.original_roots, run.entry) {
        Err(error) => Step::Failed(error, run.recorded),
        Ok(update) => match update_step(
            update,
            "failed to enter worktree: "@,
            answers,
            run.recorded,
        ) {
            Step::Ask(ask) => Step::Ask(ask),
            Step::Failed(error, used) => Step::Failed(error, used),
            Step::Done(_, used) => match noted_step(
                ToolAsk::PersistCwd(run.entry.worktree_cwd),
                ToolAnswer::CwdPersisted,
                answers,
                used,
            ) {
                Step::Ask(ask) => Step::Ask(ask),
                Step::Failed(error, used) => Step::Failed(error, used),
                Step::Done(_, used) => match noted_step(
                    ToolAsk::SetActiveWorktree(
                        entered_worktree(run.original_cwd, run.original_roots, run.entry),
                    ),
                    ToolAnswer::ActiveSet,
                    answers,
                    used,
                ) {
                    Step::Ask(ask) => Step::Ask(ask),
                    Step::Failed(error, used) => Step::Failed(error, used),
                    Step::Done(_, used) => match noted_step(
                        ToolAsk::AnnounceSettings,
                        ToolAnswer::Announced,
                        answers,
                        used,
                    ) {
                        Step::Ask(ask) => Step::Ask(ask),
                        Step::Failed(error, used) => Step::Failed(error, used),
                        Step::Done(_, used) => Step::Done(
                            entry_content(run.original_cwd, run.entry),
                            used,
                        ),
                    },
                },
            },
        },
    }
}

/// The last four requests of entering, answered, leave the session in the worktree.
proof fn lemma_the_change_of_entering(
    session: SessionView,
    tool: ToolRun,
    answers: Seq<ToolAnswer>,
    r: int,
    update: UpdateView,
    cwd: Seq<char>,
    active: ActiveView,
)
    requires
        0 <= r,
        r + 4 == answers.len(),
        forall|m: int| 0 <= m < r ==> is_quiet(tool, #[trigger] answers.take(m)),
        tool(answers.take(r)) == ToolStep::<Seq<char>>::Ask(ToolAsk::UpdateSettings(update)),
        tool(answers.take(r + 1)) == ToolStep::<Seq<char>>::Ask(ToolAsk::PersistCwd(cwd)),
        tool(answers.take(r + 2)) == ToolStep::<Seq<char>>::Ask(
            ToolAsk::SetActiveWorktree(active),
        ),
        tool(answers.take(r + 3)) == ToolStep::<Seq<char>>::Ask(ToolAsk::AnnounceSettings),
        answers[r] is Updated,
        answers[r]->Updated_0 is Ok,
        answers[r + 1] == ToolAnswer::CwdPersisted,
        answers[r + 2] == ToolAnswer::ActiveSet,
    ensures
        after_run(session, tool, answers).environments == reselected(
            session.environments,
            update.environments,
        ),
        after_run(session, tool, answers).persisted_cwd == Some(cwd),
        after_run(session, tool, answers).active == Some(active),
{
    lemma_quiet_run(session, tool, answers, r);
    lemma_next(session, tool, answers, r);
    lemma_next(session, tool, answers, r + 1);
    lemma_next(session, tool, answers, r + 2);
    lemma_next(session, tool, answers, r + 3);
    assert(answers.take(r + 4) =~= answers);
}

/// The session after entering a worktree: the worktree is remembered together with where the session
/// came from, its directory is kept, and the environments are those of the changed settings.
pub open spec fn has_entered(
    context: ContextView,
    session: SessionView,
    entered: SessionView,
    out: Seq<char>,
    run: EnterRun,
) -> bool {
    &&& starting_point(context.environments) == Ok::<(Seq<char>, Seq<Seq<char>>), CallErrorView>(
        (run.original_cwd, run.original_roots),
    )
    &&& enter_update(context, run.original_cwd, run.original_roots, run.entry) matches Ok(update)
        && entered.environments == reselected(session.environments, update.environments)
    &&& entered.active == Some(
        entered_worktree(run.original_cwd, run.original_roots, run.entry),
    )
    &&& entered.persisted_cwd == Some(run.entry.worktree_cwd)
    &&& out == entry_content(run.original_cwd, run.entry)
}

/// A run of entering that succeeds ends with the session in the worktree.
pub proof fn lemma_entering_changes_the_session(
    context: ContextView,
    args: EnterArgsView,
    answers: Seq<ToolAnswer>,
    out: Seq<char>,
    session: SessionView,
) -> (run: EnterRun)
    requires
        entering(context, PayloadView::Function(Ok(args)))(answers) == ToolStep::<Seq<char>>::Done(
            out,
            answers.len() as int,
        ),
    ensures
        has_entered(
            context,
            session,
            after_run(session, entering(context, PayloadView::Function(Ok(args))), answers),
            out,
            run,
        ),
{
    let run = lemma_the_change_is_at_the_end(context, args, answers, out);
    let tool = entering(context, PayloadView::Function(Ok(args)));
    let r = run.recorded;
    assert forall|m: int| 0 <= m < r implies is_quiet(tool, #[trigger] answers.take(m)) by {
        lemma_entering_is_quiet_before(context, args, answers, run, m);
    }
    lemma_enter_requests(context, args, answers, run, r);
    lemma_enter_requests(context, args, answers, run, r + 1);
    lemma_enter_requests(context, args, answers, run, r + 2);
    lemma_enter_requests(context, args, answers, run, r + 3);
    lemma_the_change_of_entering(
        session,
        tool,
        answers,
        r,
        enter_update(context, run.original_cwd, run.original_roots, run.entry)->Ok_0,
        run.entry.worktree_cwd,
        entered_worktree(run.original_cwd, run.original_roots, run.entry),
    );
    run
}

/// Where a run of leaving stands: the directory that is left, and how many answers each part used.
pub struct ExitRun {
    pub current_cwd: Seq<char>,
    pub checked: int,
    pub update: UpdateView,
}

/// A run of leaving a remembered worktree has found that the session is still in the worktree, and
/// holds the lock.
#[verifier::opaque]
spec fn is_at_the_door(
    context: ContextView,
    active: ActiveView,
    keep: bool,
    answers: Seq<ToolAnswer>,
    run: ExitRun,
) -> bool {
    &&& local_primary("exit_worktree"@, context.environments) matches Ok(primary) && native_cwd(
        "exit_worktree"@,
        primary.selection.cwd,
    ) == Ok::<Seq<char>, CallErrorView>(run.current_cwd)
    &&& answers.len() > 0
    &&& answers[0] == ToolAnswer::Active(Some(active))
    &&& keep || !(active.ownership is Adopted)
    &&& still_inside_step(active, run.current_cwd, answers, 1) == ToolStep::<()>::Done(
        (),
        run.checked,
    )
    &&& 1 <= run.checked < answers.len()
    &&& answers[run.checked] == ToolAnswer::Locked
    &&& exit_update(context, active, run.current_cwd) == Ok::<UpdateView, CallErrorView>(
        run.update,
    )
    &&& fits_context(exit_content(active, keep))
}

#[verifier::spinoff_prover]
proof fn lemma_parts_of_leaving(
    context: ContextView,
    active: ActiveView,
    keep: bool,
    answers: Seq<ToolAnswer>,
    out: Seq<char>,
) -> (run: ExitRun)
    requires
        leaving(context, keep)(answers) == ToolStep::<Seq<char>>::Done(out, answers.len() as int),
        answers.len() > 0,
        answers[0] == ToolAnswer::Active(Some(active)),
    ensures
        is_at_the_door(context, active, keep, answers, run),
        leave_step(context, active, run.current_cwd, keep, answers, run.checked + 1) == ToolStep::<
            Seq<char>,
        >::Done(out, answers.len() as int),
        1 <= run.checked,
        local_primary("exit_worktree"@, context.environments) matches Ok(primary) && native_cwd(
            "exit_worktree"@,
            primary.selection.cwd,
        ) == Ok::<Seq<char>, CallErrorView>(run.current_cwd),
        exit_update(context, active, run.current_cwd) == Ok::<UpdateView, CallErrorView>(
            run.update,
        ),
{
    reveal(leaving);
    reveal(is_at_the_door);
    let primary = local_primary("exit_worktree"@, context.environments)->Ok_0;
    let current_cwd = native_cwd("exit_worktree"@, primary.selection.cwd)->Ok_0;
    let checked = still_inside_step(active, current_cwd, answers, 1)->Done_1;
    let n = answers.len() as int;
    lemma_still_inside_settles_alike(active, current_cwd, answers, answers, n, 1);
    let update = exit_update(context, active, current_cwd)->Ok_0;
    ExitRun { current_cwd, checked, update }
}

/// How many answers leaving has used when it changes the settings.
spec fn removed_by(run: ExitRun, keep: bool) -> int {
    if keep {
        run.checked + 1
    } else {
        run.checked + 2
    }
}

#[verifier::spinoff_prover]
proof fn lemma_parts_of_the_return(
    context: ContextView,
    active: ActiveView,
    keep: bool,
    answers: Seq<ToolAnswer>,
    out: Seq<char>,
    run: ExitRun,
)
    requires
        0 <= run.checked,
        leave_step(context, active, run.current_cwd, keep, answers, run.checked + 1) == ToolStep::<
            Seq<char>,
        >::Done(out, answers.len() as int),
    ensures
        removed_by(run, keep) + 4 == answers.len(),
        !keep ==> answers[run.checked + 1] == ToolAnswer::Removed(BlockingView::Finished(Ok(()))),
        answers[removed_by(run, keep)] is Updated,
        answers[removed_by(run, keep)]->Updated_0 is Ok,
        answers[removed_by(run, keep) + 1] == ToolAnswer::CwdPersisted,
        answers[removed_by(run, keep) + 2] == ToolAnswer::ActiveCleared,
        answers[removed_by(run, keep) + 3] == ToolAnswer::Announced,
        out == exit_content(active, keep),
{
}

#[verifier::spinoff_prover]
proof fn lemma_leaving_is_quiet_before(
    context: ContextView,
    active: ActiveView,
    keep: bool,
    answers: Seq<ToolAnswer>,
    run: ExitRun,
    m: int,
)
    requires
        is_at_the_door(context, active, keep, answers, run),
        0 <= m <= run.checked,
    ensures
        is_quiet(leaving(context, keep), answers.take(m)),
        spares_worktrees(leaving(context, keep), answers.take(m)),
{
    reveal(leaving);
    reveal(is_at_the_door);
    let part = answers.take(m);
    if m > 0 {
        assert(part[0] == answers[0]);
        lemma_still_inside_settles_alike(active, run.current_cwd, part, answers, m, 1);
        match still_inside_step(active, run.current_cwd, part, 1) {
            Step::Ask(_) => {},
            Step::Failed(_, _) => {
                assert(false);
            },
            Step::Done(_, checked) => {
                assert(checked == run.checked && m == checked);
            },
        }
    }
}

#[verifier::spinoff_prover]
proof fn lemma_exit_requests(
    context: ContextView,
    active: ActiveView,
    keep: bool,
    answers: Seq<ToolAnswer>,
    run: ExitRun,
    m: int,
)
    requires
        is_at_the_door(context, active, keep, answers, run),
        run.checked < m <= answers.len(),
    ensures
        leaving(context, keep)(answers.take(m)) == leave_step(
            context,
            active,
            run.current_cwd,
            keep,
            answers.take(m),
            run.checked + 1,
        ),
{
    reveal(leaving);
    reveal(is_at_the_door);
    let part = answers.take(m);
    assert(part[0] == answers[0]);
    assert(part[run.checked] == answers[run.checked]);
    lemma_still_inside_settles_alike(active, run.current_cwd, answers, part, m, 1);
}

#[verifier::spinoff_prover]
proof fn lemma_return_requests(
    context: ContextView,
    active: ActiveView,
    keep: bool,
    answers: Seq<ToolAnswer>,
    run: ExitRun,
)
    requires
        is_at_the_door(context, active, keep, answers, run),
        removed_by(run, keep) + 4 == answers.len(),
        !keep ==> answers[run.checked + 1] == ToolAnswer::Removed(BlockingView::Finished(Ok(()))),
        answers[removed_by(run, keep)] is Updated,
        answers[removed_by(run, keep)]->Updated_0 is Ok,
        answers[removed_by(run, keep) + 1] == ToolAnswer::CwdPersisted,
        answers[removed_by(run, keep) + 2] == ToolAnswer::ActiveCleared,
    ensures
        !keep ==> leaving(context, keep)(answers.take(run.checked + 1)) == ToolStep::<
            Seq<char>,
        >::Ask(
            ToolAsk::RemoveManaged {
                repository_path: active.original_cwd,
                worktree_path: active.worktree_path,
            },
        ),
        leaving(context, keep)(answers.take(removed_by(run, keep))) == ToolStep::<Seq<char>>::Ask(
            ToolAsk::UpdateSettings(run.update),
        ),
        leaving(context, keep)(answers.take(removed_by(run, keep) + 1)) == ToolStep::<
            Seq<char>,
        >::Ask(ToolAsk::PersistCwd(active.original_cwd)),
        leaving(context, keep)(answers.take(removed_by(run, keep) + 2)) == ToolStep::<
            Seq<char>,
        >::Ask(ToolAsk::ClearActiveWorktree),
        leaving(context, keep)(answers.take(removed_by(run, keep) + 3)) == ToolStep::<
            Seq<char>,
        >::Ask(ToolAsk::AnnounceSettings),
{
    assert(1 <= run.checked && exit_update(context, active, run.current_cwd) == Ok::<
        UpdateView,
        CallErrorView,
    >(run.update) && fits_context(exit_content(active, keep))) by {
        reveal(is_at_the_door);
    }
    let r = removed_by(run, keep);
    lemma_exit_requests(context, active, keep, answers, run, run.checked + 1);
    lemma_exit_requests(context, active, keep, answers, run, r);
    lemma_exit_requests(context, active, keep, answers, run, r + 1);
    lemma_exit_requests(context, active, keep, answers, run, r + 2);
    lemma_exit_requests(context, active, keep, answers, run, r + 3);
}

/// The last requests of leaving, answered, take the session out of the worktree.
proof fn lemma_the_change_of_leaving(
    session: SessionView,
    tool: ToolRun,
    answers: Seq<ToolAnswer>,
    q: int,
    keep: bool,
    repository_path: Seq<char>,
    worktree_path: Seq<char>,
    r: int,
    update: UpdateView,
    cwd: Seq<char>,
)
    requires
        0 <= q,
        r == (if keep {
            q
        } else {
            q + 1
        }),
        r + 4 == answers.len(),
        forall|m: int| 0 <= m < q ==> is_quiet(tool, #[trigger] answers.take(m)),
        forall|m: int| 0 <= m < q ==> spares_worktrees(tool, #[trigger] answers.take(m)),
        !keep ==> tool(answers.take(q)) == ToolStep::<Seq<char>>::Ask(
            ToolAsk::RemoveManaged { repository_path, worktree_path },
        ),
        !keep ==> answers[q] == ToolAnswer::Removed(BlockingView::Finished(Ok(()))),
        tool(answers.take(r)) == ToolStep::<Seq<char>>::Ask(ToolAsk::UpdateSettings(update)),
        tool(answers.take(r + 1)) == ToolStep::<Seq<char>>::Ask(ToolAsk::PersistCwd(cwd)),
        tool(answers.take(r + 2)) == ToolStep::<Seq<char>>::Ask(ToolAsk::ClearActiveWorktree),
        tool(answers.take(r + 3)) == ToolStep::<Seq<char>>::Ask(ToolAsk::AnnounceSettings),
        answers[r] is Updated,
        answers[r]->Updated_0 is Ok,
        answers[r + 1] == ToolAnswer::CwdPersisted,
        answers[r + 2] == ToolAnswer::ActiveCleared,
    ensures
        after_run(session, tool, answers) == (SessionView {
            environments: reselected(session.environments, update.environments),
            active: None,
            persisted_cwd: Some(cwd),
            worktrees: if keep {
                session.worktrees
            } else {
                session.worktrees.remove(worktree_path)
            },
        }),
{
    lemma_quiet_run(session, tool, answers, q);
    if !keep {
        lemma_next(session, tool, answers, q);
    }
    lemma_next(session, tool, answers, r);
    lemma_next(session, tool, answers, r + 1);
    lemma_next(session, tool, answers, r + 2);
    lemma_next(session, tool, answers, r + 3);
    assert(answers.take(r + 4) =~= answers);
}

/// A run of leaving that succeeds ends with the session where it came from: the settings of before,
/// the original directory kept for it, no worktree remembered, and the worktree gone exactly if it
/// was not to be kept. The model is told just that.
pub proof fn lemma_leaving_changes_the_session(
    context: ContextView,
    active: ActiveView,
    keep: bool,
    answers: Seq<ToolAnswer>,
    out: Seq<char>,
    session: SessionView,
) -> (run: ExitRun)
    requires
        leaving(context, keep)(answers) == ToolStep::<Seq<char>>::Done(out, answers.len() as int),
        answers.len() > 0,
        answers[0] == ToolAnswer::Active(Some(active)),
    ensures
        local_primary("exit_worktree"@, context.environments) matches Ok(primary) && native_cwd(
            "exit_worktree"@,
            primary.selection.cwd,
        ) == Ok::<Seq<char>, CallErrorView>(run.current_cwd),
        exit_update(context, active, run.current_cwd) == Ok::<UpdateView, CallErrorView>(
            run.update,
        ),
        out == exit_content(active, keep),
        after_run(session, leaving(context, keep), answers) == (SessionView {
            environments: reselected(session.environments, run.update.environments),
            active: None,
            persisted_cwd: Some(active.original_cwd),
            worktrees: if keep {
                session.worktrees
            } else {
                session.worktrees.remove(active.worktree_path)
            },
        }),
{
    let run = lemma_parts_of_leaving(context, active, keep, answers, out);
    let tool = leaving(context, keep);
    lemma_parts_of_the_return(context, active, keep, answers, out, run);
    lemma_return_requests(context, active, keep, answers, run);
    assert forall|m: int| 0 <= m < run.checked + 1 implies is_quiet(
        tool,
        #[trigger] answers.take(m),
    ) && spares_worktrees(tool, answers.take(m)) by {
        lemma_leaving_is_quiet_before(context, active, keep, answers, run, m);
    }
    lemma_the_change_of_leaving(
        session,
        tool,
        answers,
        run.checked + 1,
        keep,
        active.original_cwd,
        active.worktree_path,
        removed_by(run, keep),
        run.update,
        active.original_cwd,
    );
    run
}

/// The answers to leaving a remembered worktree, where nothing is refused: the session is found to be
/// still in the worktree, and every request is carried out.
pub open spec fn lets_leave(
    active: ActiveView,
    current_cwd: Seq<char>,
    keep: bool,
    answers: Seq<ToolAnswer>,
    checked: int,
) -> bool {
    let changed = if keep {
        checked + 1
    } else {
        checked + 2
    };
    &&& answers.len() > 0
    &&& answers[0] == ToolAnswer::Active(Some(active))
    &&& still_inside_step(active, current_cwd, answers, 1) == ToolStep::<()>::Done((), checked)
    &&& 1 <= checked
    &&& changed + 4 == answers.len()
    &&& answers[checked] == ToolAnswer::Locked
    &&& !keep ==> answers[checked + 1] == ToolAnswer::Removed(BlockingView::Finished(Ok(())))
    &&& answers[changed] == ToolAnswer::Updated(Ok(()))
    &&& answers[changed + 1] == ToolAnswer::CwdPersisted
    &&& answers[changed + 2] == ToolAnswer::ActiveCleared
    &&& answers[changed + 3] == ToolAnswer::Announced
}

/// A worktree that a session has entered can be left: where nothing is refused, leaving succeeds,
/// unless the worktree was adopted and is not to be kept, or what the model is to be told is too
/// long.
#[verifier::spinoff_prover]
pub proof fn lemma_an_entered_worktree_can_be_left(
    context: ContextView,
    after: ContextView,
    original_cwd: Seq<char>,
    original_roots: Seq<Seq<char>>,
    entry: EntryView,
    keep: bool,
    answers: Seq<ToolAnswer>,
    checked: int,
)
    requires
        starting_point(context.environments) == Ok::<(Seq<char>, Seq<Seq<char>>), CallErrorView>(
            (original_cwd, original_roots),
        ),
        enter_update(context, original_cwd, original_roots, entry) matches Ok(update)
            && after.environments == reselected(context.environments, update.environments),
        lets_leave(
            entered_worktree(original_cwd, original_roots, entry),
            entry.worktree_cwd,
            keep,
            answers,
            checked,
        ),
        keep || !(entry.ownership is Adopted),
        fits_context(exit_content(entered_worktree(original_cwd, original_roots, entry), keep)),
    ensures
        leaving(after, keep)(answers) == ToolStep::<Seq<char>>::Done(
            exit_content(entered_worktree(original_cwd, original_roots, entry), keep),
            answers.len() as int,
        ),
{
    reveal(leaving);
    lemma_exit_undoes_enter(context, after, original_cwd, original_roots, entry);
    let update = enter_update(context, original_cwd, original_roots, entry)->Ok_0;
    assert(after.environments[0] == reselected(context.environments, update.environments)[0]);
    assert(local_primary("exit_worktree"@, after.environments) is Ok);
}

/// A session that enters a worktree and then leaves it, while it is still in the worktree, is as it
/// was: its environments are those that it began with, it remembers no worktree, and the directory
/// that is kept for it is the one it came from. The worktree is gone exactly if it was not to be
/// kept. The model is told of the original directory, of the worktree, and whether it was kept.
pub proof fn lemma_entering_and_leaving(
    context: ContextView,
    args: EnterArgsView,
    entering_answers: Seq<ToolAnswer>,
    entered_out: Seq<char>,
    session: SessionView,
    after: ContextView,
    keep: bool,
    leaving_answers: Seq<ToolAnswer>,
    left_out: Seq<char>,
) -> (run: EnterRun)
    requires
        session.environments == context.environments,
        entering(context, PayloadView::Function(Ok(args)))(entering_answers) == ToolStep::<
            Seq<char>,
        >::Done(entered_out, entering_answers.len() as int),
        after.environments == after_run(
            session,
            entering(context, PayloadView::Function(Ok(args))),
            entering_answers,
        ).environments,
        leaving(after, keep)(leaving_answers) == ToolStep::<Seq<char>>::Done(
            left_out,
            leaving_answers.len() as int,
        ),
        leaving_answers.len() > 0,
        leaving_answers[0] == ToolAnswer::Active(
            after_run(
                session,
                entering(context, PayloadView::Function(Ok(args))),
                entering_answers,
            ).active,
        ),
    ensures
        ({
            let entered = after_run(
                session,
                entering(context, PayloadView::Function(Ok(args))),
                entering_answers,
            );
            let left = after_run(entered, leaving(after, keep), leaving_answers);
            &&& has_entered(context, session, entered, entered_out, run)
            &&& left == (SessionView {
                environments: session.environments,
                active: None,
                persisted_cwd: Some(run.original_cwd),
                worktrees: if keep {
                    entered.worktrees
                } else {
                    entered.worktrees.remove(run.entry.worktree_path)
                },
            })
            &&& left_out == object_text(
                exit_members(
                    ExitOutputView {
                        entered: EnterOutputView {
                            cwd: run.original_cwd,
                            worktree_path: run.entry.worktree_path,
                            original_cwd: run.original_cwd,
                            branch: run.entry.branch,
                            name: run.entry.name,
                            created: None,
                        },
                        keep,
                        removed: !keep,
                    },
                ),
            )
        }),
{
    let tool = entering(context, PayloadView::Function(Ok(args)));
    let entered = after_run(session, tool, entering_answers);
    let run = lemma_entering_changes_the_session(
        context,
        args,
        entering_answers,
        entered_out,
        session,
    );
    let active = entered_worktree(run.original_cwd, run.original_roots, run.entry);
    let exit = lemma_leaving_changes_the_session(
        after,
        active,
        keep,
        leaving_answers,
        left_out,
        entered,
    );
    lemma_exit_undoes_enter(context, after, run.original_cwd, run.original_roots, run.entry);
    let update = enter_update(context, run.original_cwd, run.original_roots, run.entry)->Ok_0;
    assert(after.environments[0] == reselected(context.environments, update.environments)[0]);
    assert(exit.current_cwd == run.entry.worktree_cwd);
    assert(reselected(entered.environments, selections_of(context.environments))
        =~= context.environments);
    run
}

/// An answered request leaves the environments of a session, the worktree that it remembers and the
/// directory that is kept for it as they are.
spec fn spares_session(ask: ToolAsk, answer: ToolAnswer) -> bool {
    &&& !(ask is UpdateSettings && answer is Updated && answer->Updated_0 is Ok)
    &&& !(ask is PersistCwd && answer is CwdPersisted)
    &&& !(ask is SetActiveWorktree && answer is ActiveSet)
    &&& !(ask is ClearActiveWorktree && answer is ActiveCleared)
}

/// The request that a tool made before an answer, together with the answer, spares the session.
spec fn spares_at(tool: ToolRun, answers: Seq<ToolAnswer>, m: int) -> bool {
    tool(answers.take(m)) matches Step::Ask(ask) ==> spares_session(ask, answers[m])
}

/// The session is as it was, but perhaps for the worktrees that there are.
pub open spec fn is_unmoved(session: SessionView, after: SessionView) -> bool {
    &&& after.environments == session.environments
    &&& after.active == session.active
    &&& after.persisted_cwd == session.persisted_cwd
}

proof fn lemma_sparing_run(session: SessionView, tool: ToolRun, answers: Seq<ToolAnswer>, n: int)
    requires
        0 <= n <= answers.len(),
        forall|m: int| 0 <= m < n ==> #[trigger] spares_at(tool, answers, m),
    ensures
        is_unmoved(session, after_run(session, tool, answers.take(n))),
    decreases n,
{
    if n > 0 {
        lemma_sparing_run(session, tool, answers, n - 1);
        assert(spares_at(tool, answers, n - 1));
        lemma_next(session, tool, answers, n - 1);
    } else {
        assert(answers.take(0).len() == 0);
    }
}

#[verifier::spinoff_prover]
proof fn lemma_refused_change(
    context: ContextView,
    original_cwd: Seq<char>,
    original_roots: Seq<Seq<char>>,
    entry: EntryView,
    answers: Seq<ToolAnswer>,
    at: int,
    error: CallErrorView,
    m: int,
)
    requires
        0 <= at <= m < answers.len(),
        enter_prepared_step(context, original_cwd, original_roots, entry, answers, at)
            == ToolStep::<Seq<char>>::Failed(error, answers.len() as int),
    ensures
        enter_prepared_step(
            context,
            original_cwd,
            original_roots,
            entry,
            answers.take(m),
            at,
        ) matches Step::Ask(ask) ==> spares_session(ask, answers[m]),
{
    let part = answers.take(m);
    let n = answers.len() as int;
    lemma_recorded_settles_alike(context, original_cwd, entry, answers, answers, n, at);
    lemma_recorded_settles_alike(context, original_cwd, entry, part, answers, m, at);
}

#[verifier::spinoff_prover]
proof fn lemma_refused_entering(
    context: ContextView,
    payload: PayloadView<EnterArgsView>,
    answers: Seq<ToolAnswer>,
    error: CallErrorView,
    m: int,
)
    requires
        0 <= m < answers.len(),
        entering(context, payload)(answers) == ToolStep::<Seq<char>>::Failed(
            error,
            answers.len() as int,
        ),
    ensures
        spares_at(entering(context, payload), answers, m),
{
    reveal(entering);
    let part = answers.take(m);
    if let Ok((cwd, roots)) = starting_point(context.environments) {
        if m > 0 {
            assert(part[0] == answers[0]);
            lemma_active_settles_alike(cwd, context.thread_id, part, answers, m, 1);
            if let Step::Done(None, found) = active_step(cwd, context.thread_id, part, 1) {
                if let PayloadView::Function(Ok(args)) = payload {
                    lemma_entry_settles_alike(context, cwd, args, part, answers, m, found);
                    if let Step::Done(entry, chosen) = entry_step(
                        context,
                        cwd,
                        args,
                        part,
                        found,
                    ) {
                        lemma_entering_goes_on(
                            context,
                            args,
                            answers,
                            cwd,
                            roots,
                            found,
                            entry,
                            chosen,
                        );
                        lemma_entering_goes_on(
                            context,
                            args,
                            part,
                            cwd,
                            roots,
                            found,
                            entry,
                            chosen,
                        );
                        lemma_refused_change(
                            context,
                            cwd,
                            roots,
                            entry,
                            answers,
                            chosen,
                            error,
                            m,
                        );
                    }
                }
            }
        }
    }
}

/// A call to enter a worktree that fails leaves the session where it is, whatever the reason: its
/// environments, the worktree that it remembers and the directory that is kept for it stay.
pub proof fn lemma_failing_to_enter_changes_nothing(
    context: ContextView,
    payload: PayloadView<EnterArgsView>,
    answers: Seq<ToolAnswer>,
    error: CallErrorView,
    session: SessionView,
)
    requires
        entering(context, payload)(answers) == ToolStep::<Seq<char>>::Failed(
            error,
            answers.len() as int,
        ),
    ensures
        is_unmoved(session, after_run(session, entering(context, payload), answers)),
{
    let tool = entering(context, payload);
    assert forall|m: int| 0 <= m < answers.len() implies #[trigger] spares_at(
        tool,
        answers,
        m,
    ) by {
        lemma_refused_entering(context, payload, answers, error, m);
    }
    lemma_sparing_run(session, tool, answers, answers.len() as int);
    assert(answers.take(answers.len() as int) =~= answers);
}

/// The session remembers a worktree, and is found not to be in it any more.
pub open spec fn finds_stale(context: ContextView, answers: Seq<ToolAnswer>) -> bool {
    active_for_exit_step(
        "exit_worktree"@,
        context.environments,
        context.thread_id,
        answers,
        0,
    ) matches Step::Done((ActiveStateView::Session(active), current_cwd), found)
        && still_inside_step(active, current_cwd, answers, found) is Failed
}

/// Before its last answer, or in every case but that the session remembers a worktree which it is
/// not in, a failing call to leave spares the session.
spec fn spares_or_forgets(
    tool: ToolRun,
    answers: Seq<ToolAnswer>,
    stale: bool,
    m: int,
) -> bool {
    if stale && m == answers.len() - 1 {
        tool(answers.take(m)) == ToolStep::<Seq<char>>::Ask(ToolAsk::ClearActiveWorktree)
            && answers[m] == ToolAnswer::ActiveCleared
    } else {
        spares_at(tool, answers, m)
    }
}

#[verifier::spinoff_prover]
proof fn lemma_refused_return(
    context: ContextView,
    active: ActiveView,
    current_cwd: Seq<char>,
    keep: bool,
    answers: Seq<ToolAnswer>,
    at: int,
    error: CallErrorView,
    m: int,
)
    requires
        0 <= at <= m < answers.len(),
        leave_step(context, active, current_cwd, keep, answers, at) == ToolStep::<
            Seq<char>,
        >::Failed(error, answers.len() as int),
    ensures
        leave_step(context, active, current_cwd, keep, answers.take(m), at) matches Step::Ask(ask)
            ==> spares_session(ask, answers[m]),
{
    let part = answers.take(m);
    assert forall|i: int| 0 <= i < m implies #[trigger] part[i] == answers[i] by {}
}

/// What leaving a found worktree asks for, or gives back, after some answers.
spec fn found_run(
    context: ContextView,
    state: ActiveStateView,
    current_cwd: Seq<char>,
    keep: bool,
    found: int,
) -> ToolRun {
    |answers: Seq<ToolAnswer>|
        exit_found_step(context, state, current_cwd, keep, answers, found)
}

#[verifier::spinoff_prover]
proof fn lemma_refused_exit_found(
    context: ContextView,
    state: ActiveStateView,
    current_cwd: Seq<char>,
    keep: bool,
    answers: Seq<ToolAnswer>,
    found: int,
    error: CallErrorView,
    m: int,
)
    requires
        0 <= found <= m < answers.len(),
        exit_found_step(context, state, current_cwd, keep, answers, found) == ToolStep::<
            Seq<char>,
        >::Failed(error, answers.len() as int),
    ensures
        spares_or_forgets(
            found_run(context, state, current_cwd, keep, found),
            answers,
            state is Session && still_inside_step(active_of(state), current_cwd, answers, found)
                is Failed,
            m,
        ),
{
    let part = answers.take(m);
    let active = active_of(state);
    let n = answers.len() as int;
    lemma_still_inside_settles_alike(active, current_cwd, answers, answers, n, found);
    lemma_still_inside_settles_alike(active, current_cwd, answers, part, m, found);
    lemma_still_inside_settles_alike(active, current_cwd, part, answers, m, found);
    match still_inside_step(active, current_cwd, answers, found) {
        Step::Ask(_) => {},
        Step::Failed(_, used) => {},
        Step::Done(_, checked) => {
            if checked < m {
                assert(part[checked] == answers[checked]);
                lemma_refused_return(
                    context,
                    active,
                    current_cwd,
                    keep,
                    answers,
                    checked + 1,
                    error,
                    m,
                );
            }
        },
    }
}

#[verifier::spinoff_prover]
proof fn lemma_refused_leaving(
    context: ContextView,
    keep: bool,
    answers: Seq<ToolAnswer>,
    error: CallErrorView,
    m: int,
)
    requires
        0 <= m < answers.len(),
        leaving(context, keep)(answers) == ToolStep::<Seq<char>>::Failed(
            error,
            answers.len() as int,
        ),
    ensures
        spares_or_forgets(leaving(context, keep), answers, finds_stale(context, answers), m),
{
    reveal(leaving);
    let part = answers.take(m);
    let n = answers.len() as int;
    if let Ok(primary) = local_primary("exit_worktree"@, context.environments) {
        if let Ok(cwd) = native_cwd("exit_worktree"@, primary.selection.cwd) {
            lemma_active_settles_alike(cwd, context.thread_id, answers, answers, n, 0);
            lemma_active_settles_alike(cwd, context.thread_id, answers, part, m, 0);
            lemma_active_settles_alike(cwd, context.thread_id, part, answers, m, 0);
            if let Step::Done(Some(state), found) = active_step(
                cwd,
                context.thread_id,
                answers,
                0,
            ) {
                if found <= m {
                    lemma_refused_exit_found(
                        context,
                        state,
                        cwd,
                        keep,
                        answers,
                        found,
                        error,
                        m,
                    );
                }
            }
        }
    }
}

/// A call to leave a worktree that fails leaves the session where it is: its environments and the
/// directory that is kept for it stay. It forgets the worktree that it remembers exactly if it is
/// found not to be in that worktree any more.
pub proof fn lemma_failing_to_leave_moves_nothing(
    context: ContextView,
    keep: bool,
    answers: Seq<ToolAnswer>,
    error: CallErrorView,
    session: SessionView,
)
    requires
        leaving(context, keep)(answers) == ToolStep::<Seq<char>>::Failed(
            error,
            answers.len() as int,
        ),
    ensures
        ({
            let after = after_run(session, leaving(context, keep), answers);
            &&& after.environments == session.environments
            &&& after.persisted_cwd == session.persisted_cwd
            &&& after.active == if finds_stale(context, answers) {
                None
            } else {
                session.active
            }
        }),
{
    let tool = leaving(context, keep);
    let n = answers.len() as int;
    let stale = finds_stale(context, answers);
    assert forall|m: int| 0 <= m < n implies #[trigger] spares_or_forgets(
        tool,
        answers,
        stale,
        m,
    ) by {
        lemma_refused_leaving(context, keep, answers, error, m);
    }
    let quiet = if stale && n > 0 {
        n - 1
    } else {
        n
    };
    assert forall|m: int| 0 <= m < quiet implies #[trigger] spares_at(tool, answers, m) by {
        assert(spares_or_forgets(tool, answers, stale, m));
    }
    lemma_sparing_run(session, tool, answers, quiet);
    assert(answers.take(n) =~= answers);
    if stale {
        lemma_stale_was_answered(context, answers);
        assert(spares_or_forgets(tool, answers, stale, n - 1));
        lemma_next(session, tool, answers, n - 1);
    }
}

#[verifier::spinoff_prover]
proof fn lemma_stale_was_answered(context: ContextView, answers: Seq<ToolAnswer>)
    requires
        finds_stale(context, answers),
    ensures
        answers.len() > 0,
{
}

} // verus!
