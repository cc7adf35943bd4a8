//! What the worktree tools give back to the model.

use vstd::prelude::*;
use vstd::string::*;

use crate::bounds::{
    ensure_worktree_output_fits_context, fits_context, git_error, git_error_view, output_too_large,
    CallErrorView, FunctionCallError,
};
use crate::checks::{
    absolute_or_fatal, absolute_path, anticipated_step, anticipated_worktree_cwd,
    ensure_worktree_paths_writable, writable_step,
};
use crate::errors::GitErrorView;
use crate::encoding::json_quoted;
use crate::json::{
    lemma_an_object_reads_back, members_text, object_text, optional_flag, optional_flag_value,
    optional_text, optional_text_value, push_member, write_object, JsonValue, JsonView,
};
use crate::progress::{Progress, Step};
use crate::session::{ToolAnswer, ToolProgress, ToolReply, ToolStep};
use crate::text::{lemma_text_bytes_concat, lemma_text_bytes_range, list1, text_bytes};
use crate::worktree::{
    managed_path, managed_worktree_path, name_problem, InfoView, WorktreeInfo,
};

verus! {

/// What entering a worktree gives back.
pub struct WorktreeOutput {
    pub cwd: String,
    pub worktree_path: String,
    pub original_cwd: String,
    pub branch: Option<String>,
    pub name: Option<String>,
    pub created: Option<bool>,
}

/// What leaving a worktree gives back.
pub struct ExitWorktreeOutput {
    pub cwd: String,
    pub worktree_path: String,
    pub original_cwd: String,
    pub branch: Option<String>,
    pub name: Option<String>,
    pub created: Option<bool>,
    pub keep: bool,
    pub removed: bool,
}

/// What entering gives back, in specifications.
pub struct EnterOutputView {
    pub cwd: Seq<char>,
    pub worktree_path: Seq<char>,
    pub original_cwd: Seq<char>,
    pub branch: Option<Seq<char>>,
    pub name: Option<Seq<char>>,
    pub created: Option<bool>,
}

/// What leaving gives back, in specifications.
pub struct ExitOutputView {
    pub entered: EnterOutputView,
    pub keep: bool,
    pub removed: bool,
}

impl DeepView for WorktreeOutput {
    type V = EnterOutputView;

    open spec fn deep_view(&self) -> EnterOutputView {
        EnterOutputView {
            cwd: self.cwd@,
            worktree_path: self.worktree_path@,
            original_cwd: self.original_cwd@,
            branch: self.branch.deep_view(),
            name: self.name.deep_view(),
            created: self.created,
        }
    }
}

impl DeepView for ExitWorktreeOutput {
    type V = ExitOutputView;

    open spec fn deep_view(&self) -> ExitOutputView {
        ExitOutputView {
            entered: EnterOutputView {
                cwd: self.cwd@,
                worktree_path: self.worktree_path@,
                original_cwd: self.original_cwd@,
                branch: self.branch.deep_view(),
                name: self.name.deep_view(),
                created: self.created,
            },
            keep: self.keep,
            removed: self.removed,
        }
    }
}

/// The members of what entering gives back.
pub open spec fn enter_members(output: EnterOutputView) -> Seq<(Seq<char>, JsonView)> {
    seq![
        ("cwd"@, JsonView::Text(output.cwd)),
        ("worktree_path"@, JsonView::Text(output.worktree_path)),
        ("original_cwd"@, JsonView::Text(output.original_cwd)),
        ("branch"@, optional_text_value(output.branch)),
        ("name"@, optional_text_value(output.name)),
        ("created"@, optional_flag_value(output.created)),
    ]
}

/// The members of what leaving gives back.
pub open spec fn exit_members(output: ExitOutputView) -> Seq<(Seq<char>, JsonView)> {
    enter_members(output.entered) + seq![
        ("keep"@, JsonView::Bool(output.keep)),
        ("removed"@, JsonView::Bool(output.removed)),
    ]
}

fn shared_members(
    cwd: &str,
    worktree_path: &str,
    original_cwd: &str,
    branch: &Option<String>,
    name: &Option<String>,
    created: Option<bool>,
) -> (members: Vec<(String, JsonValue)>)
    ensures
        members.deep_view() == enter_members(
            EnterOutputView {
                cwd: cwd@,
                worktree_path: worktree_path@,
                original_cwd: original_cwd@,
                branch: branch.deep_view(),
                name: name.deep_view(),
                created,
            },
        ),
{
    let mut members: Vec<(String, JsonValue)> = Vec::new();
    assert(members.deep_view() =~= Seq::<(Seq<char>, JsonView)>::empty());
    push_member(&mut members, "cwd", JsonValue::Text(cwd.to_owned()));
    push_member(&mut members, "worktree_path", JsonValue::Text(worktree_path.to_owned()));
    push_member(&mut members, "original_cwd", JsonValue::Text(original_cwd.to_owned()));
    push_member(&mut members, "branch", optional_text(branch));
    push_member(&mut members, "name", optional_text(name));
    push_member(&mut members, "created", optional_flag(created));
    members
}

impl WorktreeOutput {
    /// The output as JSON.
    pub fn to_json(&self) -> (content: String)
        ensures
            content@ == object_text(enter_members(self.deep_view())),
    {
        let members: Vec<(String, JsonValue)> = shared_members(
            self.cwd.as_str(),
            self.worktree_path.as_str(),
            self.original_cwd.as_str(),
            &self.branch,
            &self.name,
            self.created,
        );
        write_object(&members)
    }
}

impl ExitWorktreeOutput {
    /// The output as JSON.
    pub fn to_json(&self) -> (content: String)
        ensures
            content@ == object_text(exit_members(self.deep_view())),
    {
        let mut members: Vec<(String, JsonValue)> = shared_members(
            self.cwd.as_str(),
            self.worktree_path.as_str(),
            self.original_cwd.as_str(),
            &self.branch,
            &self.name,
            self.created,
        );
        push_member(&mut members, "keep", JsonValue::Bool(self.keep));
        push_member(&mut members, "removed", JsonValue::Bool(self.removed));
        assert(members.deep_view() =~= exit_members(self.deep_view()));
        write_object(&members)
    }
}

/// An output that may be given back: it has to fit.
pub open spec fn output_result(content: Seq<char>) -> Result<Seq<char>, CallErrorView> {
    if fits_context(content) {
        Ok(content)
    } else {
        Err(output_too_large())
    }
}

/// Gives back the output `content`, where it fits.
pub fn output(content: String) -> (given: Result<String, FunctionCallError>)
    ensures
        crate::session::result_view(given) == output_result(content@),
{
    match ensure_worktree_output_fits_context(content.as_str()) {
        Ok(_) => Ok(content),
        Err(error) => Err(error),
    }
}

/// What entering a new managed worktree would give back. A new managed worktree uses its name as
/// its branch; that it was not created is assumed because it takes more bytes.
pub open spec fn anticipated_output(
    cwd: Seq<char>,
    worktree_path: Seq<char>,
    original_cwd: Seq<char>,
    name: Seq<char>,
) -> EnterOutputView {
    EnterOutputView {
        cwd,
        worktree_path,
        original_cwd,
        branch: Some(name),
        name: Some(name),
        created: Some(false),
    }
}

/// What checking comes to, before a managed worktree is created, that its output will fit.
pub open spec fn preflight_step(
    original_info: InfoView,
    original_cwd: Seq<char>,
    name: Seq<char>,
    answers: Seq<ToolAnswer>,
    at: int,
) -> ToolStep<()> {
    match name_problem(name) {
        Some(reason) => Step::Failed(
            git_error_view(GitErrorView::InvalidWorktreeName { name, reason }),
            at,
        ),
        None => match absolute_or_fatal(
            managed_path(original_info.common_dir, name),
            "managed worktree path"@,
        ) {
            Err(error) => Step::Failed(error, at),
            Ok(worktree_path) => match anticipated_step(
                original_info.repo_root,
                original_cwd,
                worktree_path,
                answers,
                at,
            ) {
                Step::Ask(ask) => Step::Ask(ask),
                Step::Failed(error, used) => Step::Failed(error, used),
                Step::Done(worktree_cwd, used) => if fits_context(
                    object_text(
                        enter_members(
                            anticipated_output(worktree_cwd, worktree_path, original_cwd, name),
                        ),
                    ),
                ) {
                    Step::Done((), used)
                } else {
                    Step::Failed(output_too_large(), used)
                },
            },
        },
    }
}

/// Checks, before the managed worktree `name` is created, that the output about it will fit.
pub fn preflight_managed_worktree_output(
    original_info: &WorktreeInfo,
    original_cwd: &str,
    name: &str,
    replies: &Vec<ToolReply>,
    at: usize,
) -> (progress: ToolProgress<()>)
    ensures
        progress.deep_view() == preflight_step(
            original_info.deep_view(),
            original_cwd@,
            name@,
            replies.deep_view(),
            at as int,
        ),
{
    let managed: String = match managed_worktree_path(original_info.common_dir.as_str(), name) {
        Ok(path) => path,
        Err(error) => return Progress::Failed(git_error(&error), at),
    };
    let worktree_path: String = match absolute_path(managed.as_str(), "managed worktree path") {
        Ok(path) => path,
        Err(error) => return Progress::Failed(error, at),
    };
    let (worktree_cwd, at): (String, usize) = match anticipated_worktree_cwd(
        original_info.repo_root.as_str(),
        original_cwd,
        worktree_path.as_str(),
        replies,
        at,
    ) {
        Progress::Ask(ask) => return Progress::Ask(ask),
        Progress::Failed(error, used) => return Progress::Failed(error, used),
        Progress::Done(cwd, used) => (cwd, used),
    };
    let output: WorktreeOutput = WorktreeOutput {
        cwd: worktree_cwd,
        worktree_path,
        original_cwd: original_cwd.to_owned(),
        branch: Some(name.to_owned()),
        name: Some(name.to_owned()),
        created: Some(false),
    };
    match ensure_worktree_output_fits_context(output.to_json().as_str()) {
        Ok(_) => Progress::Done((), at),
        Err(error) => Progress::Failed(error, at),
    }
}

/// What checking comes to that a session may create a managed worktree. A new worktree changes the
/// common directory of the repository, which may lie outside of the current checkout; that is
/// taken as bookkeeping of git, so only the current directory has to be writable.
pub open spec fn writes_allowed_step(
    tool_name: Seq<char>,
    full_disk_write: bool,
    cwd: Seq<char>,
    name: Seq<char>,
    answers: Seq<ToolAnswer>,
    at: int,
) -> ToolStep<()> {
    match name_problem(name) {
        Some(reason) => Step::Failed(
            git_error_view(GitErrorView::InvalidWorktreeName { name, reason }),
            at,
        ),
        None => writable_step(tool_name, full_disk_write, cwd, seq![cwd], answers, at),
    }
}

/// Fails where the session may not create the managed worktree `name`.
pub fn ensure_managed_worktree_writes_allowed(
    tool_name: &str,
    full_disk_write: bool,
    cwd: &str,
    original_info: &WorktreeInfo,
    name: &str,
    replies: &Vec<ToolReply>,
    at: usize,
) -> (progress: ToolProgress<()>)
    ensures
        progress.deep_view() == writes_allowed_step(
            tool_name@,
            full_disk_write,
            cwd@,
            name@,
            replies.deep_view(),
            at as int,
        ),
{
    match managed_worktree_path(original_info.common_dir.as_str(), name) {
        Ok(_) => {},
        Err(error) => return Progress::Failed(git_error(&error), at),
    }
    ensure_worktree_paths_writable(tool_name, full_disk_write, cwd, &list1(cwd), replies, at)
}

/// The check before a managed worktree is created is conservative: where the anticipated output
/// fits, the one about a worktree that was created fits too.
pub proof fn lemma_preflight_is_conservative(
    cwd: Seq<char>,
    worktree_path: Seq<char>,
    original_cwd: Seq<char>,
    name: Seq<char>,
)
    requires
        fits_context(
            object_text(
                enter_members(anticipated_output(cwd, worktree_path, original_cwd, name)),
            ),
        ),
    ensures
        fits_context(
            object_text(
                enter_members(
                    EnterOutputView {
                        created: Some(true),
                        ..anticipated_output(cwd, worktree_path, original_cwd, name)
                    },
                ),
            ),
        ),
{
    let reused = enter_members(anticipated_output(cwd, worktree_path, original_cwd, name));
    let created = enter_members(
        EnterOutputView {
            created: Some(true),
            ..anticipated_output(cwd, worktree_path, original_cwd, name)
        },
    );
    assert(reused.drop_last() =~= created.drop_last());
    let before = members_text(reused.drop_last()) + ","@;
    let key = json_quoted("created"@) + ":"@;
    let close = "}"@;
    let open = "{"@;
    assert(members_text(reused) =~= before + (key + "false"@));
    assert(members_text(created) =~= before + (key + "true"@));
    lemma_text_bytes_concat(before, key + "false"@);
    lemma_text_bytes_concat(before, key + "true"@);
    lemma_text_bytes_concat(key, "false"@);
    lemma_text_bytes_concat(key, "true"@);
    lemma_text_bytes_concat(open, members_text(reused));
    lemma_text_bytes_concat(open, members_text(created));
    lemma_text_bytes_concat(open + members_text(reused), close);
    lemma_text_bytes_concat(open + members_text(created), close);
    reveal_strlit("true");
    reveal_strlit("false");
    let four = seq!['t', 'r', 'u', 'e'];
    let five = seq!['f', 'a', 'l', 's', 'e'];
    assert("true"@ =~= four);
    assert("false"@ =~= five);
    assert(text_bytes(four) <= text_bytes(five)) by {
        reveal_with_fuel(vstd::utf8::encode_utf8, 6);
        lemma_text_bytes_range(five);
        assert(text_bytes(four) == 4);
    }
}

/// Before a worktree is created its result is taken to name the worktree as its branch and not to
/// be new.
pub proof fn lemma_the_result_is_anticipated(
    cwd: Seq<char>,
    worktree_path: Seq<char>,
    original_cwd: Seq<char>,
    name: Seq<char>,
)
    ensures
        object_text(enter_members(anticipated_output(cwd, worktree_path, original_cwd, name)))
            == object_text(
            seq![
                ("cwd"@, JsonView::Text(cwd)),
                ("worktree_path"@, JsonView::Text(worktree_path)),
                ("original_cwd"@, JsonView::Text(original_cwd)),
                ("branch"@, JsonView::Text(name)),
                ("name"@, JsonView::Text(name)),
                ("created"@, JsonView::Bool(false)),
            ],
        ),
{
    assert(enter_members(anticipated_output(cwd, worktree_path, original_cwd, name)) =~= seq![
        ("cwd"@, JsonView::Text(cwd)),
        ("worktree_path"@, JsonView::Text(worktree_path)),
        ("original_cwd"@, JsonView::Text(original_cwd)),
        ("branch"@, JsonView::Text(name)),
        ("name"@, JsonView::Text(name)),
        ("created"@, JsonView::Bool(false)),
    ]);
}

/// A result is handed out exactly where it has at most 512 bytes.
pub proof fn lemma_short_results_are_handed_out(content: Seq<char>)
    ensures
        text_bytes(content) <= 512 ==> output_result(content) == Ok::<
            Seq<char>,
            CallErrorView,
        >(content),
        text_bytes(content) > 512 ==> output_result(content) == Err::<
            Seq<char>,
            CallErrorView,
        >(output_too_large()),
{
}

/// Whatever is told of a worktree can be read from the result: two results are the same only if
/// everything in them is.
pub proof fn lemma_results_read_back(a: ExitOutputView, b: ExitOutputView)
    ensures
        object_text(enter_members(a.entered)) == object_text(enter_members(b.entered)) ==> a.entered
            == b.entered,
        object_text(exit_members(a)) == object_text(exit_members(b)) ==> a == b,
{
    if object_text(enter_members(a.entered)) == object_text(enter_members(b.entered)) {
        lemma_an_object_reads_back(enter_members(a.entered), enter_members(b.entered));
        lemma_entered_reads_back(a.entered, b.entered, enter_members(a.entered));
    }
    if object_text(exit_members(a)) == object_text(exit_members(b)) {
        let members = exit_members(a);
        lemma_an_object_reads_back(members, exit_members(b));
        assert(members.take(6) =~= enter_members(a.entered));
        assert(exit_members(b).take(6) =~= enter_members(b.entered));
        lemma_entered_reads_back(a.entered, b.entered, members.take(6));
        assert(members[6] == exit_members(b)[6] && members[7] == exit_members(b)[7]);
        assert(members[6].1 == JsonView::Bool(a.keep) && members[7].1 == JsonView::Bool(a.removed));
        assert(exit_members(b)[6].1 == JsonView::Bool(b.keep) && exit_members(b)[7].1
            == JsonView::Bool(b.removed));
    }
}

proof fn lemma_entered_reads_back(
    a: EnterOutputView,
    b: EnterOutputView,
    members: Seq<(Seq<char>, JsonView)>,
)
    requires
        members == enter_members(a),
        members == enter_members(b),
    ensures
        a == b,
{
    assert(enter_members(a)[0] == enter_members(b)[0]);
    assert(enter_members(a)[1] == enter_members(b)[1]);
    assert(enter_members(a)[2] == enter_members(b)[2]);
    assert(enter_members(a)[3] == enter_members(b)[3]);
    assert(enter_members(a)[4] == enter_members(b)[4]);
    assert(enter_members(a)[5] == enter_members(b)[5]);
}

} // verus!
