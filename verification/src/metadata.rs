//! What is kept on disk beside a managed worktree.

use vstd::prelude::*;
use vstd::string::*;

use crate::json::{
    lemma_an_object_reads_back, object_text, optional_text, optional_text_value, push_member,
    write_object, JsonValue, JsonView,
};
use crate::paths::{
    is_component_name, is_same_path, join_path, joined_path, lemma_parts_of_child, path_parts, Part,
};
use crate::text::concat3;
use crate::worktree::{
    lemma_valid_name_is_component, managed_dir, managed_worktrees_dir, name_problem,
};

verus! {

/// Where a session came from when it created a managed worktree, and which session that was.
pub struct WorktreeMetadata {
    pub original_cwd: String,
    pub owner_thread_id: Option<String>,
}

/// The kept data, in specifications.
pub struct MetadataView {
    pub original_cwd: Seq<char>,
    pub owner_thread_id: Option<Seq<char>>,
}

impl DeepView for WorktreeMetadata {
    type V = MetadataView;

    open spec fn deep_view(&self) -> MetadataView {
        MetadataView {
            original_cwd: self.original_cwd@,
            owner_thread_id: self.owner_thread_id.deep_view(),
        }
    }
}

impl WorktreeMetadata {
    /// The kept data again.
    pub fn copy(&self) -> (copy: WorktreeMetadata)
        ensures
            copy.deep_view() == self.deep_view(),
    {
        WorktreeMetadata {
            original_cwd: self.original_cwd.clone(),
            owner_thread_id: self.owner_thread_id.clone(),
        }
    }
}

/// The file that keeps the data of a managed worktree: it stands beside the worktree.
pub open spec fn metadata_path(common_dir: Seq<char>, name: Seq<char>) -> Seq<char> {
    joined_path(managed_dir(common_dir), name + "."@ + "codex.json"@)
}

/// The path of the file that keeps the data of the managed worktree `name`.
pub fn worktree_metadata_path(common_dir: &str, name: &str) -> (path: String)
    ensures
        path@ == metadata_path(common_dir@, name@),
{
    let file_name: String = concat3(name, ".", "codex.json");
    join_path(managed_worktrees_dir(common_dir).as_str(), file_name.as_str())
}

/// The members under which the data is kept.
pub open spec fn metadata_members(metadata: MetadataView) -> Seq<(Seq<char>, JsonView)> {
    seq![
        ("original_cwd"@, JsonView::Text(metadata.original_cwd)),
        ("owner_thread_id"@, optional_text_value(metadata.owner_thread_id)),
    ]
}

/// What the file holds.
pub open spec fn metadata_text(metadata: MetadataView) -> Seq<char> {
    object_text(metadata_members(metadata))
}

/// What the file for `metadata` holds.
pub fn metadata_content(metadata: &WorktreeMetadata) -> (content: String)
    ensures
        content@ == metadata_text(metadata.deep_view()),
{
    let mut members: Vec<(String, JsonValue)> = Vec::new();
    assert(members.deep_view() =~= Seq::<(Seq<char>, JsonView)>::empty());
    push_member(&mut members, "original_cwd", JsonValue::Text(metadata.original_cwd.clone()));
    push_member(&mut members, "owner_thread_id", optional_text(&metadata.owner_thread_id));
    assert(members.deep_view() =~= metadata_members(metadata.deep_view()));
    write_object(&members)
}

/// Nothing of the data is lost in the file: what it holds stands for one origin and one owner.
pub proof fn lemma_metadata_reads_back(a: MetadataView, b: MetadataView)
    requires
        metadata_text(a) == metadata_text(b),
    ensures
        a == b,
{
    lemma_an_object_reads_back(metadata_members(a), metadata_members(b));
    assert(metadata_members(a)[0] == metadata_members(b)[0]);
    assert(metadata_members(a)[1] == metadata_members(b)[1]);
}

/// The data beside a managed worktree is in a file next to it, in the directory of the managed
/// worktrees, that has the name of the worktree and an ending of its own. So two worktrees of one
/// repository have two files.
pub proof fn lemma_the_data_is_beside_the_worktree(
    common_dir: Seq<char>,
    name: Seq<char>,
    other: Seq<char>,
)
    requires
        name_problem(name) is None,
        name_problem(other) is None,
    ensures
        path_parts(metadata_path(common_dir, name)) == path_parts(managed_dir(common_dir)).push(
            Part::Normal(
                name + seq!['.', 'c', 'o', 'd', 'e', 'x', '.', 'j', 's', 'o', 'n'],
            ),
        ),
        is_same_path(metadata_path(common_dir, name), metadata_path(common_dir, other)) ==> name
            == other,
{
    let ending = seq!['.', 'c', 'o', 'd', 'e', 'x', '.', 'j', 's', 'o', 'n'];
    reveal_strlit(".");
    reveal_strlit("codex.json");
    assert("."@ + "codex.json"@ =~= ending);
    assert(name + "."@ + "codex.json"@ =~= name + ending);
    assert(other + "."@ + "codex.json"@ =~= other + ending);
    lemma_file_names(name, ending);
    lemma_file_names(other, ending);
    lemma_parts_of_child(managed_dir(common_dir), name + ending);
    lemma_parts_of_child(managed_dir(common_dir), other + ending);
    if is_same_path(metadata_path(common_dir, name), metadata_path(common_dir, other)) {
        let file = path_parts(metadata_path(common_dir, name)).last();
        assert(file == Part::Normal(name + ending));
        assert(file == Part::Normal(other + ending));
        assert(name =~= (name + ending).take(name.len() as int));
        assert(other =~= (other + ending).take(name.len() as int));
    }
}

proof fn lemma_file_names(name: Seq<char>, ending: Seq<char>)
    requires
        name_problem(name) is None,
        ending == seq!['.', 'c', 'o', 'd', 'e', 'x', '.', 'j', 's', 'o', 'n'],
    ensures
        is_component_name(name + ending),
{
    lemma_valid_name_is_component(name);
    let file = name + ending;
    assert forall|i: int| 0 <= i < file.len() implies file[i] != '/' by {
        if i < name.len() {
            assert(name.contains(name[i]));
        }
    }
    assert(file.len() > 2);
}

} // verus!
