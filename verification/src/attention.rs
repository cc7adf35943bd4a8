//! User-attention lifecycles that clients start and complete.

use vstd::prelude::*;
use vstd::string::*;

use crate::rpc::{invalid_request, invalid_request_view, JSONRPCErrorError, RpcErrorView};
use crate::text::{concat2, same_text};

verus! {

/// How many lifecycles one connection may have at a time.
pub const MAX_ACTIVE_USER_ATTENTION_PER_CONNECTION: usize = 32;

/// What the attention of the user is wanted for.
#[derive(Debug, Clone, Copy, PartialEq, Eq)]
pub enum UserAttentionKind {
    /// A post-plan decision asking whether Codex should implement the completed plan.
    PlanImplementation,
}

/// Starts one client-owned synchronous user-attention lifecycle.
#[derive(Debug, PartialEq, Eq)]
pub struct ThreadUserAttentionStartParams {
    /// Thread that owns the completed turn and attention lifecycle.
    pub thread_id: String,
    /// Latest completed turn whose hook context should be used.
    pub turn_id: String,
    /// Opaque client-generated correlation ID.
    pub attention_id: String,
    pub kind: UserAttentionKind,
}

/// The answer to a request that started a lifecycle.
#[derive(Debug, Clone, Copy, PartialEq, Eq)]
pub struct ThreadUserAttentionStartResponse {}

/// Completes one previously started user-attention lifecycle.
#[derive(Debug, PartialEq, Eq)]
pub struct ThreadUserAttentionCompleteParams {
    pub thread_id: String,
    /// Opaque correlation ID supplied to the matching start request.
    pub attention_id: String,
}

/// The answer to a request that completed a lifecycle.
#[derive(Debug, Clone, Copy, PartialEq, Eq)]
pub struct ThreadUserAttentionCompleteResponse {}

/// What a lifecycle is found by.
pub struct UserAttentionKey {
    pub connection_id: u64,
    pub thread_id: String,
    pub attention_id: String,
}

/// What a lifecycle is found by, in specifications.
pub struct KeyView {
    pub connection_id: u64,
    pub thread_id: Seq<char>,
    pub attention_id: Seq<char>,
}

impl DeepView for UserAttentionKey {
    type V = KeyView;

    open spec fn deep_view(&self) -> KeyView {
        KeyView {
            connection_id: self.connection_id,
            thread_id: self.thread_id@,
            attention_id: self.attention_id@,
        }
    }
}

impl UserAttentionKey {
    /// The key again.
    pub fn copy(&self) -> (copy: UserAttentionKey)
        ensures
            copy.deep_view() == self.deep_view(),
    {
        UserAttentionKey {
            connection_id: self.connection_id,
            thread_id: self.thread_id.clone(),
            attention_id: self.attention_id.clone(),
        }
    }

    fn same(&self, other: &UserAttentionKey) -> (same: bool)
        ensures
            same == (self.deep_view() == other.deep_view()),
    {
        self.connection_id == other.connection_id && same_text(
            self.thread_id.as_str(),
            other.thread_id.as_str(),
        ) && same_text(self.attention_id.as_str(), other.attention_id.as_str())
    }
}

/// The active lifecycles. A key without a lifecycle is reserved for one that is being started.
pub struct UserAttentionManager<L> {
    lifecycles: Vec<(UserAttentionKey, Option<L>)>,
}

/// The place of the key among the entries.
pub open spec fn is_at<L>(entries: Seq<(KeyView, Option<L>)>, key: KeyView, i: int) -> bool {
    0 <= i < entries.len() && entries[i].0 == key
}

/// The key is among the entries.
pub open spec fn has_key<L>(entries: Seq<(KeyView, Option<L>)>, key: KeyView) -> bool {
    exists|i: int| is_at(entries, key, i)
}

/// Whether an entry is one of those that are asked for.
pub enum Selection {
    Key(KeyView),
    Connection(u64),
    Thread(Seq<char>),
}

/// The key is one of those that are asked for.
pub open spec fn is_selected(selection: Selection, key: KeyView) -> bool {
    match selection {
        Selection::Key(wanted) => key == wanted,
        Selection::Connection(connection_id) => key.connection_id == connection_id,
        Selection::Thread(thread_id) => key.thread_id == thread_id,
    }
}

/// The entries of a connection, where one is given, and otherwise those of a thread.
pub open spec fn selection_for(connection_id: Option<u64>, thread_id: Seq<char>) -> Selection {
    match connection_id {
        Some(connection_id) => Selection::Connection(connection_id),
        None => Selection::Thread(thread_id),
    }
}

/// The entries that are left when the selected ones are taken out, in their order.
pub open spec fn without<L>(
    entries: Seq<(KeyView, Option<L>)>,
    selection: Selection,
) -> Seq<(KeyView, Option<L>)>
    decreases entries.len(),
{
    if entries.len() == 0 {
        Seq::empty()
    } else if is_selected(selection, entries.last().0) {
        without(entries.drop_last(), selection)
    } else {
        without(entries.drop_last(), selection).push(entries.last())
    }
}

/// The lifecycles of the selected entries, in their order.
pub open spec fn lifecycles_of<L>(
    entries: Seq<(KeyView, Option<L>)>,
    selection: Selection,
) -> Seq<L>
    decreases entries.len(),
{
    if entries.len() == 0 {
        Seq::empty()
    } else {
        let before = lifecycles_of(entries.drop_last(), selection);
        match entries.last().1 {
            Some(lifecycle) => if is_selected(selection, entries.last().0) {
                before.push(lifecycle)
            } else {
                before
            },
            None => before,
        }
    }
}

/// How many entries a connection has.
pub open spec fn count_for<L>(entries: Seq<(KeyView, Option<L>)>, connection_id: u64) -> nat
    decreases entries.len(),
{
    if entries.len() == 0 {
        0
    } else {
        count_for(entries.drop_last(), connection_id) + (if entries.last().0.connection_id
            == connection_id {
            1nat
        } else {
            0nat
        })
    }
}

/// No key is there twice, and no connection has more entries than it may have.
pub open spec fn is_registry<L>(entries: Seq<(KeyView, Option<L>)>) -> bool {
    &&& forall|i: int, j: int|
        0 <= i < j < entries.len() ==> (#[trigger] entries[i]).0 != (#[trigger] entries[j]).0
    &&& forall|connection_id: u64|
        #[trigger] count_for(entries, connection_id) <= MAX_ACTIVE_USER_ATTENTION_PER_CONNECTION
}

/// The entries with a lifecycle put into the place that was reserved for it.
pub open spec fn committed<L>(
    entries: Seq<(KeyView, Option<L>)>,
    key: KeyView,
    lifecycle: L,
) -> Seq<(KeyView, Option<L>)> {
    entries.map_values(
        |entry: (KeyView, Option<L>)|
            if entry.0 == key {
                (entry.0, Some(lifecycle))
            } else {
                entry
            },
    )
}

/// Whether a key may be reserved: it must be free, and its connection must have room.
pub open spec fn reservation<L>(entries: Seq<(KeyView, Option<L>)>, key: KeyView) -> Result<
    Seq<(KeyView, Option<L>)>,
    RpcErrorView,
> {
    if has_key(entries, key) {
        Err(invalid_request_view("attentionId is already active"@))
    } else if count_for(entries, key.connection_id) >= MAX_ACTIVE_USER_ATTENTION_PER_CONNECTION {
        Err(invalid_request_view("too many active user-attention lifecycles"@))
    } else {
        Ok(entries.push((key, None)))
    }
}

proof fn lemma_without_drops<L>(entries: Seq<(KeyView, Option<L>)>, selection: Selection)
    ensures
        forall|i: int|
            0 <= i < without(entries, selection).len() ==> {
                &&& !is_selected(selection, (#[trigger] without(entries, selection)[i]).0)
                &&& entries.contains(without(entries, selection)[i])
            },
        forall|i: int|
            0 <= i < entries.len() && !is_selected(selection, (#[trigger] entries[i]).0)
                ==> without(entries, selection).contains(entries[i]),
    decreases entries.len(),
{
    if entries.len() > 0 {
        let fewer = entries.drop_last();
        lemma_without_drops(fewer, selection);
        let left = without(entries, selection);
        let before = without(fewer, selection);
        assert forall|i: int| 0 <= i < left.len() implies {
            &&& !is_selected(selection, (#[trigger] left[i]).0)
            &&& entries.contains(left[i])
        } by {
            if i < before.len() {
                assert(left[i] == before[i]);
                let k = choose|k: int| 0 <= k < fewer.len() && fewer[k] == before[i];
                assert(entries[k] == left[i]);
            } else {
                assert(entries[entries.len() - 1] == left[i]);
            }
        }
        assert forall|i: int|
            0 <= i < entries.len() && !is_selected(
                selection,
                (#[trigger] entries[i]).0,
            ) implies left.contains(entries[i]) by {
            if i < fewer.len() {
                assert(fewer[i] == entries[i]);
                assert(before.contains(fewer[i]));
                let k = choose|k: int| 0 <= k < before.len() && before[k] == fewer[i];
                assert(left[k] == entries[i]);
            } else {
                assert(left[before.len() as int] == entries[i]);
            }
        }
    }
}

proof fn lemma_without_is_registry<L>(entries: Seq<(KeyView, Option<L>)>, selection: Selection)
    requires
        forall|i: int, j: int|
            0 <= i < j < entries.len() ==> (#[trigger] entries[i]).0 != (#[trigger] entries[j]).0,
    ensures
        forall|i: int, j: int|
            0 <= i < j < without(entries, selection).len() ==> (#[trigger] without(
                entries,
                selection,
            )[i]).0 != (#[trigger] without(entries, selection)[j]).0,
        forall|connection_id: u64|
            #[trigger] count_for(without(entries, selection), connection_id) <= count_for(
                entries,
                connection_id,
            ),
    decreases entries.len(),
{
    if entries.len() > 0 {
        let fewer = entries.drop_last();
        assert forall|i: int, j: int| 0 <= i < j < fewer.len() implies (#[trigger] fewer[i]).0 != (
        #[trigger] fewer[j]).0 by {
            assert(entries[i].0 != entries[j].0);
        }
        lemma_without_is_registry(fewer, selection);
        lemma_without_drops(fewer, selection);
        let left = without(entries, selection);
        let before = without(fewer, selection);
        assert forall|i: int, j: int| 0 <= i < j < left.len() implies (#[trigger] left[i]).0 != (
        #[trigger] left[j]).0 by {
            assert(left[i] == before[i]);
            if j < before.len() {
                assert(left[j] == before[j]);
            } else {
                let k = choose|k: int| 0 <= k < fewer.len() && fewer[k] == before[i];
                assert(entries[k].0 != entries[entries.len() - 1].0);
            }
        }
        assert forall|connection_id: u64| #[trigger]
            count_for(left, connection_id) <= count_for(entries, connection_id) by {
            assert(count_for(before, connection_id) <= count_for(fewer, connection_id));
            if !is_selected(selection, entries.last().0) {
                assert(left.drop_last() =~= before);
            }
        }
    }
}

proof fn lemma_count_of_committed<L>(
    entries: Seq<(KeyView, Option<L>)>,
    key: KeyView,
    lifecycle: L,
    connection_id: u64,
)
    ensures
        count_for(committed(entries, key, lifecycle), connection_id) == count_for(
            entries,
            connection_id,
        ),
    decreases entries.len(),
{
    if entries.len() > 0 {
        lemma_count_of_committed(entries.drop_last(), key, lifecycle, connection_id);
        assert(committed(entries, key, lifecycle).drop_last() =~= committed(
            entries.drop_last(),
            key,
            lifecycle,
        ));
    }
}

impl<L> UserAttentionManager<L> {
    /// The entries, in the order in which they were reserved.
    pub closed spec fn entries(&self) -> Seq<(KeyView, Option<L>)> {
        self.lifecycles@.map_values(
            |entry: (UserAttentionKey, Option<L>)| (entry.0.deep_view(), entry.1),
        )
    }

    /// No key is there twice, and no connection has more lifecycles than it may have.
    pub open spec fn well_formed(&self) -> bool {
        is_registry(self.entries())
    }

    /// A manager without lifecycles.
    pub fn new() -> (manager: Self)
        ensures
            manager.well_formed(),
            manager.entries() == Seq::<(KeyView, Option<L>)>::empty(),
    {
        let manager: UserAttentionManager<L> = UserAttentionManager { lifecycles: Vec::new() };
        assert(manager.entries() =~= Seq::<(KeyView, Option<L>)>::empty());
        manager
    }

    fn find(&self, key: &UserAttentionKey) -> (place: Option<usize>)
        ensures
            match place {
                Some(i) => is_at(self.entries(), key.deep_view(), i as int),
                None => !has_key(self.entries(), key.deep_view()),
            },
    {
        let mut i: usize = 0;
        while i < self.lifecycles.len()
            invariant
                i <= self.lifecycles.len(),
                forall|j: int| 0 <= j < i ==> !is_at(self.entries(), key.deep_view(), j),
            decreases self.lifecycles.len() - i,
        {
            if self.lifecycles[i].0.same(key) {
                return Some(i);
            }
            i += 1;
        }
        None
    }

    fn count(&self, connection_id: u64) -> (count: usize)
        ensures
            count == count_for(self.entries(), connection_id),
    {
        let mut i: usize = 0;
        let mut count: usize = 0;
        assert(self.entries().take(0) =~= Seq::<(KeyView, Option<L>)>::empty());
        while i < self.lifecycles.len()
            invariant
                i <= self.lifecycles.len(),
                count <= i,
                count == count_for(self.entries().take(i as int), connection_id),
            decreases self.lifecycles.len() - i,
        {
            assert(self.entries().take(i + 1).drop_last() =~= self.entries().take(i as int));
            if self.lifecycles[i].0.connection_id == connection_id {
                count += 1;
            }
            i += 1;
        }
        assert(self.entries().take(self.lifecycles.len() as int) =~= self.entries());
        count
    }

    /// Reserves a place for a lifecycle that is being started.
    pub fn reserve(&mut self, key: UserAttentionKey) -> (reserved: Result<(), JSONRPCErrorError>)
        requires
            old(self).well_formed(),
        ensures
            final(self).well_formed(),
            match reserved {
                Ok(_) => reservation(old(self).entries(), key.deep_view()) == Ok::<
                    Seq<(KeyView, Option<L>)>,
                    RpcErrorView,
                >(final(self).entries()),
                Err(error) => reservation(old(self).entries(), key.deep_view()) == Err::<
                    Seq<(KeyView, Option<L>)>,
                    RpcErrorView,
                >(error.deep_view()) && final(self).entries() == old(self).entries(),
            },
    {
        if let Some(_) = self.find(&key) {
            return Err(invalid_request("attentionId is already active"));
        }
        if self.count(key.connection_id) >= MAX_ACTIVE_USER_ATTENTION_PER_CONNECTION {
            return Err(invalid_request("too many active user-attention lifecycles"));
        }
        let ghost before = self.entries();
        let ghost added = (key.deep_view(), None::<L>);
        self.lifecycles.push((key, None));
        proof {
            assert(self.entries() =~= before.push(added));
            assert(before.push(added).drop_last() =~= before);
            assert forall|i: int, j: int| 0 <= i < j < self.entries().len() implies (
            #[trigger] self.entries()[i]).0 != (#[trigger] self.entries()[j]).0 by {
                assert(self.entries()[i] == before[i]);
                if j < before.len() {
                    assert(self.entries()[j] == before[j]);
                } else {
                    assert(!is_at(before, key.deep_view(), i));
                }
            }
            assert forall|connection_id: u64| #[trigger]
                count_for(self.entries(), connection_id)
                    <= MAX_ACTIVE_USER_ATTENTION_PER_CONNECTION by {
                assert(count_for(before, connection_id)
                    <= MAX_ACTIVE_USER_ATTENTION_PER_CONNECTION);
            }
        }
        Ok(())
    }

    /// Puts a started lifecycle into its place. Where the place is gone, because the lifecycle was
    /// completed meanwhile, it is handed back.
    pub fn commit(&mut self, key: &UserAttentionKey, lifecycle: L) -> (unplaced: Option<L>)
        requires
            old(self).well_formed(),
        ensures
            final(self).well_formed(),
            final(self).entries() == committed(old(self).entries(), key.deep_view(), lifecycle),
            match unplaced {
                Some(back) => !has_key(old(self).entries(), key.deep_view()) && back == lifecycle,
                None => has_key(old(self).entries(), key.deep_view()),
            },
    {
        let ghost before = self.entries();
        let ghost after = committed(before, key.deep_view(), lifecycle);
        proof {
            assert forall|i: int, j: int| 0 <= i < j < after.len() implies (
            #[trigger] after[i]).0 != (#[trigger] after[j]).0 by {
                assert(before[i].0 != before[j].0);
            }
            assert forall|connection_id: u64| #[trigger]
                count_for(after, connection_id) <= MAX_ACTIVE_USER_ATTENTION_PER_CONNECTION by {
                lemma_count_of_committed(before, key.deep_view(), lifecycle, connection_id);
                assert(count_for(before, connection_id)
                    <= MAX_ACTIVE_USER_ATTENTION_PER_CONNECTION);
            }
        }
        match self.find(key) {
            Some(i) => {
                let place: UserAttentionKey = key.copy();
                self.lifecycles.set(i, (place, Some(lifecycle)));
                proof {
                    assert forall|j: int| 0 <= j < before.len() implies self.entries()[j]
                        == after[j] by {
                        if j != i {
                            assert(before[j].0 != before[i as int].0);
                        }
                    }
                    assert(self.entries() =~= after);
                }
                None
            },
            None => {
                proof {
                    assert forall|j: int| 0 <= j < before.len() implies before[j] == after[j] by {
                        assert(!is_at(before, key.deep_view(), j));
                    }
                    assert(self.entries() =~= after);
                }
                Some(lifecycle)
            },
        }
    }

    /// Takes out the entry with the key, and hands out its lifecycle.
    fn take(&mut self, key: &UserAttentionKey) -> (lifecycle: Option<L>)
        requires
            old(self).well_formed(),
        ensures
            final(self).well_formed(),
            final(self).entries() == without(
                old(self).entries(),
                Selection::Key(key.deep_view()),
            ),
            match lifecycle {
                Some(lifecycle) => lifecycles_of(
                    old(self).entries(),
                    Selection::Key(key.deep_view()),
                ) == seq![lifecycle],
                None => lifecycles_of(old(self).entries(), Selection::Key(key.deep_view()))
                    == Seq::<L>::empty(),
            },
    {
        let ghost before = self.entries();
        proof {
            lemma_without_is_registry(before, Selection::Key(key.deep_view()));
            assert forall|connection_id: u64| #[trigger]
                count_for(
                    without(before, Selection::Key(key.deep_view())),
                    connection_id,
                ) <= MAX_ACTIVE_USER_ATTENTION_PER_CONNECTION by {
                assert(count_for(before, connection_id)
                    <= MAX_ACTIVE_USER_ATTENTION_PER_CONNECTION);
            }
        }
        match self.find(key) {
            Some(i) => {
                proof {
                    lemma_taking_one(before, key.deep_view(), i as int);
                }
                let (_, lifecycle): (UserAttentionKey, Option<L>) = self.lifecycles.remove(i);
                assert(self.entries() =~= before.remove(i as int));
                assert(lifecycle == before[i as int].1);
                lifecycle
            },
            None => {
                proof {
                    lemma_taking_none(before, Selection::Key(key.deep_view()));
                }
                None
            },
        }
    }

    /// Gives up a place that was reserved.
    pub fn release(&mut self, key: &UserAttentionKey)
        requires
            old(self).well_formed(),
        ensures
            final(self).well_formed(),
            final(self).entries() == without(
                old(self).entries(),
                Selection::Key(key.deep_view()),
            ),
    {
        let _ = self.take(key);
    }

    /// Takes out the lifecycle with the key, for whoever completes it.
    pub fn complete(&mut self, key: &UserAttentionKey) -> (lifecycle: Option<L>)
        requires
            old(self).well_formed(),
        ensures
            final(self).well_formed(),
            final(self).entries() == without(
                old(self).entries(),
                Selection::Key(key.deep_view()),
            ),
            match lifecycle {
                Some(lifecycle) => lifecycles_of(
                    old(self).entries(),
                    Selection::Key(key.deep_view()),
                ) == seq![lifecycle],
                None => lifecycles_of(old(self).entries(), Selection::Key(key.deep_view()))
                    == Seq::<L>::empty(),
            },
    {
        self.take(key)
    }

    fn complete_matching(&mut self, connection_id: Option<u64>, thread_id: &str) -> (lifecycles:
        Vec<L>)
        requires
            old(self).well_formed(),
        ensures
            final(self).well_formed(),
            final(self).entries() == without(
                old(self).entries(),
                selection_for(connection_id, thread_id@),
            ),
            lifecycles@ == lifecycles_of(
                old(self).entries(),
                selection_for(connection_id, thread_id@),
            ),
    {
        let ghost all = self.entries();
        let ghost selection = selection_for(connection_id, thread_id@);
        let ghost mut done: int = 0;
        let mut i: usize = 0;
        let mut lifecycles: Vec<L> = Vec::new();
        assert(all.take(0) =~= Seq::<(KeyView, Option<L>)>::empty());
        assert(all =~= without(all.take(0), selection) + all.skip(0));
        while i < self.lifecycles.len()
            invariant
                0 <= done <= all.len(),
                selection == selection_for(connection_id, thread_id@),
                i == without(all.take(done), selection).len(),
                self.entries() == without(all.take(done), selection) + all.skip(done),
                lifecycles@ == lifecycles_of(all.take(done), selection),
            decreases self.lifecycles.len() - i,
        {
            let ghost before = self.entries();
            let ghost left = without(all.take(done), selection);
            proof {
                assert(before.len() == self.lifecycles.len());
                assert(before[i as int] == all.skip(done)[0]);
                assert(all.take(done + 1).drop_last() =~= all.take(done));
                assert(all.take(done + 1).last() == all[done]);
                assert(before[i as int].0 == self.lifecycles[i as int].0.deep_view());
            }
            let is_wanted: bool = match connection_id {
                Some(connection_id) => self.lifecycles[i].0.connection_id == connection_id,
                None => same_text(self.lifecycles[i].0.thread_id.as_str(), thread_id),
            };
            if is_wanted {
                let (_, lifecycle): (UserAttentionKey, Option<L>) = self.lifecycles.remove(i);
                assert(lifecycle == before[i as int].1);
                if let Some(lifecycle) = lifecycle {
                    lifecycles.push(lifecycle);
                }
                assert(self.entries() =~= before.remove(i as int));
                assert(before.remove(i as int) =~= left + all.skip(done + 1));
            } else {
                assert(left + all.skip(done) =~= left.push(all[done]) + all.skip(done + 1));
                i += 1;
            }
            proof {
                done = done + 1;
            }
        }
        proof {
            assert(self.entries().len() == self.lifecycles.len());
            assert(all.take(done) =~= all);
            assert(self.entries() =~= without(all, selection));
            lemma_without_is_registry(all, selection);
            assert forall|connection_id: u64| #[trigger]
                count_for(
                    without(all, selection),
                    connection_id,
                ) <= MAX_ACTIVE_USER_ATTENTION_PER_CONNECTION by {
                assert(count_for(all, connection_id) <= MAX_ACTIVE_USER_ATTENTION_PER_CONNECTION);
            }
        }
        lifecycles
    }

    /// Takes out the lifecycles of a connection that is gone, for whoever completes them.
    pub fn complete_connection(&mut self, connection_id: u64) -> (lifecycles: Vec<L>)
        requires
            old(self).well_formed(),
        ensures
            final(self).well_formed(),
            final(self).entries() == without(
                old(self).entries(),
                Selection::Connection(connection_id),
            ),
            lifecycles@ == lifecycles_of(
                old(self).entries(),
                Selection::Connection(connection_id),
            ),
    {
        self.complete_matching(Some(connection_id), "")
    }

    /// Takes out the lifecycles of a thread that is gone, for whoever completes them.
    pub fn complete_thread(&mut self, thread_id: &str) -> (lifecycles: Vec<L>)
        requires
            old(self).well_formed(),
        ensures
            final(self).well_formed(),
            final(self).entries() == without(
                old(self).entries(),
                Selection::Thread(thread_id@),
            ),
            lifecycles@ == lifecycles_of(old(self).entries(), Selection::Thread(thread_id@)),
    {
        self.complete_matching(None, thread_id)
    }
}

proof fn lemma_taking_none<L>(entries: Seq<(KeyView, Option<L>)>, selection: Selection)
    requires
        forall|i: int|
            0 <= i < entries.len() ==> !is_selected(selection, (#[trigger] entries[i]).0) || (
            selection matches Selection::Key(key) && !is_at(entries, key, i)),
    ensures
        without(entries, selection) == entries,
        lifecycles_of(entries, selection) == Seq::<L>::empty(),
    decreases entries.len(),
{
    if entries.len() > 0 {
        let fewer = entries.drop_last();
        assert forall|i: int| 0 <= i < fewer.len() implies !is_selected(
            selection,
            (#[trigger] fewer[i]).0,
        ) || (selection matches Selection::Key(key) && !is_at(fewer, key, i)) by {
            assert(fewer[i] == entries[i]);
        }
        lemma_taking_none(fewer, selection);
        assert(entries[entries.len() - 1] == entries.last());
        assert(entries =~= fewer.push(entries.last()));
    } else {
        assert(entries =~= Seq::<(KeyView, Option<L>)>::empty());
    }
}

proof fn lemma_taking_one<L>(entries: Seq<(KeyView, Option<L>)>, key: KeyView, i: int)
    requires
        forall|j: int, k: int|
            0 <= j < k < entries.len() ==> (#[trigger] entries[j]).0 != (#[trigger] entries[k]).0,
        is_at(entries, key, i),
    ensures
        without(entries, Selection::Key(key)) == entries.remove(i),
        lifecycles_of(entries, Selection::Key(key)) == match entries[i].1 {
            Some(lifecycle) => seq![lifecycle],
            None => Seq::<L>::empty(),
        },
    decreases entries.len(),
{
    let fewer = entries.drop_last();
    let last = entries.last();
    let n = entries.len() - 1;
    assert(entries =~= fewer.push(last));
    if i == n {
        assert forall|j: int| 0 <= j < fewer.len() implies !is_selected(
            Selection::Key(key),
            (#[trigger] fewer[j]).0,
        ) by {
            assert(entries[j].0 != entries[n].0);
        }
        lemma_taking_none(fewer, Selection::Key(key));
        assert(entries.remove(i) =~= fewer);
        if let Some(lifecycle) = last.1 {
            assert(Seq::<L>::empty().push(lifecycle) =~= seq![lifecycle]);
        }
    } else {
        assert forall|j: int, k: int| 0 <= j < k < fewer.len() implies (#[trigger] fewer[j]).0 != (
        #[trigger] fewer[k]).0 by {
            assert(entries[j].0 != entries[k].0);
        }
        assert(entries[i].0 != entries[n].0);
        assert(is_at(fewer, key, i));
        lemma_taking_one(fewer, key, i);
        assert(entries.remove(i) =~= fewer.remove(i).push(last));
    }
}

impl Default for ThreadUserAttentionStartResponse {
    fn default() -> (response: Self)
        ensures
            response == (ThreadUserAttentionStartResponse {}),
    {
        ThreadUserAttentionStartResponse {  }
    }
}

impl Default for ThreadUserAttentionCompleteResponse {
    fn default() -> (response: Self)
        ensures
            response == (ThreadUserAttentionCompleteResponse {}),
    {
        ThreadUserAttentionCompleteResponse {  }
    }
}

/// What became of starting a lifecycle on its thread.
pub enum AttentionStart<L> {
    ThreadNotFound,
    /// The thread refused it.
    Refused(String),
    Started(L),
}

/// The key that a request means: its thread id has to be one.
pub open spec fn requested_key(
    connection_id: u64,
    thread_id: Result<Seq<char>, Seq<char>>,
    attention_id: Seq<char>,
) -> Result<KeyView, RpcErrorView> {
    match thread_id {
        Ok(thread_id) => Ok(KeyView { connection_id, thread_id, attention_id }),
        Err(problem) => Err(invalid_request_view("invalid thread id: "@ + problem)),
    }
}

fn request_key(
    connection_id: u64,
    thread_id: Result<String, String>,
    attention_id: &str,
) -> (key: Result<UserAttentionKey, JSONRPCErrorError>)
    ensures
        crate::session::result_view(key) == requested_key(
            connection_id,
            crate::session::result_view(thread_id),
            attention_id@,
        ),
{
    match thread_id {
        Ok(thread_id) => Ok(
            UserAttentionKey { connection_id, thread_id, attention_id: attention_id.to_owned() },
        ),
        Err(problem) => Err(
            invalid_request(concat2("invalid thread id: ", problem.as_str()).as_str()),
        ),
    }
}

/// Reserves the place for the lifecycle that a client starts, and gives back its key. `thread_id` is
/// what reading the thread id of the request gave.
pub fn begin_user_attention<L>(
    manager: &mut UserAttentionManager<L>,
    connection_id: u64,
    params: &ThreadUserAttentionStartParams,
    thread_id: Result<String, String>,
) -> (key: Result<UserAttentionKey, JSONRPCErrorError>)
    requires
        old(manager).well_formed(),
    ensures
        final(manager).well_formed(),
        match requested_key(
            connection_id,
            crate::session::result_view(thread_id),
            params.attention_id@,
        ) {
            Err(error) => key is Err && key->Err_0.deep_view() == error && final(manager).entries()
                == old(manager).entries(),
            Ok(wanted) => match reservation(old(manager).entries(), wanted) {
                Err(error) => key is Err && key->Err_0.deep_view() == error
                    && final(manager).entries() == old(manager).entries(),
                Ok(entries) => key is Ok && key->Ok_0.deep_view() == wanted
                    && final(manager).entries() == entries,
            },
        },
{
    let key: UserAttentionKey = match request_key(
        connection_id,
        thread_id,
        params.attention_id.as_str(),
    ) {
        Ok(key) => key,
        Err(error) => return Err(error),
    };
    match manager.reserve(key.copy()) {
        Ok(_) => Ok(key),
        Err(error) => Err(error),
    }
}

/// What a start that reserved a place comes to: the error of the thread, or none.
pub open spec fn start_error<L>(key: KeyView, started: AttentionStart<L>) -> Option<RpcErrorView> {
    match started {
        AttentionStart::ThreadNotFound => Some(
            invalid_request_view("thread not found: "@ + key.thread_id),
        ),
        AttentionStart::Refused(problem) => Some(invalid_request_view(problem@)),
        AttentionStart::Started(_) => None,
    }
}

/// Answers a start that reserved a place: the lifecycle takes the place, or the place is given up.
/// A lifecycle whose place is gone is handed back with the answer.
pub fn finish_user_attention<L>(
    manager: &mut UserAttentionManager<L>,
    key: &UserAttentionKey,
    started: AttentionStart<L>,
) -> (answer: Result<(ThreadUserAttentionStartResponse, Option<L>), JSONRPCErrorError>)
    requires
        old(manager).well_formed(),
    ensures
        final(manager).well_formed(),
        match start_error(key.deep_view(), started) {
            Some(error) => answer is Err && answer->Err_0.deep_view() == error
                && final(manager).entries() == without(
                old(manager).entries(),
                Selection::Key(key.deep_view()),
            ),
            None => answer is Ok && final(manager).entries() == committed(
                old(manager).entries(),
                key.deep_view(),
                started->Started_0,
            ) && (answer->Ok_0.1 == if has_key(old(manager).entries(), key.deep_view()) {
                None
            } else {
                Some(started->Started_0)
            }),
        },
{
    match started {
        AttentionStart::ThreadNotFound => {
            manager.release(key);
            Err(invalid_request(concat2("thread not found: ", key.thread_id.as_str()).as_str()))
        },
        AttentionStart::Refused(problem) => {
            manager.release(key);
            Err(invalid_request(problem.as_str()))
        },
        AttentionStart::Started(lifecycle) => {
            let unplaced: Option<L> = manager.commit(key, lifecycle);
            Ok((ThreadUserAttentionStartResponse {  }, unplaced))
        },
    }
}

/// Answers a request to complete a lifecycle, and hands out the lifecycle where there is one. It is
/// no error that there is none.
pub fn complete_user_attention<L>(
    manager: &mut UserAttentionManager<L>,
    connection_id: u64,
    params: &ThreadUserAttentionCompleteParams,
    thread_id: Result<String, String>,
) -> (answer: Result<(ThreadUserAttentionCompleteResponse, Option<L>), JSONRPCErrorError>)
    requires
        old(manager).well_formed(),
    ensures
        final(manager).well_formed(),
        match requested_key(
            connection_id,
            crate::session::result_view(thread_id),
            params.attention_id@,
        ) {
            Err(error) => answer is Err && answer->Err_0.deep_view() == error
                && final(manager).entries() == old(manager).entries(),
            Ok(key) => answer is Ok && final(manager).entries() == without(
                old(manager).entries(),
                Selection::Key(key),
            ) && lifecycles_of(old(manager).entries(), Selection::Key(key)) == (
            match answer->Ok_0.1 {
                Some(lifecycle) => seq![lifecycle],
                None => Seq::<L>::empty(),
            }),
        },
{
    let key: UserAttentionKey = match request_key(
        connection_id,
        thread_id,
        params.attention_id.as_str(),
    ) {
        Ok(key) => key,
        Err(error) => return Err(error),
    };
    let lifecycle: Option<L> = manager.complete(&key);
    Ok((ThreadUserAttentionCompleteResponse {  }, lifecycle))
}

/// Giving up a place that was reserved leaves everything as it was before.
pub proof fn lemma_release_undoes_reserve<L>(
    entries: Seq<(KeyView, Option<L>)>,
    key: KeyView,
    reserved: Seq<(KeyView, Option<L>)>,
)
    requires
        reservation(entries, key) == Ok::<Seq<(KeyView, Option<L>)>, RpcErrorView>(reserved),
    ensures
        without(reserved, Selection::Key(key)) == entries,
{
    assert(reserved.drop_last() =~= entries);
    assert forall|i: int| 0 <= i < entries.len() implies !is_selected(
        Selection::Key(key),
        (#[trigger] entries[i]).0,
    ) by {
        assert(!is_at(entries, key, i));
    }
    lemma_taking_none(entries, Selection::Key(key));
}

/// A lifecycle that was started is handed out by the first completion.
pub proof fn lemma_a_started_lifecycle_is_handed_out<L>(
    entries: Seq<(KeyView, Option<L>)>,
    key: KeyView,
    reserved: Seq<(KeyView, Option<L>)>,
    lifecycle: L,
)
    requires
        is_registry(entries),
        reservation(entries, key) == Ok::<Seq<(KeyView, Option<L>)>, RpcErrorView>(reserved),
    ensures
        lifecycles_of(committed(reserved, key, lifecycle), Selection::Key(key)) == seq![lifecycle],
        without(committed(reserved, key, lifecycle), Selection::Key(key)) == entries,
{
    let last = (key, Some(lifecycle));
    assert forall|i: int| 0 <= i < entries.len() implies !is_selected(
        Selection::Key(key),
        (#[trigger] entries[i]).0,
    ) by {
        assert(!is_at(entries, key, i));
    }
    assert(committed(reserved, key, lifecycle) =~= entries.push(last));
    assert(entries.push(last).drop_last() =~= entries);
    lemma_taking_none(entries, Selection::Key(key));
    assert(Seq::<L>::empty().push(lifecycle) =~= seq![lifecycle]);
}

/// Completing again finds nothing and changes nothing, so no lifecycle is handed out twice. What
/// was not meant stays.
pub proof fn lemma_completing_again_changes_nothing<L>(
    entries: Seq<(KeyView, Option<L>)>,
    selection: Selection,
)
    ensures
        lifecycles_of(without(entries, selection), selection) == Seq::<L>::empty(),
        without(without(entries, selection), selection) == without(entries, selection),
        forall|i: int|
            0 <= i < entries.len() && !is_selected(selection, (#[trigger] entries[i]).0)
                ==> without(entries, selection).contains(entries[i]),
{
    lemma_without_drops(entries, selection);
    lemma_taking_none(without(entries, selection), selection);
}

/// After a connection is gone it has room for as many lifecycles as any other.
pub proof fn lemma_a_gone_connection_has_room<L>(
    entries: Seq<(KeyView, Option<L>)>,
    connection_id: u64,
)
    ensures
        count_for(without(entries, Selection::Connection(connection_id)), connection_id) == 0,
    decreases entries.len(),
{
    if entries.len() > 0 {
        let selection = Selection::Connection(connection_id);
        lemma_a_gone_connection_has_room(entries.drop_last(), connection_id);
        if !is_selected(selection, entries.last().0) {
            assert(without(entries, selection).drop_last() =~= without(
                entries.drop_last(),
                selection,
            ));
        }
    }
}

/// Completing takes out every lifecycle that is selected, and hands out those that have started;
/// all others stay, and both keep their order. A key selects by all of its three parts.
pub proof fn lemma_completing_takes_out_what_is_selected<L>(
    before: Seq<(KeyView, Option<L>)>,
    entry: (KeyView, Option<L>),
    after: Seq<(KeyView, Option<L>)>,
    selection: Selection,
    is_wanted: bool,
)
    requires
        is_wanted == (match selection {
            Selection::Key(key) => entry.0.connection_id == key.connection_id && entry.0.thread_id
                == key.thread_id && entry.0.attention_id == key.attention_id,
            Selection::Connection(connection_id) => entry.0.connection_id == connection_id,
            Selection::Thread(thread_id) => entry.0.thread_id == thread_id,
        }),
    ensures
        without(before + seq![entry] + after, selection) == without(before, selection) + (
        if is_wanted {
            Seq::empty()
        } else {
            seq![entry]
        }) + without(after, selection),
        lifecycles_of(before + seq![entry] + after, selection) == lifecycles_of(before, selection)
            + (if is_wanted && entry.1 is Some {
            seq![entry.1->0]
        } else {
            Seq::empty()
        }) + lifecycles_of(after, selection),
        without(Seq::<(KeyView, Option<L>)>::empty(), selection).len() == 0,
        lifecycles_of(Seq::<(KeyView, Option<L>)>::empty(), selection).len() == 0,
    decreases after.len(),
{
    let all = before + seq![entry] + after;
    if after.len() == 0 {
        assert(all =~= before.push(entry));
        assert(all.drop_last() =~= before);
    } else {
        let fewer = after.drop_last();
        lemma_completing_takes_out_what_is_selected(before, entry, fewer, selection, is_wanted);
        assert(all.drop_last() =~= before + seq![entry] + fewer);
        assert(all.last() == after.last());
    }
}

/// A place is reserved exactly where no lifecycle has the same three parts and its connection has
/// fewer than thirty-two; it is the last one and has not started. Otherwise the request is invalid.
pub proof fn lemma_places_are_reserved_once_and_within_bounds<L>(
    entries: Seq<(KeyView, Option<L>)>,
    key: KeyView,
)
    ensures
        reservation(entries, key) is Ok <==> !(exists|i: int|
            #![trigger entries[i]]
            0 <= i < entries.len() && entries[i].0.connection_id == key.connection_id
                && entries[i].0.thread_id == key.thread_id && entries[i].0.attention_id
                == key.attention_id) && count_for(entries, key.connection_id) < 32,
        reservation(entries, key) matches Ok(reserved) ==> reserved == entries.push((key, None)),
        reservation(entries, key) matches Err(error) ==> error.code == -32600 && error.data is None
            && error.message == (if exists|i: int|
            #![trigger entries[i]]
            0 <= i < entries.len() && entries[i].0 == key {
            "attentionId is already active"@
        } else {
            "too many active user-attention lifecycles"@
        }),
{
    if has_key(entries, key) {
        let i = choose|i: int| is_at(entries, key, i);
        assert(entries[i].0 == key);
    } else {
        assert forall|i: int| 0 <= i < entries.len() implies (#[trigger] entries[i]).0 != key by {
            assert(!is_at(entries, key, i));
        }
    }
}

/// The lifecycles of a connection are counted one by one.
pub proof fn lemma_lifecycles_are_counted<L>(
    entries: Seq<(KeyView, Option<L>)>,
    entry: (KeyView, Option<L>),
    connection_id: u64,
)
    ensures
        count_for(Seq::<(KeyView, Option<L>)>::empty(), connection_id) == 0,
        count_for(entries.push(entry), connection_id) == count_for(entries, connection_id) + (
        if entry.0.connection_id == connection_id {
            1nat
        } else {
            0nat
        }),
{
    assert(entries.push(entry).drop_last() =~= entries);
}

/// A lifecycle that starts is put in the place with its key, and no other place changes.
pub proof fn lemma_a_lifecycle_starts_in_its_place<L>(
    entries: Seq<(KeyView, Option<L>)>,
    key: KeyView,
    lifecycle: L,
    i: int,
)
    requires
        0 <= i < entries.len(),
    ensures
        committed(entries, key, lifecycle).len() == entries.len(),
        committed(entries, key, lifecycle)[i].0 == entries[i].0,
        entries[i].0 == key ==> committed(entries, key, lifecycle)[i].1 == Some(lifecycle),
        entries[i].0 != key ==> committed(entries, key, lifecycle)[i].1 == entries[i].1,
{
}

/// A request names a lifecycle by its connection, its thread and its own name; a thread that cannot
/// be read is told, and so is one that cannot start it.
pub proof fn lemma_requests_name_their_lifecycle<L>(
    connection_id: u64,
    thread_id: Seq<char>,
    attention_id: Seq<char>,
    problem: Seq<char>,
    started: AttentionStart<L>,
)
    ensures
        requested_key(connection_id, Ok(thread_id), attention_id) matches Ok(key)
            && key.connection_id == connection_id && key.thread_id == thread_id
            && key.attention_id == attention_id,
        requested_key(connection_id, Err(problem), attention_id) matches Err(error) && error.code
            == -32600 && error.message == "invalid thread id: "@ + problem,
        start_error(KeyView { connection_id, thread_id, attention_id }, started) is None
            <==> started is Started,
        start_error(KeyView { connection_id, thread_id, attention_id }, started) matches Some(error)
            ==> error.code == -32600 && error.message == (match started {
            AttentionStart::Refused(refusal) => refusal@,
            _ => "thread not found: "@ + thread_id,
        }),
{
}

} // verus!
