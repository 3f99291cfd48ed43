use vstd::prelude::*;
use crate::SceneHandle;
use crate::channel::BBUSceneSpawnedEventWithId;
use crate::channel::NoteModel;
use crate::channel::NotificationQueue;
use crate::oracle::LoadState;
use crate::oracle::OracleView;

verus! {

/// One watched asset entry: a caller-chosen opaque id and the handle it was
/// registered with. The id is only carried through, never compared.
#[derive(Clone, Copy)]
pub struct SceneWithId<Id> {
    pub id: Id,
    pub handle: SceneHandle,
}

/// Tracks scene assets that are loading and emits exactly one notification
/// per entry once its load state turns terminal.
///
/// An entry stays in the registry exactly as long as its terminal state has
/// not been observed: `inform_if_loaded` removes it when the oracle answers
/// `Loaded`, `Failed` (one notification each) or `Unloaded` (silent drop).
pub struct BBUManager<Id> {
    pub loading_assets: Vec<SceneWithId<Id>>,
}

impl<Id> View for BBUManager<Id> {
    type V = Seq<SceneWithId<Id>>;

    open spec fn view(&self) -> Seq<SceneWithId<Id>> {
        self.loading_assets@
    }
}

/// A state on which an entry stays registered: any non-terminal state that is
/// not an eviction.
pub open spec fn spec_keeps(s: LoadState) -> bool {
    s is NotLoaded || s is Loading
}

/// A state on which a notification is emitted.
pub open spec fn spec_terminal(s: LoadState) -> bool {
    s is Loaded || s is Failed
}

/// The notification that one entry produces under the given oracle snapshot,
/// assuming its state is terminal.
pub open spec fn spec_note<Id>(e: SceneWithId<Id>, o: OracleView) -> NoteModel<Id> {
    if o.spec_state(e.handle) is Loaded {
        NoteModel::Loaded { id: e.id, handle: e.handle, path: o.spec_path(e.handle) }
    } else {
        NoteModel::Failed { path: o.spec_path(e.handle) }
    }
}

/// The entries of `s` that one poll against `o` keeps registered, in order.
pub open spec fn spec_kept<Id>(s: Seq<SceneWithId<Id>>, o: OracleView) -> Seq<SceneWithId<Id>>
    decreases s.len(),
{
    if s.len() == 0 {
        Seq::empty()
    } else {
        let rest = spec_kept(s.skip(1), o);
        if spec_keeps(o.spec_state(s[0].handle)) {
            seq![s[0]] + rest
        } else {
            rest
        }
    }
}

/// The notifications one poll of `s` against `o` emits, in registry order.
pub open spec fn spec_emitted<Id>(s: Seq<SceneWithId<Id>>, o: OracleView) -> Seq<NoteModel<Id>>
    decreases s.len(),
{
    if s.len() == 0 {
        Seq::empty()
    } else {
        let rest = spec_emitted(s.skip(1), o);
        if spec_terminal(o.spec_state(s[0].handle)) {
            seq![spec_note(s[0], o)] + rest
        } else {
            rest
        }
    }
}

/// How many entries of `s` are in a terminal state under `o`.
pub open spec fn spec_terminal_count<Id>(s: Seq<SceneWithId<Id>>, o: OracleView) -> int
    decreases s.len(),
{
    if s.len() == 0 {
        0
    } else {
        spec_terminal_count(s.skip(1), o) + if spec_terminal(o.spec_state(s[0].handle)) {
            1 as int
        } else {
            0 as int
        }
    }
}

impl<Id: Copy> BBUManager<Id> {
    pub fn new() -> (r: BBUManager<Id>)
        ensures
            r@ =~= Seq::<SceneWithId<Id>>::empty(),
    {
        BBUManager { loading_assets: Vec::new() }
    }

    /// Add a scene handle to track under the given id. Duplicate registration
    /// is allowed by design and yields independent entries and notifications.
    /// Returns the handle for chaining.
    pub fn manage(&mut self, id: Id, handle: SceneHandle) -> (r: SceneHandle)
        ensures
            final(self)@ == old(self)@.push(SceneWithId { id, handle }),
            r == handle,
    {
        self.loading_assets.push(SceneWithId { id, handle });
        handle
    }

    /// Whether every watched entry has resolved; useful with a state-based
    /// asset loading approach. A pure function of the registry: calling it
    /// twice without an intervening `manage` or `inform_if_loaded` returns
    /// the same answer.
    pub fn is_loaded(&self) -> (r: bool)
        ensures
            r == (self@.len() == 0),
    {
        self.loading_assets.is_empty()
    }

    /// The handles of all watched entries, in registry order; integration
    /// code queries the asset subsystem for exactly these when it builds the
    /// oracle snapshot for a tick.
    pub fn handles(&self) -> (r: Vec<SceneHandle>)
        ensures
            r@.len() == self@.len(),
            forall|i: int| 0 <= i < r@.len() ==> r@[i] == self@[i as int].handle,
    {
        let mut r: Vec<SceneHandle> = Vec::new();
        let n: usize = self.loading_assets.len();
        let mut i: usize = 0;
        while i < n
            invariant
                i <= n,
                n == self@.len(),
                r@.len() == i,
                forall|j: int| 0 <= j < i ==> r@[j] == self@[j].handle,
            decreases n - i,
        {
            r.push(self.loading_assets[i].handle);
            i += 1;
        }
        r
    }

    /// Poll the oracle snapshot once for every watched entry, in registry
    /// order, with no early exit. Entries still in a non-terminal state stay;
    /// entries whose state is terminal are removed and produce exactly one
    /// notification each; evicted (`Unloaded`) entries are removed silently.
    pub fn inform_if_loaded(&mut self, oracle: &OracleView, writer: &mut NotificationQueue<Id>)
        ensures
            final(self)@ == spec_kept(old(self)@, *oracle),
            final(writer)@ == old(writer)@ + spec_emitted(old(self)@, *oracle),
    {
        let ghost entries = self@;
        let ghost start = writer@;
        let mut kept: Vec<SceneWithId<Id>> = Vec::new();
        let n: usize = self.loading_assets.len();
        let mut i: usize = 0;
        proof {
            assert(entries.skip(0) =~= entries);
            assert(kept@ + spec_kept(entries, *oracle) =~= spec_kept(entries, *oracle));
            assert(start + spec_emitted(entries, *oracle) =~= start + spec_emitted(
                entries,
                *oracle,
            ));
        }
        while i < n
            invariant
                i <= n,
                n == entries.len(),
                self@ == entries,
                kept@ + spec_kept(entries.skip(i as int), *oracle) == spec_kept(entries, *oracle),
                writer@ + spec_emitted(entries.skip(i as int), *oracle) == start + spec_emitted(
                    entries,
                    *oracle,
                ),
            decreases n - i,
        {
            let ghost tail = entries.skip(i as int);
            proof {
                assert(tail[0] == entries[i as int]);
                assert(tail.skip(1) =~= entries.skip(i as int + 1));
            }
            let ghost kpre = kept@;
            let ghost wpre = writer@;
            let entry = self.loading_assets[i];
            let state = oracle.load_state(entry.handle);
            match state {
                LoadState::NotLoaded | LoadState::Loading => {
                    kept.push(entry);
                    proof {
                        assert(spec_kept(tail, *oracle) == seq![entry] + spec_kept(
                            tail.skip(1),
                            *oracle,
                        ));
                        assert(kept@ + spec_kept(entries.skip(i as int + 1), *oracle) =~= kpre
                            + spec_kept(tail, *oracle));
                    }
                },
                LoadState::Unloaded => {
                },
                LoadState::Loaded => {
                    let path = oracle.source_path(entry.handle);
                    let note = BBUSceneSpawnedEventWithId::Loaded {
                        id: entry.id,
                        handle: entry.handle,
                        path,
                    };
                    proof {
                        assert(note@ == spec_note(entry, *oracle));
                    }
                    writer.send(note);
                    proof {
                        assert(spec_emitted(tail, *oracle) == seq![spec_note(entry, *oracle)]
                            + spec_emitted(tail.skip(1), *oracle));
                        assert(writer@ + spec_emitted(entries.skip(i as int + 1), *oracle) =~= wpre
                            + spec_emitted(tail, *oracle));
                    }
                },
                LoadState::Failed => {
                    let path = oracle.source_path(entry.handle);
                    let note = BBUSceneSpawnedEventWithId::Failed { path };
                    proof {
                        assert(note@ == spec_note(entry, *oracle));
                    }
                    writer.send(note);
                    proof {
                        assert(spec_emitted(tail, *oracle) == seq![spec_note(entry, *oracle)]
                            + spec_emitted(tail.skip(1), *oracle));
                        assert(writer@ + spec_emitted(entries.skip(i as int + 1), *oracle) =~= wpre
                            + spec_emitted(tail, *oracle));
                    }
                },
            }
            i += 1;
        }
        proof {
            assert(entries.skip(n as int) =~= Seq::<SceneWithId<Id>>::empty());
            assert(kept@ + spec_kept(entries.skip(n as int), *oracle) =~= kept@);
            assert(writer@ + spec_emitted(entries.skip(n as int), *oracle) =~= writer@);
        }
        self.loading_assets = kept;
    }
}

impl<Id: Copy> Default for BBUManager<Id> {
    fn default() -> (r: BBUManager<Id>)
        ensures
            r@ =~= Seq::<SceneWithId<Id>>::empty(),
    {
        BBUManager::new()
    }
}

/// Converting a notification into a usable scene failed: either the asset
/// itself failed to load, or its scene data can no longer be resolved
/// (evicted between notification and consumption); each with or without a
/// known source path.
#[derive(Debug)]
pub enum BBUEventParseError {
    AssetLoadFailedUnknownPath,
    AssetLoadFailed(String),
    NoSceneExistUnknownPath,
    NoSceneExist(String),
}

impl<Id: Copy> BBUSceneSpawnedEventWithId<Id> {
    /// Convenience method for parsing events and getting scenes from them.
    ///
    /// A `Loaded` notification whose handle still resolves in the store
    /// yields the scene info; the caller then takes the graph out of the
    /// store, runs `BBUScene::parse` on it, and puts it back. A `Failed`
    /// notification, or a `Loaded` one whose scene data was evicted in the
    /// meantime, yields the matching error, with the source path when it is
    /// known.
    pub fn parse(&self, scenes: &crate::SceneStore) -> (r: Result<
        crate::BBUScene<Id>,
        BBUEventParseError,
    >)
        ensures
            match self@ {
                NoteModel::Failed { path } => match path {
                    Option::Some(p) => r matches Err(BBUEventParseError::AssetLoadFailed(q)) && q@
                        == p,
                    Option::None => r matches Err(e) && e is AssetLoadFailedUnknownPath,
                },
                NoteModel::Loaded { id, handle, path } => {
                    if scenes.spec_has(handle) {
                        r matches Ok(b) && b.id == id && b.handle == handle
                    } else {
                        match path {
                            Option::Some(p) => r matches Err(BBUEventParseError::NoSceneExist(q))
                                && q@ == p,
                            Option::None => r matches Err(e) && e is NoSceneExistUnknownPath,
                        }
                    }
                },
            },
    {
        match self {
            BBUSceneSpawnedEventWithId::Failed { path } => match path {
                Option::Some(p) => Result::Err(BBUEventParseError::AssetLoadFailed(p.clone())),
                Option::None => Result::Err(BBUEventParseError::AssetLoadFailedUnknownPath),
            },
            BBUSceneSpawnedEventWithId::Loaded { id, handle, path } => {
                if scenes.contains(*handle) {
                    Result::Ok(crate::BBUScene { id: *id, handle: *handle })
                } else {
                    match path {
                        Option::Some(p) => Result::Err(BBUEventParseError::NoSceneExist(p.clone())),
                        Option::None => Result::Err(BBUEventParseError::NoSceneExistUnknownPath),
                    }
                }
            },
        }
    }
}

/// Every entry a poll keeps was already registered and is still in a
/// non-terminal state; in particular no kept entry's state is terminal, and
/// none was evicted.
pub proof fn lemma_kept_entries<Id>(s: Seq<SceneWithId<Id>>, o: OracleView)
    ensures
        forall|e: SceneWithId<Id>| #[trigger] spec_kept(s, o).contains(e) ==> s.contains(e)
            && spec_keeps(o.spec_state(e.handle)),
    decreases s.len(),
{
    if s.len() == 0 {
    } else {
        lemma_kept_entries(s.skip(1), o);
        assert forall|e: SceneWithId<Id>| #[trigger] spec_kept(s, o).contains(e) implies s.contains(
            e,
        ) && spec_keeps(o.spec_state(e.handle)) by {
            let rest = spec_kept(s.skip(1), o);
            if spec_keeps(o.spec_state(s[0].handle)) {
                assert(spec_kept(s, o) == seq![s[0]] + rest);
                let j = choose|j: int| 0 <= j < spec_kept(s, o).len() && spec_kept(s, o)[j] == e;
                if j == 0 {
                    assert(e == s[0]);
                    assert(s.contains(s[0]));
                } else {
                    assert(rest[j - 1] == e);
                    assert(rest.contains(e));
                    assert(s.skip(1).contains(e));
                    lemma_skip_contains(s, e);
                }
            } else {
                assert(rest.contains(e));
                assert(s.skip(1).contains(e));
                lemma_skip_contains(s, e);
            }
        }
    }
}

/// An element of the tail of a sequence is an element of the sequence.
proof fn lemma_skip_contains<T>(s: Seq<T>, e: T)
    requires
        s.len() >= 1,
        s.skip(1).contains(e),
    ensures
        s.contains(e),
{
    let j = choose|j: int| 0 <= j < s.skip(1).len() && s.skip(1)[j] == e;
    assert(s[j + 1] == e);
}

/// At-most-once notification: one poll emits exactly one notification per
/// entry in a terminal state, and polling the kept entries again under the
/// same oracle snapshot emits nothing at all, because no kept entry is
/// terminal.
pub proof fn lemma_at_most_once<Id>(s: Seq<SceneWithId<Id>>, o: OracleView)
    ensures
        spec_emitted(s, o).len() == spec_terminal_count(s, o),
        spec_emitted(spec_kept(s, o), o).len() == 0,
    decreases s.len(),
{
    lemma_emitted_len(s, o);
    lemma_kept_entries(s, o);
    lemma_no_terminal_no_notes(spec_kept(s, o), o);
}

/// The number of notifications equals the number of terminal entries.
proof fn lemma_emitted_len<Id>(s: Seq<SceneWithId<Id>>, o: OracleView)
    ensures
        spec_emitted(s, o).len() == spec_terminal_count(s, o),
    decreases s.len(),
{
    if s.len() == 0 {
    } else {
        lemma_emitted_len(s.skip(1), o);
    }
}

/// A registry none of whose entries is terminal emits nothing.
proof fn lemma_no_terminal_no_notes<Id>(s: Seq<SceneWithId<Id>>, o: OracleView)
    requires
        forall|e: SceneWithId<Id>| s.contains(e) ==> spec_keeps(o.spec_state(e.handle)),
    ensures
        spec_emitted(s, o).len() == 0,
    decreases s.len(),
{
    if s.len() == 0 {
    } else {
        assert(s.contains(s[0]));
        assert forall|e: SceneWithId<Id>| s.skip(1).contains(e) implies spec_keeps(
            o.spec_state(e.handle),
        ) by {
            lemma_skip_contains(s, e);
        }
        lemma_no_terminal_no_notes(s.skip(1), o);
    }
}

/// Silent-drop invariant: an entry whose state is `Unloaded` is not kept by a
/// poll, and contributes no notification (the count only reflects terminal
/// entries, and `Unloaded` is not terminal).
pub proof fn lemma_silent_drop<Id>(s: Seq<SceneWithId<Id>>, o: OracleView, e: SceneWithId<Id>)
    requires
        o.spec_state(e.handle) is Unloaded,
    ensures
        !spec_kept(s, o).contains(e),
        spec_emitted(s, o).len() == spec_terminal_count(s, o),
    decreases s.len(),
{
    lemma_kept_entries(s, o);
    lemma_emitted_len(s, o);
}

/// The registry is idle after a poll exactly when no entry was left pending.
pub proof fn lemma_idle_after_poll<Id>(s: Seq<SceneWithId<Id>>, o: OracleView)
    ensures
        spec_kept(s, o).len() == 0 <==> (forall|i: int| 0 <= i < s.len() ==> !spec_keeps(
            o.spec_state((#[trigger] s[i]).handle),
        )),
    decreases s.len(),
{
    if s.len() == 0 {
    } else {
        lemma_idle_after_poll(s.skip(1), o);
        assert(forall|i: int| 0 <= i < s.skip(1).len() ==> s.skip(1)[i] == s[i + 1]);
        if spec_keeps(o.spec_state(s[0].handle)) {
            assert(spec_kept(s, o).len() >= 1);
        } else {
            assert(spec_kept(s, o) == spec_kept(s.skip(1), o));
            if spec_kept(s, o).len() == 0 {
                assert forall|i: int| 0 <= i < s.len() implies !spec_keeps(
                    o.spec_state((#[trigger] s[i]).handle),
                ) by {
                    if i > 0 {
                        assert(s.skip(1)[i - 1] == s[i]);
                    }
                }
            }
        }
    }
}

} // verus!
