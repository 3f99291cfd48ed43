use vstd::prelude::*;
use crate::SceneHandle;

verus! {

/// The load state of one asset handle, as the external asset subsystem reports
/// it when polled. `NotLoaded` and `Loading` are the non-terminal states;
/// `Loaded` and `Failed` are the terminal outcomes; `Unloaded` means the asset
/// was evicted before it reached a terminal outcome.
#[derive(Clone, Copy, PartialEq, Eq, Structural, Debug)]
pub enum LoadState {
    NotLoaded,
    Loading,
    Loaded,
    Failed,
    Unloaded,
}

/// One handle's answer from the asset subsystem: its load state and, best
/// effort, a human-readable source path.
pub struct OracleReport {
    pub handle: SceneHandle,
    pub state: LoadState,
    pub path: Option<String>,
}

/// The view of an `Option<String>` as an optional sequence of characters.
pub open spec fn view_opt_string(o: Option<String>) -> Option<Seq<char>> {
    match o {
        Option::None => Option::<Seq<char>>::None,
        Option::Some(s) => Option::Some(s@),
    }
}

/// A point-in-time snapshot of the external load-state oracle: for each
/// reported handle, its load state and best-effort source path. Handles
/// without a report count as `NotLoaded` with no path, matching how the
/// external asset subsystem answers for handles it knows nothing about.
///
/// Integration code rebuilds one of these each tick from the live asset
/// subsystem before handing it to `BBUManager::inform_if_loaded`.
pub struct OracleView {
    pub reports: Vec<OracleReport>,
}

impl OracleView {
    /// The state recorded for `h`: the first report for `h` wins.
    pub open spec fn spec_state(self, h: SceneHandle) -> LoadState {
        spec_find_state(self.reports@, h)
    }

    /// The source path recorded for `h`: the first report for `h` wins.
    pub open spec fn spec_path(self, h: SceneHandle) -> Option<Seq<char>> {
        spec_find_path(self.reports@, h)
    }

    pub fn new() -> (r: OracleView)
        ensures
            r.reports@.len() == 0,
            forall|h: SceneHandle| r.spec_state(h) == LoadState::NotLoaded,
            forall|h: SceneHandle| r.spec_path(h) == Option::<Seq<char>>::None,
    {
        OracleView { reports: Vec::new() }
    }

    /// Record the oracle's answer for one handle. The first report for a
    /// handle wins, so report each handle at most once per snapshot.
    pub fn report(&mut self, handle: SceneHandle, state: LoadState, path: Option<String>)
        ensures
            final(self).reports@ == old(self).reports@.push(OracleReport { handle, state, path }),
            !old(self).spec_has(handle) ==> final(self).spec_state(handle) == state
                && final(self).spec_path(handle) == view_opt_string(path),
            forall|h: SceneHandle| h != handle ==> final(self).spec_state(h) == old(
                self,
            ).spec_state(h) && final(self).spec_path(h) == old(self).spec_path(h),
    {
        let ghost prior = self.reports@;
        self.reports.push(OracleReport { handle, state, path });
        proof {
            lemma_find_push(prior, OracleReport { handle, state, path });
        }
    }

    /// Whether some report mentions `h`.
    pub open spec fn spec_has(self, h: SceneHandle) -> bool {
        exists|i: int| 0 <= i < self.reports@.len() && (#[trigger] self.reports@[i]).handle == h
    }

    /// The state the oracle reports for `h` now.
    pub fn load_state(&self, h: SceneHandle) -> (r: LoadState)
        ensures
            r == self.spec_state(h),
    {
        let n: usize = self.reports.len();
        let mut i: usize = 0;
        proof {
            assert(self.reports@.skip(0) =~= self.reports@);
        }
        while i < n
            invariant
                i <= n,
                n == self.reports@.len(),
                spec_find_state(self.reports@.skip(i as int), h) == self.spec_state(h),
            decreases n - i,
        {
            proof {
                assert(self.reports@.skip(i as int)[0] == self.reports@[i as int]);
                assert(self.reports@.skip(i as int).skip(1) =~= self.reports@.skip(i as int + 1));
            }
            if self.reports[i].handle.id == h.id {
                assert(self.reports@[i as int].handle == h);
                return self.reports[i].state;
            }
            i += 1;
        }
        assert(self.reports@.skip(n as int) =~= Seq::<OracleReport>::empty());
        LoadState::NotLoaded
    }

    /// The best-effort source path the oracle reports for `h` now.
    pub fn source_path(&self, h: SceneHandle) -> (r: Option<String>)
        ensures
            view_opt_string(r) == self.spec_path(h),
    {
        let n: usize = self.reports.len();
        let mut i: usize = 0;
        proof {
            assert(self.reports@.skip(0) =~= self.reports@);
        }
        while i < n
            invariant
                i <= n,
                n == self.reports@.len(),
                spec_find_path(self.reports@.skip(i as int), h) == self.spec_path(h),
            decreases n - i,
        {
            proof {
                assert(self.reports@.skip(i as int)[0] == self.reports@[i as int]);
                assert(self.reports@.skip(i as int).skip(1) =~= self.reports@.skip(i as int + 1));
            }
            if self.reports[i].handle.id == h.id {
                assert(self.reports@[i as int].handle == h);
                return match &self.reports[i].path {
                    Option::None => Option::None,
                    Option::Some(p) => Option::Some(p.clone()),
                };
            }
            i += 1;
        }
        assert(self.reports@.skip(n as int) =~= Seq::<OracleReport>::empty());
        Option::None
    }
}

/// First-match lookup of a state in a report list; `NotLoaded` if absent.
pub open spec fn spec_find_state(s: Seq<OracleReport>, h: SceneHandle) -> LoadState
    decreases s.len(),
{
    if s.len() == 0 {
        LoadState::NotLoaded
    } else if s[0].handle == h {
        s[0].state
    } else {
        spec_find_state(s.skip(1), h)
    }
}

/// First-match lookup of a path in a report list; `None` if absent.
pub open spec fn spec_find_path(s: Seq<OracleReport>, h: SceneHandle) -> Option<Seq<char>>
    decreases s.len(),
{
    if s.len() == 0 {
        Option::None
    } else if s[0].handle == h {
        view_opt_string(s[0].path)
    } else {
        spec_find_path(s.skip(1), h)
    }
}

/// Pushing a report changes the lookups only for a handle not yet reported.
proof fn lemma_find_push(s: Seq<OracleReport>, r: OracleReport)
    ensures
        forall|h: SceneHandle| h != r.handle ==> spec_find_state(s.push(r), h) == spec_find_state(s, h),
        forall|h: SceneHandle| h != r.handle ==> spec_find_path(s.push(r), h) == spec_find_path(s, h),
        (forall|i: int| 0 <= i < s.len() ==> (#[trigger] s[i]).handle != r.handle) ==> {
            &&& spec_find_state(s.push(r), r.handle) == r.state
            &&& spec_find_path(s.push(r), r.handle) == view_opt_string(r.path)
        },
    decreases s.len(),
{
    if s.len() == 0 {
        assert(s.push(r)[0] == r);
        assert(s.push(r).len() == 1);
        assert(s.push(r).skip(1) =~= Seq::<OracleReport>::empty());
        assert forall|h: SceneHandle| h != r.handle implies spec_find_state(s.push(r), h)
            == spec_find_state(s, h) by {
            assert(spec_find_state(s.push(r).skip(1), h) == LoadState::NotLoaded);
        }
        assert forall|h: SceneHandle| h != r.handle implies spec_find_path(s.push(r), h)
            == spec_find_path(s, h) by {
            assert(spec_find_path(s.push(r).skip(1), h) == Option::<Seq<char>>::None);
        }
        assert(spec_find_state(s.push(r), r.handle) == r.state);
        assert(spec_find_path(s.push(r), r.handle) == view_opt_string(r.path));
    } else {
        lemma_find_push(s.skip(1), r);
        assert(s.push(r)[0] == s[0]);
        assert(s.push(r).skip(1) =~= s.skip(1).push(r));
        assert forall|h: SceneHandle| h != r.handle implies spec_find_state(s.push(r), h)
            == spec_find_state(s, h) by {
            if s[0].handle != h {
                assert(spec_find_state(s.push(r), h) == spec_find_state(s.skip(1).push(r), h));
                assert(spec_find_state(s, h) == spec_find_state(s.skip(1), h));
            }
        }
        assert forall|h: SceneHandle| h != r.handle implies spec_find_path(s.push(r), h)
            == spec_find_path(s, h) by {
            if s[0].handle != h {
                assert(spec_find_path(s.push(r), h) == spec_find_path(s.skip(1).push(r), h));
                assert(spec_find_path(s, h) == spec_find_path(s.skip(1), h));
            }
        }
        if forall|i: int| 0 <= i < s.len() ==> (#[trigger] s[i]).handle != r.handle {
            assert(forall|i: int| 0 <= i < s.skip(1).len() ==> s.skip(1)[i] == s[i + 1]);
            assert(forall|i: int| 0 <= i < s.skip(1).len() ==> (#[trigger] s.skip(1)[i]).handle
                != r.handle);
            assert(s[0].handle != r.handle);
            assert(spec_find_state(s.push(r), r.handle) == spec_find_state(
                s.skip(1).push(r),
                r.handle,
            ));
            assert(spec_find_path(s.push(r), r.handle) == spec_find_path(
                s.skip(1).push(r),
                r.handle,
            ));
        }
    }
}

} // verus!
