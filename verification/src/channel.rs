use vstd::prelude::*;
use crate::SceneHandle;
use crate::oracle::view_opt_string;

verus! {

/// Notification of a watched scene asset reaching a terminal load state.
///
/// `Loaded` carries the caller's opaque id, the handle, and the best-effort
/// source path; `Failed` carries only the best-effort path. Exactly one such
/// notification is emitted per watched entry, by `BBUManager::inform_if_loaded`.
pub enum BBUSceneSpawnedEventWithId<Id> {
    Loaded { id: Id, handle: SceneHandle, path: Option<String> },
    Failed { path: Option<String> },
}

/// Idless event alias for convenience.
pub type BBUSceneSpawnedEvent = BBUSceneSpawnedEventWithId<()>;

/// The mathematical model of a notification: the same tag and fields, with
/// the path as a sequence of characters.
pub enum NoteModel<Id> {
    Loaded { id: Id, handle: SceneHandle, path: Option<Seq<char>> },
    Failed { path: Option<Seq<char>> },
}

impl<Id> View for BBUSceneSpawnedEventWithId<Id> {
    type V = NoteModel<Id>;

    open spec fn view(&self) -> NoteModel<Id> {
        match self {
            BBUSceneSpawnedEventWithId::Loaded { id, handle, path } => NoteModel::Loaded {
                id: *id,
                handle: *handle,
                path: view_opt_string(*path),
            },
            BBUSceneSpawnedEventWithId::Failed { path } => NoteModel::Failed {
                path: view_opt_string(*path),
            },
        }
    }
}

/// A broadcast queue of notifications. The tracker appends during
/// `inform_if_loaded`; any number of independent `NotificationReader`s walk
/// the queue at their own pace, each seeing every notification once.
pub struct NotificationQueue<Id> {
    pub events: Vec<BBUSceneSpawnedEventWithId<Id>>,
}

impl<Id> View for NotificationQueue<Id> {
    type V = Seq<NoteModel<Id>>;

    open spec fn view(&self) -> Seq<NoteModel<Id>> {
        self.events@.map_values(|e: BBUSceneSpawnedEventWithId<Id>| e@)
    }
}

impl<Id> NotificationQueue<Id> {
    pub fn new() -> (r: NotificationQueue<Id>)
        ensures
            r@ =~= Seq::<NoteModel<Id>>::empty(),
    {
        NotificationQueue { events: Vec::new() }
    }

    /// Append one notification; every reader will see it.
    pub fn send(&mut self, e: BBUSceneSpawnedEventWithId<Id>)
        ensures
            final(self)@ == old(self)@.push(e@),
    {
        let ghost prior = self.events@;
        let ghost note = e@;
        self.events.push(e);
        proof {
            assert(self@ =~= old(self)@.push(note));
        }
    }

    pub fn len(&self) -> (r: usize)
        ensures
            r == self@.len(),
    {
        self.events.len()
    }

    /// The notification at position `i`, oldest first.
    pub fn get(&self, i: usize) -> (r: &BBUSceneSpawnedEventWithId<Id>)
        requires
            i < self@.len(),
        ensures
            r@ == self@[i as int],
    {
        &self.events[i]
    }
}

/// One independent consumer's position in a `NotificationQueue`. Distinct
/// readers do not disturb each other: each walks the whole queue once.
pub struct NotificationReader {
    pub cursor: usize,
}

impl NotificationReader {
    pub fn new() -> (r: NotificationReader)
        ensures
            r.cursor == 0,
    {
        NotificationReader { cursor: 0 }
    }

    /// The next notification this reader has not yet seen, if any.
    pub fn next<'a, Id>(&mut self, q: &'a NotificationQueue<Id>) -> (r: Option<
        &'a BBUSceneSpawnedEventWithId<Id>,
    >)
        ensures
            old(self).cursor < q@.len() ==> {
                &&& r matches Option::Some(e) && e@ == q@[old(self).cursor as int]
                &&& final(self).cursor == old(self).cursor + 1
            },
            old(self).cursor >= q@.len() ==> r is None && final(self).cursor == old(self).cursor,
    {
        if self.cursor < q.len() {
            let e = q.get(self.cursor);
            self.cursor = self.cursor + 1;
            Option::Some(e)
        } else {
            Option::None
        }
    }
}

} // verus!
