//! What the watcher of the configuration file makes of what it sees, and how
//! its notifications reach the task that reloads.

use vstd::prelude::*;
use crate::parser::share_config::UpdateConfigureEvent;

verus! {

/// What kind of change a file event reports, as far as the watcher tells the
/// kinds apart.
#[derive(Clone, Copy, Debug, PartialEq, Eq, Structural)]
pub enum FileEventKind {
    /// A handle that was open for writing was closed.
    CloseWrite,
    /// A file was created.
    Create,
    /// Anything else.
    Other,
}

/// A file event in plain values: the file names of the paths it concerns,
/// each as the bytes that the system holds for it, its kind, and whether it
/// says that events may have been missed.
pub struct FileEvent {
    file_names: Vec<Vec<u8>>,
    kind: FileEventKind,
    need_rescan: bool,
}

/// What a `FileEvent` holds.
pub struct FileEventView {
    pub file_names: Seq<Seq<u8>>,
    pub kind: FileEventKind,
    pub need_rescan: bool,
}

/// The names that a list holds.
pub open spec fn names(list: Seq<Vec<u8>>) -> Seq<Seq<u8>> {
    Seq::new(list.len(), |i: int| list[i]@)
}

impl View for FileEvent {
    type V = FileEventView;

    closed spec fn view(&self) -> FileEventView {
        FileEventView {
            file_names: names(self.file_names@),
            kind: self.kind,
            need_rescan: self.need_rescan,
        }
    }
}

impl FileEvent {
    pub fn new(file_names: Vec<Vec<u8>>, kind: FileEventKind, need_rescan: bool) -> (r: Self)
        ensures
            r@ == (FileEventView { file_names: names(file_names@), kind, need_rescan }),
    {
        FileEvent { file_names, kind, need_rescan }
    }
}

/// Whether an event asks for a reload of the file named `file_name`: it
/// concerns that file, and it reports that the file was written and closed,
/// or created, or that events may have been missed.
pub open spec fn qualifies(file_name: Seq<u8>, event: FileEventView) -> bool {
    event.file_names.contains(file_name) && (event.kind == FileEventKind::CloseWrite || event.kind
        == FileEventKind::Create || event.need_rescan)
}

/// Whether two names are the same.
fn same_name(a: &[u8], b: &[u8]) -> (same: bool)
    ensures
        same == (a@ == b@),
{
    if a.len() != b.len() {
        return false;
    }
    let mut i: usize = 0;
    while i < a.len()
        invariant
            i <= a.len(),
            a.len() == b.len(),
            forall|j: int| 0 <= j < i ==> a@[j] == b@[j],
        decreases a.len() - i,
    {
        if a[i] != b[i] {
            return false;
        }
        i += 1;
    }
    assert(a@ =~= b@);
    true
}

/// Whether an event asks for a reload of the file named `file_name`.
pub fn decide(file_name: &[u8], event: &FileEvent) -> (r: bool)
    ensures
        r == qualifies(file_name@, event@),
{
    let mut i: usize = 0;
    while i < event.file_names.len() && !same_name(event.file_names[i].as_slice(), file_name)
        invariant
            i <= event.file_names.len(),
            forall|j: int| 0 <= j < i ==> event@.file_names[j] != file_name@,
        decreases event.file_names.len() - i,
    {
        i += 1;
    }
    if i == event.file_names.len() {
        return false;
    }
    assert(event@.file_names[i as int] == file_name@);
    match event.kind {
        FileEventKind::CloseWrite => true,
        FileEventKind::Create => true,
        FileEventKind::Other => event.need_rescan,
    }
}

/// The one place in which a notification waits for the task that reloads.
/// A request to update that arrives while another waits is merged with it;
/// a request to terminate takes the place of whatever waits.
pub struct Mailbox {
    pending: Option<UpdateConfigureEvent>,
}

impl View for Mailbox {
    type V = Option<UpdateConfigureEvent>;

    closed spec fn view(&self) -> Option<UpdateConfigureEvent> {
        self.pending
    }
}

/// What waits in the mailbox after `event` was posted to it.
pub open spec fn posted(
    pending: Option<UpdateConfigureEvent>,
    event: UpdateConfigureEvent,
) -> Option<UpdateConfigureEvent> {
    match (pending, event) {
        (Some(UpdateConfigureEvent::Terminate), _) => Some(UpdateConfigureEvent::Terminate),
        (_, e) => Some(e),
    }
}

/// What waits in the mailbox after the events were posted to it one after
/// the other.
pub open spec fn posted_all(
    pending: Option<UpdateConfigureEvent>,
    events: Seq<UpdateConfigureEvent>,
) -> Option<UpdateConfigureEvent>
    decreases events.len(),
{
    if events.len() == 0 {
        pending
    } else {
        posted(posted_all(pending, events.drop_last()), events.last())
    }
}

impl Mailbox {
    pub fn new() -> (r: Self)
        ensures
            r@ is None,
    {
        Mailbox { pending: None }
    }

    /// Posts a notification. The answer says whether the task that reloads
    /// has to be woken: it has, unless a notification was waiting already.
    pub fn post(&mut self, event: UpdateConfigureEvent) -> (wake: bool)
        ensures
            final(self)@ == posted(old(self)@, event),
            wake == old(self)@ is None,
    {
        let wake = self.pending.is_none();
        match self.pending {
            Some(UpdateConfigureEvent::Terminate) => {},
            _ => {
                self.pending = Some(event);
            },
        }
        wake
    }

    /// Takes out what waits, and leaves the mailbox empty.
    pub fn take(&mut self) -> (r: Option<UpdateConfigureEvent>)
        ensures
            r == old(self)@,
            final(self)@ is None,
    {
        let r = self.pending;
        self.pending = None;
        r
    }
}

/// Any number of requests to update that are posted while a reload is under
/// way leave exactly one request waiting: the task that reloads reads the
/// file once more, not once for each.
pub proof fn lemma_updates_coalesce(events: Seq<UpdateConfigureEvent>)
    requires
        events.len() > 0,
        forall|i: int| 0 <= i < events.len() ==> events[i] == UpdateConfigureEvent::NeedUpdate,
    ensures
        posted_all(None, events) == Some(UpdateConfigureEvent::NeedUpdate),
    decreases events.len(),
{
    let init = events.drop_last();
    assert(events.last() == UpdateConfigureEvent::NeedUpdate);
    if events.len() > 1 {
        assert forall|i: int| 0 <= i < init.len() implies init[i]
            == UpdateConfigureEvent::NeedUpdate by {
            assert(init[i] == events[i]);
        }
        lemma_updates_coalesce(init);
    } else {
        assert(init.len() == 0);
        assert(posted_all(None, init) is None);
    }
}

/// A request to terminate is never lost: once it was posted, it is what
/// waits, whatever is posted after it.
pub proof fn lemma_terminate_stays(
    pending: Option<UpdateConfigureEvent>,
    events: Seq<UpdateConfigureEvent>,
)
    requires
        exists|i: int| 0 <= i < events.len() && events[i] == UpdateConfigureEvent::Terminate,
    ensures
        posted_all(pending, events) == Some(UpdateConfigureEvent::Terminate),
    decreases events.len(),
{
    let i = choose|i: int| 0 <= i < events.len() && events[i] == UpdateConfigureEvent::Terminate;
    if i < events.len() - 1 {
        assert(events.drop_last()[i] == UpdateConfigureEvent::Terminate);
        lemma_terminate_stays(pending, events.drop_last());
    }
}

} // verus!
