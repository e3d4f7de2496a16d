//! When the reputation list is read again.
use vstd::prelude::*;

use crate::text::same;

verus! {

/// What happened to a file.
#[derive(Debug, Clone, Copy, PartialEq, Eq, Structural)]
pub enum FileEvent {
    Created,
    Removed,
    /// Its contents changed.
    DataModified,
    /// It was renamed.
    NameModified,
    /// It was modified in a way that is not told.
    Modified,
    /// Its attributes changed.
    MetadataModified,
    /// It was modified in another way.
    OtherModified,
    /// It was read.
    Accessed,
    /// Something else.
    Other,
}

impl FileEvent {
    pub open spec fn changes_content(self) -> bool {
        match self {
            FileEvent::Created | FileEvent::Removed | FileEvent::DataModified
            | FileEvent::NameModified | FileEvent::Modified => true,
            FileEvent::MetadataModified | FileEvent::OtherModified | FileEvent::Accessed
            | FileEvent::Other => false,
        }
    }

    /// Whether an event may have changed the contents of a file. Reading a file does not:
    /// the list is read on such events, and would be read for ever.
    pub fn is_content_change(&self) -> (r: bool)
        ensures
            r == self.changes_content(),
    {
        match self {
            FileEvent::Created | FileEvent::Removed | FileEvent::DataModified
            | FileEvent::NameModified | FileEvent::Modified => true,
            FileEvent::MetadataModified | FileEvent::OtherModified | FileEvent::Accessed
            | FileEvent::Other => false,
        }
    }
}

/// An event in a directory, with the names of the files that it is about, where they have
/// one.
#[derive(Debug)]
pub struct DirectoryEvent {
    pub kind: FileEvent,
    pub names: Vec<Option<String>>,
}

/// An event is about a file.
pub open spec fn is_about(event: DirectoryEvent, target: Seq<char>) -> bool {
    exists|i: int|
        0 <= i < event.names@.len() && ((#[trigger] event.names@[i]) matches Some(name) && name@
            == target)
}

/// An event may have changed the contents of a file.
pub open spec fn touches(event: DirectoryEvent, target: Option<Seq<char>>) -> bool {
    event.kind.changes_content() && (target matches Some(name) && is_about(event, name))
}

fn names_file(event: &DirectoryEvent, target: &str) -> (r: bool)
    ensures
        r == is_about(*event, target@),
{
    let n = event.names.len();
    for i in 0..n
        invariant
            n == event.names@.len(),
            forall|j: int|
                0 <= j < i ==> !((#[trigger] event.names@[j]) matches Some(name) && name@
                    == target@),
    {
        match &event.names[i] {
            Some(name) => {
                if same(name.as_str(), target) {
                    assert(event.names@[i as int] is Some);
                    return true;
                }
            },
            None => {},
        }
    }
    false
}

/// Whether events in the directory of the list may have changed it, so that it is to be read
/// again.
pub fn should_reload(events: &Vec<DirectoryEvent>, target: &Option<String>) -> (r: bool)
    ensures
        r == exists|i: int|
            0 <= i < events@.len() && touches(
                #[trigger] events@[i],
                crate::config::optional_text(*target),
            ),
{
    match target {
        None => false,
        Some(name) => {
            let n = events.len();
            for i in 0..n
                invariant
                    n == events@.len(),
                    crate::config::optional_text(*target) == Some(name@),
                    forall|j: int|
                        0 <= j < i ==> !touches(#[trigger] events@[j], Some(name@)),
            {
                if events[i].kind.is_content_change() && names_file(&events[i], name.as_str()) {
                    assert(touches(events@[i as int], Some(name@)));
                    return true;
                }
            }
            false
        },
    }
}

/// The events that may change a file: that it is created, removed, renamed or written, and that
/// it is modified in a way that is not told. Reading it and changing its attributes do not.
pub proof fn lemma_content_changes(e: FileEvent)
    ensures
        e is Created || e is Removed || e is DataModified || e is NameModified || e is Modified
            ==> e.changes_content(),
        e is Accessed || e is MetadataModified || e is OtherModified || e is Other
            ==> !e.changes_content(),
{
}

/// The list is read again for an event that may have changed it, and only for one that names
/// it.
pub proof fn lemma_touches(event: DirectoryEvent, target: Seq<char>, i: int)
    ensures
        0 <= i < event.names@.len() && (event.names@[i] matches Some(name) && name@ == target)
            && event.kind.changes_content() ==> touches(event, Some(target)),
        (forall|k: int|
            0 <= k < event.names@.len() ==> ((#[trigger] event.names@[k]) matches Some(name)
                ==> name@ != target)) ==> !touches(event, Some(target)),
        !event.kind.changes_content() ==> !touches(event, Some(target)),
        !touches(event, None),
{
    if 0 <= i < event.names@.len() && (event.names@[i] matches Some(name) && name@ == target) {
        assert(is_about(event, target));
    }
}

} // verus!
