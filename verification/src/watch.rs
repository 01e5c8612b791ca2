//! The path resolver and the classification of file system notifications.
//!
//! Reading the file system is the program's part: it makes each configured
//! path canonical and hands the outcome over; it hands over the canonical
//! path of every change the watcher reports.

use crate::event::{Event, EventView};
use crate::text::same_text;
use vstd::prelude::*;

verus! {

/// One thing to watch: a canonical absolute path, and whether everything
/// below it is watched too.
#[derive(Debug, PartialEq, Eq)]
pub struct WatchTarget {
    pub path: String,
    /// Set for source trees, not set for the binary.
    pub recursive: bool,
}

/// A configured path that does not exist or could not be made canonical.
#[derive(Debug, PartialEq, Eq)]
pub struct PathError {
    /// The path as it was configured.
    pub path: String,
}

/// A configured path and what became of making it canonical.
#[derive(Debug, PartialEq, Eq)]
pub struct Resolution {
    /// The path as it was configured.
    pub configured: String,
    /// Its canonical form; `None` where the file system gave none.
    pub canonical: Option<String>,
}

/// A [`WatchTarget`] as a mathematical value.
pub ghost struct WatchTargetView {
    pub path: Seq<char>,
    pub recursive: bool,
}

/// A [`Resolution`] as a mathematical value.
pub ghost struct ResolutionView {
    pub configured: Seq<char>,
    pub canonical: Option<Seq<char>>,
}

impl View for WatchTarget {
    type V = WatchTargetView;

    open spec fn view(&self) -> WatchTargetView {
        WatchTargetView { path: self.path@, recursive: self.recursive }
    }
}

impl View for Resolution {
    type V = ResolutionView;

    open spec fn view(&self) -> ResolutionView {
        ResolutionView {
            configured: self.configured@,
            canonical: match self.canonical {
                Some(path) => Some(path@),
                None => None,
            },
        }
    }
}

impl View for PathError {
    type V = Seq<char>;

    open spec fn view(&self) -> Seq<char> {
        self.path@
    }
}

/// The views of a list of resolutions, in order.
pub open spec fn resolution_views(list: Seq<Resolution>) -> Seq<ResolutionView> {
    list.map_values(|r: Resolution| r@)
}

/// The views of a list of targets, in order.
pub open spec fn target_views(list: Seq<WatchTarget>) -> Seq<WatchTargetView> {
    list.map_values(|t: WatchTarget| t@)
}

/// The first resolution in `list` that failed stands at position `i`.
pub open spec fn first_failure(list: Seq<ResolutionView>, i: int) -> bool {
    &&& 0 <= i < list.len()
    &&& list[i].canonical is None
    &&& forall|j: int| 0 <= j < i ==> list[j].canonical is Some
}

/// Every resolution in `list` succeeded.
pub open spec fn all_resolved(list: Seq<ResolutionView>) -> bool {
    forall|j: int| 0 <= j < list.len() ==> list[j].canonical is Some
}

/// The targets of a resolved configuration: each source tree, watched
/// recursively, in the order of configuration, then the binary, watched by
/// itself.
pub open spec fn targets_of(binary: Seq<char>, sources: Seq<ResolutionView>) -> Seq<
    WatchTargetView,
> {
    Seq::new(
        sources.len(),
        |i: int| WatchTargetView { path: sources[i].canonical->0, recursive: true },
    ).push(WatchTargetView { path: binary, recursive: false })
}

/// The event that a change at the canonical path `changed` stands for, when
/// `binary` is the canonical path of the binary: `BinaryChanged` at the
/// binary's own path, `Rebuild` anywhere else.
pub open spec fn classify_spec(changed: Seq<char>, binary: Seq<char>) -> EventView {
    if changed == binary {
        EventView::BinaryChanged
    } else {
        EventView::Rebuild
    }
}

/// The events of one notification: one for each changed path that has a
/// canonical form, in the order of the notification. Nothing is merged and
/// nothing is left out.
pub open spec fn notification_spec(paths: Seq<Option<Seq<char>>>, binary: Seq<char>) -> Seq<
    EventView,
>
    decreases paths.len(),
{
    if paths.len() == 0 {
        seq![]
    } else {
        let before = notification_spec(paths.drop_last(), binary);
        match paths.last() {
            Some(changed) => before.push(classify_spec(changed, binary)),
            None => before,
        }
    }
}

/// The canonical forms in a list of optional paths.
pub open spec fn path_views(paths: Seq<Option<String>>) -> Seq<Option<Seq<char>>> {
    paths.map_values(
        |p: Option<String>|
            match p {
                Some(path) => Some(path@),
                None => None,
            },
    )
}

/// Resolves the watch targets. The binary is looked at first, then the
/// source paths in order; the first path without a canonical form is the
/// error.
pub fn resolve(binary: &Resolution, sources: &Vec<Resolution>) -> (r: Result<
    Vec<WatchTarget>,
    PathError,
>)
    ensures
        match r {
            Ok(targets) => {
                &&& binary@.canonical is Some
                &&& all_resolved(resolution_views(sources@))
                &&& target_views(targets@) == targets_of(
                    binary@.canonical->0,
                    resolution_views(sources@),
                )
            },
            Err(error) => {
                ||| binary@.canonical is None && error@ == binary@.configured
                ||| binary@.canonical is Some && exists|i: int|
                    first_failure(resolution_views(sources@), i) && error@ == resolution_views(
                        sources@,
                    )[i].configured
            },
        },
{
    let binary_path = match &binary.canonical {
        Some(path) => path.clone(),
        None => {
            return Err(PathError { path: binary.configured.clone() });
        },
    };
    let ghost list = resolution_views(sources@);
    let mut targets: Vec<WatchTarget> = Vec::new();
    let mut i: usize = 0;
    while i < sources.len()
        invariant
            i <= sources.len(),
            binary@.canonical is Some,
            list == resolution_views(sources@),
            targets.len() == i,
            forall|j: int| 0 <= j < i ==> (#[trigger] list[j]).canonical is Some,
            forall|k: int|
                0 <= k < i ==> (#[trigger] targets[k])@ == (WatchTargetView {
                    path: list[k].canonical->0,
                    recursive: true,
                }),
        decreases sources.len() - i,
    {
        assert(list[i as int] == sources[i as int]@);
        match &sources[i].canonical {
            Some(path) => {
                targets.push(WatchTarget { path: path.clone(), recursive: true });
            },
            None => {
                let error = PathError { path: sources[i].configured.clone() };
                assert(first_failure(list, i as int) && error@ == list[i as int].configured);
                return Err(error);
            },
        }
        i += 1;
    }
    targets.push(WatchTarget { path: binary_path, recursive: false });
    assert(target_views(targets@) =~= targets_of(binary@.canonical->0, list));
    Ok(targets)
}

/// Classifies one change: `changed` and `binary` are canonical paths.
pub fn classify_change(changed: &str, binary: &str) -> (r: Event)
    ensures
        r@ == classify_spec(changed@, binary@),
{
    if same_text(changed, binary) {
        Event::BinaryChanged
    } else {
        Event::Rebuild
    }
}

/// Classifies one notification of the watcher. `paths` holds, for each path
/// the notification names, its canonical form, or `None` where it has none.
pub fn classify_notification(paths: &Vec<Option<String>>, binary: &str) -> (r: Vec<Event>)
    ensures
        crate::event::views(r@) == notification_spec(path_views(paths@), binary@),
{
    let mut events: Vec<Event> = Vec::new();
    let mut i: usize = 0;
    while i < paths.len()
        invariant
            i <= paths.len(),
            crate::event::views(events@) == notification_spec(
                path_views(paths@).take(i as int),
                binary@,
            ),
        decreases paths.len() - i,
    {
        proof {
            let all = path_views(paths@);
            assert(all.take(i + 1).drop_last() =~= all.take(i as int));
            assert(all.take(i + 1).last() == all[i as int]);
        }
        let ghost before = crate::event::views(events@);
        match &paths[i] {
            Some(changed) => {
                let event = classify_change(changed.as_str(), binary);
                events.push(event);
                assert(crate::event::views(events@) =~= before.push(
                    classify_spec(changed@, binary@),
                ));
            },
            None => {},
        }
        i += 1;
    }
    assert(path_views(paths@).take(paths.len() as int) =~= path_views(paths@));
    events
}

/// A notification is classified path by path: where every path has a
/// canonical form, there is one event for each path, in the order of the
/// paths, and it is the classification of that path. Nothing is merged:
/// as many paths, as many events.
pub proof fn one_event_for_each_path(paths: Seq<Option<Seq<char>>>, binary: Seq<char>)
    requires
        forall|i: int| 0 <= i < paths.len() ==> (#[trigger] paths[i]) is Some,
    ensures
        notification_spec(paths, binary).len() == paths.len(),
        forall|i: int|
            0 <= i < paths.len() ==> #[trigger] notification_spec(paths, binary)[i]
                == classify_spec(paths[i]->0, binary),
    decreases paths.len(),
{
    if paths.len() > 0 {
        one_event_for_each_path(paths.drop_last(), binary);
        assert(paths[paths.len() - 1] is Some);
        let before = notification_spec(paths.drop_last(), binary);
        assert forall|i: int| 0 <= i < paths.len() implies #[trigger] notification_spec(
            paths,
            binary,
        )[i] == classify_spec(paths[i]->0, binary) by {
            if i < paths.len() - 1 {
                assert(before[i] == classify_spec(paths.drop_last()[i]->0, binary));
            }
        }
    }
}

/// Changes at the binary's own path are `BinaryChanged`, one for each path,
/// and no `Rebuild`.
pub proof fn changes_at_the_binary(paths: Seq<Option<Seq<char>>>, binary: Seq<char>)
    requires
        forall|i: int| 0 <= i < paths.len() ==> #[trigger] paths[i] == Some(binary),
    ensures
        notification_spec(paths, binary).len() == paths.len(),
        forall|i: int|
            0 <= i < paths.len() ==> #[trigger] notification_spec(paths, binary)[i]
                == EventView::BinaryChanged,
{
    one_event_for_each_path(paths, binary);
    assert forall|i: int| 0 <= i < paths.len() implies #[trigger] notification_spec(
        paths,
        binary,
    )[i] == EventView::BinaryChanged by {
        assert(paths[i] == Some(binary));
    }
}

/// Changes at canonical paths other than the binary's are `Rebuild`, one
/// for each path, and no `BinaryChanged`.
pub proof fn changes_elsewhere(paths: Seq<Option<Seq<char>>>, binary: Seq<char>)
    requires
        forall|i: int|
            0 <= i < paths.len() ==> (#[trigger] paths[i]) is Some && paths[i]->0 != binary,
    ensures
        notification_spec(paths, binary).len() == paths.len(),
        forall|i: int|
            0 <= i < paths.len() ==> #[trigger] notification_spec(paths, binary)[i]
                == EventView::Rebuild,
{
    one_event_for_each_path(paths, binary);
    assert forall|i: int| 0 <= i < paths.len() implies #[trigger] notification_spec(
        paths,
        binary,
    )[i] == EventView::Rebuild by {
        assert(paths[i] is Some && paths[i]->0 != binary);
    }
}

} // verus!
