//! Turns snapshots of the host's screen into window events.

use crate::classify::{classify, kind_of};
use crate::ids::{in_order, listed, lists, sorted_keys};
use crate::model::{SnapshotWindow, WindowInfo};
use crate::protocol::{WindowId, WindowKind};
use crate::scalar::Scalar;
use std::collections::{HashMap, HashSet};
use vstd::prelude::*;

verus! {

broadcast use vstd::std_specs::hash::group_hash_axioms;

pub trait WindowSnapshotSource {
    /// Current windows of interest, front-to-back order.
    fn snapshot(&mut self) -> Vec<SnapshotWindow>;
}

#[derive(Debug, PartialEq)]
pub enum TrackerEvent {
    Opened { window: SnapshotWindow },
    Closed { window_id: WindowId },
    Minimized { window_id: WindowId },
    Restored { window_id: WindowId },
    Resized { window_id: WindowId, width: Scalar, height: Scalar },
    TitleChanged { window_id: WindowId, title: String },
}

/// A window that the client was told of.
pub struct LiveWindow {
    pub info: WindowInfo,
    pub pid: i32,
    pub minimized: bool,
    pub last_unminimized_size: (Scalar, Scalar),
}

/// The windows of the shared applications.
pub struct AppTracker {
    pids: HashSet<i32>,
    live: HashMap<WindowId, LiveWindow>,
}

/// What an [`AppTracker`] knows.
pub ghost struct TrackerView {
    pub pids: Set<i32>,
    pub live: Map<WindowId, LiveWindow>,
}

impl View for AppTracker {
    type V = TrackerView;

    closed spec fn view(&self) -> TrackerView {
        TrackerView { pids: self.pids@, live: self.live@ }
    }
}

impl TrackerView {
    /// A window is filed under its id and belongs to a shared application, and
    /// while it is not minimized its last size is the one it has.
    pub open spec fn wf(self) -> bool {
        forall|id: WindowId| #[trigger]
            self.live.contains_key(id) ==> {
                &&& self.live[id].info.id == id
                &&& self.pids.contains(self.live[id].pid)
                &&& !self.live[id].minimized ==> self.live[id].last_unminimized_size == (
                    self.live[id].info.width,
                    self.live[id].info.height,
                )
            }
    }

    /// Without an application and its windows.
    pub open spec fn without_pid(self, pid: i32) -> TrackerView {
        TrackerView {
            pids: self.pids.remove(pid),
            live: self.live.remove_keys(ids_of_pid(self.live, pid)),
        }
    }
}

/// Whether a window is announced: a normal window of a shared application.
/// Sheets and transients composite into their parent window's stream.
pub open spec fn is_ours(pids: Set<i32>, w: SnapshotWindow) -> bool {
    pids.contains(w.pid) && kind_of(w.layer, w.ax_role) == WindowKind::Normal
}

/// The announced windows of a snapshot, in its order.
pub open spec fn ours_of(pids: Set<i32>, snapshot: Seq<SnapshotWindow>) -> Seq<SnapshotWindow>
    decreases snapshot.len(),
{
    if snapshot.len() == 0 {
        Seq::empty()
    } else {
        let before = ours_of(pids, snapshot.drop_last());
        if is_ours(pids, snapshot.last()) {
            before.push(snapshot.last())
        } else {
            before
        }
    }
}

/// Whether a window of that id is among `ours`.
pub open spec fn seen(ours: Seq<SnapshotWindow>, id: WindowId) -> bool {
    exists|i: int| 0 <= i < ours.len() && (#[trigger] ours[i]).info.id == id
}

/// The live windows that are no longer there.
pub open spec fn gone_ids(live: Map<WindowId, LiveWindow>, ours: Seq<SnapshotWindow>) -> Set<
    WindowId,
> {
    Set::new(|id: WindowId| live.contains_key(id) && !seen(ours, id))
}

/// The closing events of some windows.
pub open spec fn closings(ids: Seq<WindowId>) -> Seq<TrackerEvent> {
    ids.map_values(|id: WindowId| TrackerEvent::Closed { window_id: id })
}

/// A window as it is tracked once opened.
pub open spec fn opened(w: SnapshotWindow) -> LiveWindow {
    LiveWindow {
        info: w.info,
        pid: w.pid,
        minimized: w.minimized,
        last_unminimized_size: (w.info.width, w.info.height),
    }
}

/// The live windows after those of `ours` that are new were opened.
pub open spec fn live_opened(live: Map<WindowId, LiveWindow>, ours: Seq<SnapshotWindow>) -> Map<
    WindowId,
    LiveWindow,
>
    decreases ours.len(),
{
    if ours.len() == 0 {
        live
    } else {
        let before = live_opened(live, ours.drop_last());
        let w = ours.last();
        if before.contains_key(w.info.id) {
            before
        } else {
            before.insert(w.info.id, opened(w))
        }
    }
}

/// The events of one window's opening; one born minimized opens, then
/// minimizes.
pub open spec fn opening(w: SnapshotWindow) -> Seq<TrackerEvent> {
    seq![TrackerEvent::Opened { window: w }] + (if w.minimized {
        seq![TrackerEvent::Minimized { window_id: w.info.id }]
    } else {
        Seq::empty()
    })
}

/// The events of the new windows' openings, in front-to-back order.
pub open spec fn openings(live: Map<WindowId, LiveWindow>, ours: Seq<SnapshotWindow>) -> Seq<
    TrackerEvent,
>
    decreases ours.len(),
{
    if ours.len() == 0 {
        Seq::empty()
    } else {
        let before = openings(live, ours.drop_last());
        let w = ours.last();
        if live_opened(live, ours.drop_last()).contains_key(w.info.id) {
            before
        } else {
            before + opening(w)
        }
    }
}

/// Whether two sizes are the same numbers.
pub open spec fn same_size(a: (Scalar, Scalar), b: (Scalar, Scalar)) -> bool {
    a.0.same_number(b.0) && a.1.same_number(b.1)
}

pub open spec fn size_of_window(w: WindowInfo) -> (Scalar, Scalar) {
    (w.width, w.height)
}

/// A tracked window brought up to date.
pub open spec fn updated(t: LiveWindow, w: SnapshotWindow) -> LiveWindow {
    LiveWindow {
        info: w.info,
        pid: t.pid,
        minimized: w.minimized,
        last_unminimized_size: if w.minimized {
            t.last_unminimized_size
        } else {
            size_of_window(w.info)
        },
    }
}

/// The events of one window's changes: minimizing or restoring; a new size,
/// while it is on screen, and at its restoring when the size changed in the
/// meantime; a new title. A move makes none.
pub open spec fn changes(t: LiveWindow, w: SnapshotWindow) -> Seq<TrackerEvent> {
    let id = w.info.id;
    let resized = seq![
        TrackerEvent::Resized { window_id: id, width: w.info.width, height: w.info.height },
    ];
    (if w.minimized && !t.minimized {
        seq![TrackerEvent::Minimized { window_id: id }]
    } else if !w.minimized && t.minimized {
        seq![TrackerEvent::Restored { window_id: id }] + (if same_size(
            size_of_window(w.info),
            t.last_unminimized_size,
        ) {
            Seq::empty()
        } else {
            resized
        })
    } else if !w.minimized && !same_size(size_of_window(w.info), size_of_window(t.info)) {
        resized
    } else {
        Seq::empty()
    }) + (if w.info.title@ == t.info.title@ {
        Seq::empty()
    } else {
        seq![TrackerEvent::TitleChanged { window_id: id, title: w.info.title }]
    })
}

/// The live windows after those of `ours` were brought up to date.
pub open spec fn live_updated(live: Map<WindowId, LiveWindow>, ours: Seq<SnapshotWindow>) -> Map<
    WindowId,
    LiveWindow,
>
    decreases ours.len(),
{
    if ours.len() == 0 {
        live
    } else {
        let before = live_updated(live, ours.drop_last());
        let w = ours.last();
        if before.contains_key(w.info.id) {
            before.insert(w.info.id, updated(before[w.info.id], w))
        } else {
            before
        }
    }
}

/// The events of the windows' changes.
pub open spec fn updates(live: Map<WindowId, LiveWindow>, ours: Seq<SnapshotWindow>) -> Seq<
    TrackerEvent,
>
    decreases ours.len(),
{
    if ours.len() == 0 {
        Seq::empty()
    } else {
        let before = live_updated(live, ours.drop_last());
        let w = ours.last();
        updates(live, ours.drop_last()) + (if before.contains_key(w.info.id) {
            changes(before[w.info.id], w)
        } else {
            Seq::empty()
        })
    }
}

/// The live windows after a snapshot.
pub open spec fn diff_live(t: TrackerView, snapshot: Seq<SnapshotWindow>) -> Map<
    WindowId,
    LiveWindow,
> {
    let ours = ours_of(t.pids, snapshot);
    let kept = t.live.remove_keys(gone_ids(t.live, ours));
    live_updated(live_opened(kept, ours), ours)
}

/// The events of a snapshot: closings first, in the order of ids, then
/// openings, then changes.
pub open spec fn diff_events(t: TrackerView, snapshot: Seq<SnapshotWindow>) -> Seq<TrackerEvent> {
    let ours = ours_of(t.pids, snapshot);
    let gone = gone_ids(t.live, ours);
    let kept = t.live.remove_keys(gone);
    closings(in_order(gone)) + openings(kept, ours) + updates(live_opened(kept, ours), ours)
}

fn seen_in(ours: &Vec<SnapshotWindow>, id: WindowId) -> (b: bool)
    ensures
        b == seen(ours@, id),
{
    let mut i: usize = 0;
    while i < ours.len()
        invariant
            i <= ours@.len(),
            forall|j: int| 0 <= j < i ==> (#[trigger] ours@[j]).info.id != id,
        decreases ours@.len() - i,
    {
        if ours[i].info.id == id {
            return true;
        }
        i += 1;
    }
    false
}

fn same_sizes(a: (Scalar, Scalar), b: (Scalar, Scalar)) -> (r: bool)
    ensures
        r == same_size(a, b),
{
    a.0 == b.0 && a.1 == b.1
}

impl AppTracker {
    pub fn new(pids: &[i32]) -> (t: AppTracker)
        ensures
            t@.wf(),
            t@.live == Map::<WindowId, LiveWindow>::empty(),
            forall|p: i32| #[trigger] t@.pids.contains(p) <==> pids@.contains(p),
    {
        let mut set: HashSet<i32> = HashSet::new();
        let mut i: usize = 0;
        while i < pids.len()
            invariant
                i <= pids@.len(),
                forall|p: i32|
                    set@.contains(p) <==> exists|j: int| 0 <= j < i && #[trigger] pids@[j] == p,
            decreases pids@.len() - i,
        {
            let ghost before = set@;
            let _ = set.insert(pids[i]);
            assert forall|p: i32|
                set@.contains(p) <==> exists|j: int| 0 <= j < i + 1 && #[trigger] pids@[j] == p by {
                if before.contains(p) {
                    let j = choose|j: int| 0 <= j < i && #[trigger] pids@[j] == p;
                    assert(0 <= j < i + 1 && pids@[j] == p);
                }
                if p == pids@[i as int] {
                    assert(0 <= i < i + 1 && pids@[i as int] == p);
                }
            }
            i += 1;
        }
        let t = AppTracker { pids: set, live: HashMap::new() };
        assert(t.live@ =~= Map::<WindowId, LiveWindow>::empty());
        assert forall|p: i32| t@.pids.contains(p) <==> pids@.contains(p) by {
            if pids@.contains(p) {
                let j = choose|j: int| 0 <= j < pids@.len() && pids@[j] == p;
                assert(0 <= j < i && pids@[j] == p);
            }
        }
        t
    }

    /// The windows of a snapshot that are announced.
    fn ours(&self, snapshot: Vec<SnapshotWindow>) -> (ours: Vec<SnapshotWindow>)
        ensures
            ours@ == ours_of(self@.pids, snapshot@),
    {
        let mut ours: Vec<SnapshotWindow> = Vec::new();
        let ghost all = snapshot@;
        assert(all.take(0) =~= Seq::<SnapshotWindow>::empty());
        for w in it: snapshot
            invariant
                it.seq() == all,
                ours@ == ours_of(self@.pids, all.take(it.index() as int)),
        {
            assert(all.take(it.index() + 1).drop_last() =~= all.take(it.index() as int));
            assert(all.take(it.index() + 1).last() == w);
            if self.pids.contains(&w.pid) && classify(w.layer, w.ax_role) == WindowKind::Normal {
                ours.push(w);
            }
        }
        assert(all.take(all.len() as int) =~= all);
        ours
    }

    /// Forgets the live windows that are not among `ours`.
    fn close_gone(&mut self, ours: &Vec<SnapshotWindow>, events: &mut Vec<TrackerEvent>)
        ensures
            final(self)@.pids == old(self)@.pids,
            final(self)@.live == old(self)@.live.remove_keys(gone_ids(old(self)@.live, ours@)),
            final(events)@ == old(events)@ + closings(
                in_order(gone_ids(old(self)@.live, ours@)),
            ),
    {
        let ghost live = self.live@;
        let ghost start = events@;
        let ghost goners = gone_ids(live, ours@);
        let ids: Vec<u32> = sorted_keys(&self.live);
        let mut gone: Vec<u32> = Vec::new();
        let mut i: usize = 0;
        while i < ids.len()
            invariant
                i <= ids@.len(),
                lists(ids@, live.dom()),
                self@.pids == old(self)@.pids,
                forall|k: int, l: int| 0 <= k < l < gone@.len() ==> gone@[k] < gone@[l],
                forall|k: int| 0 <= k < gone@.len() && i < ids@.len() ==> #[trigger] gone@[k]
                    < ids@[i as int],
                forall|id: u32|
                    gone@.contains(id) <==> !seen(ours@, id) && exists|j: int|
                        0 <= j < i && #[trigger] ids@[j] == id,
                forall|id: u32| #[trigger]
                    self.live@.contains_key(id) <==> live.contains_key(id) && !gone@.contains(id),
                forall|id: u32| #[trigger]
                    self.live@.contains_key(id) ==> self.live@[id] == live[id],
                events@ == start + closings(gone@),
            decreases ids@.len() - i,
        {
            let id: u32 = ids[i];
            let ghost before = gone@;
            if !seen_in(ours, id) {
                let _ = self.live.remove(&id);
                events.push(TrackerEvent::Closed { window_id: id });
                gone.push(id);
                assert(events@ =~= start + closings(gone@));
            }
            assert forall|x: u32|
                gone@.contains(x) <==> !seen(ours@, x) && exists|j: int|
                    0 <= j < i + 1 && #[trigger] ids@[j] == x by {
                if before.contains(x) {
                    let k = choose|k: int| 0 <= k < before.len() && before[k] == x;
                    assert(gone@[k] == x);
                    let j = choose|j: int| 0 <= j < i && #[trigger] ids@[j] == x;
                    assert(0 <= j < i + 1 && ids@[j] == x);
                }
                if x == id {
                    assert(0 <= i < i + 1 && ids@[i as int] == x);
                    if !seen(ours@, id) {
                        assert(gone@[before.len() as int] == x);
                    }
                }
                if gone@.contains(x) && x != id {
                    let k = choose|k: int| 0 <= k < gone@.len() && gone@[k] == x;
                    assert(before[k] == x);
                }
            }
            assert forall|x: u32| gone@.contains(x) <==> before.contains(x) || (x == id && !seen(
                ours@,
                id,
            )) by {
                if before.contains(x) {
                    let k = choose|k: int| 0 <= k < before.len() && before[k] == x;
                    assert(gone@[k] == x);
                }
            }
            i += 1;
        }
        proof {
            assert forall|id: u32| goners.contains(id) <==> gone@.contains(id) by {
                if live.contains_key(id) {
                    assert(ids@.contains(id));
                    let j = choose|j: int| 0 <= j < ids@.len() && ids@[j] == id;
                    assert(0 <= j < i && ids@[j] == id);
                }
                if gone@.contains(id) {
                    let j = choose|j: int| 0 <= j < i && #[trigger] ids@[j] == id;
                    assert(ids@.contains(id));
                }
            }
            assert(lists(gone@, goners));
            listed(gone@, goners);
            assert(self.live@ =~= live.remove_keys(goners));
        }
    }

    /// Opens the windows of `ours` that are not live yet, in front-to-back
    /// snapshot order.
    fn open_new(&mut self, ours: &Vec<SnapshotWindow>, events: &mut Vec<TrackerEvent>)
        ensures
            final(self)@.pids == old(self)@.pids,
            final(self)@.live == live_opened(old(self)@.live, ours@),
            final(events)@ == old(events)@ + openings(old(self)@.live, ours@),
    {
        let ghost live = self.live@;
        let ghost start = events@;
        let mut i: usize = 0;
        assert(ours@.take(0) =~= Seq::<SnapshotWindow>::empty());
        assert(events@ =~= start + openings(live, ours@.take(0)));
        while i < ours.len()
            invariant
                i <= ours@.len(),
                self@.pids == old(self)@.pids,
                self.live@ == live_opened(live, ours@.take(i as int)),
                events@ == start + openings(live, ours@.take(i as int)),
            decreases ours@.len() - i,
        {
            let w: &SnapshotWindow = &ours[i];
            assert(ours@.take(i + 1).drop_last() =~= ours@.take(i as int));
            assert(ours@.take(i + 1).last() == *w);
            let ghost before = events@;
            if !self.live.contains_key(&w.info.id) {
                events.push(TrackerEvent::Opened { window: w.clone() });
                let fresh = LiveWindow {
                    info: w.info.clone(),
                    pid: w.pid,
                    minimized: w.minimized,
                    last_unminimized_size: (w.info.width, w.info.height),
                };
                let _ = self.live.insert(w.info.id, fresh);
                if w.minimized {
                    events.push(TrackerEvent::Minimized { window_id: w.info.id });
                }
                assert(events@ =~= before + opening(*w));
            }
            assert(events@ =~= start + openings(live, ours@.take(i + 1)));
            i += 1;
        }
        assert(ours@.take(i as int) =~= ours@);
    }

    /// Brings the live windows up to date.
    fn update_live(&mut self, ours: &Vec<SnapshotWindow>, events: &mut Vec<TrackerEvent>)
        ensures
            final(self)@.pids == old(self)@.pids,
            final(self)@.live == live_updated(old(self)@.live, ours@),
            final(events)@ == old(events)@ + updates(old(self)@.live, ours@),
    {
        let ghost live = self.live@;
        let ghost start = events@;
        let mut i: usize = 0;
        assert(ours@.take(0) =~= Seq::<SnapshotWindow>::empty());
        assert(events@ =~= start + updates(live, ours@.take(0)));
        while i < ours.len()
            invariant
                i <= ours@.len(),
                self@.pids == old(self)@.pids,
                self.live@ == live_updated(live, ours@.take(i as int)),
                events@ == start + updates(live, ours@.take(i as int)),
            decreases ours@.len() - i,
        {
            let w: &SnapshotWindow = &ours[i];
            assert(ours@.take(i + 1).drop_last() =~= ours@.take(i as int));
            assert(ours@.take(i + 1).last() == *w);
            let ghost before = events@;
            let ghost live_before = self.live@;
            match self.live.remove(&w.info.id) {
                Some(t) => {
                    let ghost old_t = t;
                    push_changes(events, &t, w);
                    let size: (Scalar, Scalar) = (w.info.width, w.info.height);
                    let fresh = LiveWindow {
                        info: w.info.clone(),
                        pid: t.pid,
                        minimized: w.minimized,
                        last_unminimized_size: if w.minimized {
                            t.last_unminimized_size
                        } else {
                            size
                        },
                    };
                    assert(fresh == updated(old_t, *w));
                    let _ = self.live.insert(w.info.id, fresh);
                    assert(self.live@ =~= live_before.insert(w.info.id, fresh));
                },
                None => {
                    assert(self.live@ =~= live_before);
                },
            }
            assert(events@ =~= start + updates(live, ours@.take(i + 1)));
            i += 1;
        }
        assert(ours@.take(i as int) =~= ours@);
    }

    /// Takes the next snapshot of the screen and says what changed.
    pub fn diff(&mut self, snapshot: Vec<SnapshotWindow>) -> (events: Vec<TrackerEvent>)
        ensures
            final(self)@.pids == old(self)@.pids,
            final(self)@.live == diff_live(old(self)@, snapshot@),
            events@ == diff_events(old(self)@, snapshot@),
    {
        let ours: Vec<SnapshotWindow> = self.ours(snapshot);
        let mut events: Vec<TrackerEvent> = Vec::new();
        self.close_gone(&ours, &mut events);
        self.open_new(&ours, &mut events);
        self.update_live(&ours, &mut events);
        assert(events@ =~= diff_events(old(self)@, snapshot@));
        events
    }

    pub fn geometry(&self, id: WindowId) -> (r: Option<&WindowInfo>)
        ensures
            match r {
                Some(info) => self@.live.contains_key(id) && *info == self@.live[id].info,
                None => !self@.live.contains_key(id),
            },
    {
        match self.live.get(&id) {
            Some(t) => Some(&t.info),
            None => None,
        }
    }

    pub fn pid_of(&self, id: WindowId) -> (r: Option<i32>)
        ensures
            r == (if self@.live.contains_key(id) {
                Some(self@.live[id].pid)
            } else {
                None
            }),
    {
        match self.live.get(&id) {
            Some(t) => Some(t.pid),
            None => None,
        }
    }

    pub fn pid_map(&self) -> (m: HashMap<WindowId, i32>)
        ensures
            m@ == self@.live.map_values(|t: LiveWindow| t.pid),
    {
        let mut m: HashMap<WindowId, i32> = HashMap::new();
        let ids: Vec<u32> = sorted_keys(&self.live);
        let mut i: usize = 0;
        while i < ids.len()
            invariant
                i <= ids@.len(),
                lists(ids@, self.live@.dom()),
                forall|id: u32| #[trigger] m@.contains_key(id) <==> ids@.take(i as int).contains(id),
                forall|id: u32| #[trigger]
                    m@.contains_key(id) ==> self.live@.contains_key(id) && m@[id]
                        == self.live@[id].pid,
            decreases ids@.len() - i,
        {
            let id: u32 = ids[i];
            assert(ids@.contains(id));
            if let Some(t) = self.live.get(&id) {
                let _ = m.insert(id, t.pid);
            }
            proof {
                let some = ids@.take(i as int);
                let more = ids@.take(i + 1);
                assert(more =~= some.push(id));
                assert forall|x: u32| more.contains(x) <==> some.contains(x) || x == id by {
                    if some.contains(x) {
                        let k = choose|k: int| 0 <= k < some.len() && some[k] == x;
                        assert(more[k] == x);
                    }
                    if x == id {
                        assert(more[i as int] == x);
                    }
                }
            }
            i += 1;
        }
        assert(ids@.take(i as int) =~= ids@);
        assert(m@ =~= self@.live.map_values(|t: LiveWindow| t.pid));
        m
    }

    /// Stops tracking `pid` (client unsubscribed the app): removes it from
    /// the shared set and forgets its live windows. Returns the forgotten
    /// window ids so the session can tear down their tracks. No `Closed`
    /// events are emitted: the client side that displayed them is gone.
    pub fn remove_pid(&mut self, pid: i32) -> (ids: Vec<WindowId>)
        ensures
            final(self)@ == old(self)@.without_pid(pid),
            ids@ == in_order(ids_of_pid(old(self)@.live, pid)),
            forall|id: WindowId| ids@.contains(id) <==> ids_of_pid(old(self)@.live, pid).contains(
                id,
            ),
    {
        let ghost live = self.live@;
        let ghost goners = ids_of_pid(live, pid);
        let _ = self.pids.remove(&pid);
        assert(self.pids@ =~= old(self).pids@.remove(pid));
        let all: Vec<u32> = sorted_keys(&self.live);
        let mut gone: Vec<u32> = Vec::new();
        let mut i: usize = 0;
        while i < all.len()
            invariant
                i <= all@.len(),
                lists(all@, live.dom()),
                self@.pids == old(self)@.pids.remove(pid),
                forall|k: int, l: int| 0 <= k < l < gone@.len() ==> gone@[k] < gone@[l],
                forall|k: int| 0 <= k < gone@.len() && i < all@.len() ==> #[trigger] gone@[k]
                    < all@[i as int],
                forall|id: u32|
                    gone@.contains(id) <==> live[id].pid == pid && exists|j: int|
                        0 <= j < i && #[trigger] all@[j] == id,
                forall|id: u32| #[trigger]
                    self.live@.contains_key(id) <==> live.contains_key(id) && !gone@.contains(id),
                forall|id: u32| #[trigger]
                    self.live@.contains_key(id) ==> self.live@[id] == live[id],
            decreases all@.len() - i,
        {
            let id: u32 = all[i];
            assert(all@.contains(id));
            assert(live.contains_key(id));
            assert(!gone@.contains(id));
            let ghost before = gone@;
            let its: bool = match self.live.get(&id) {
                Some(t) => t.pid == pid,
                None => false,
            };
            assert(its == (live[id].pid == pid));
            if its {
                let _ = self.live.remove(&id);
                gone.push(id);
            }
            assert forall|x: u32| gone@.contains(x) <==> before.contains(x) || (x == id && its) by {
                if before.contains(x) {
                    let k = choose|k: int| 0 <= k < before.len() && before[k] == x;
                    assert(gone@[k] == x);
                }
                if x == id && its {
                    assert(gone@[before.len() as int] == x);
                }
                if gone@.contains(x) && x != id {
                    let k = choose|k: int| 0 <= k < gone@.len() && gone@[k] == x;
                    assert(before[k] == x);
                }
            }
            assert forall|x: u32|
                gone@.contains(x) <==> live[x].pid == pid && exists|j: int|
                    0 <= j < i + 1 && #[trigger] all@[j] == x by {
                if before.contains(x) {
                    let j = choose|j: int| 0 <= j < i && #[trigger] all@[j] == x;
                    assert(0 <= j < i + 1 && all@[j] == x);
                }
                if x == id {
                    assert(0 <= i < i + 1 && all@[i as int] == x);
                }
            }
            i += 1;
        }
        proof {
            assert forall|id: u32| goners.contains(id) <==> gone@.contains(id) by {
                if live.contains_key(id) {
                    assert(all@.contains(id));
                    let j = choose|j: int| 0 <= j < all@.len() && all@[j] == id;
                    assert(0 <= j < i && all@[j] == id);
                }
                if gone@.contains(id) {
                    let j = choose|j: int| 0 <= j < i && #[trigger] all@[j] == id;
                    assert(all@.contains(id));
                }
            }
            assert(lists(gone@, goners));
            listed(gone@, goners);
            assert(self.live@ =~= live.remove_keys(goners));
        }
        gone
    }
}

/// The live windows of an application.
pub open spec fn ids_of_pid(live: Map<WindowId, LiveWindow>, pid: i32) -> Set<WindowId> {
    Set::new(|id: WindowId| live.contains_key(id) && live[id].pid == pid)
}

/// Appends the events of one window's changes.
fn push_changes(events: &mut Vec<TrackerEvent>, t: &LiveWindow, w: &SnapshotWindow)
    ensures
        final(events)@ == old(events)@ + changes(*t, *w),
{
    let ghost start = events@;
    let id: WindowId = w.info.id;
    let size: (Scalar, Scalar) = (w.info.width, w.info.height);
    let mut resized: bool = false;
    if w.minimized != t.minimized {
        if w.minimized {
            events.push(TrackerEvent::Minimized { window_id: id });
        } else {
            events.push(TrackerEvent::Restored { window_id: id });
            // Catch up if the size changed while minimized.
            resized = !same_sizes(size, t.last_unminimized_size);
        }
    } else if !w.minimized {
        resized = !same_sizes(size, (t.info.width, t.info.height));
    }
    if resized {
        events.push(
            TrackerEvent::Resized { window_id: id, width: w.info.width, height: w.info.height },
        );
    }
    // A title change counts regardless of the minimized state.
    if !(w.info.title == t.info.title) {
        events.push(TrackerEvent::TitleChanged { window_id: id, title: w.info.title.clone() });
    }
    assert(events@ =~= start + changes(*t, *w));
}

} // verus!
