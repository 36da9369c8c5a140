//! What the host reads of its windows, applications and pictures.

use crate::capture::{
    apps_of, ax_meta, ax_meta_of, captured_frame, check_capture_size, check_reconfigure,
    entry_of, first_fitting_icon, icon_fits, identity_of, is_app_of, is_entry, is_listed, list_apps,
    list_windows, listed_windows, packed_rows, snapshot_image, snapshot_window, straight_byte,
    with_children, with_entry, AppEntry, AppEntryView, AppIdentity, AxWindow,
    AxWindowMeta, CaptureError, CgSnapshotSource, RawWindow, WindowListEntry,
};
use crate::model::{AxRole, SnapshotWindow, WindowInfo};
use crate::pixels::{place, row_inside, BgraFrame, RgbaImage};
use crate::scalar::Scalar;
use std::collections::HashMap;
use vstd::prelude::*;

verus! {

/// A sighting has the window's own number, title, place and size, each in its
/// own place, its process, layer and what accessibility says of it. There is
/// one when all of them are known and the window is on screen or minimized.
pub proof fn sighting_is_of_its_window(
    w: RawWindow,
    on_screen: bool,
    meta: Option<AxWindowMeta>,
    r: Option<SnapshotWindow>,
)
    requires
        call_ensures(snapshot_window, (w, on_screen, meta), r),
    ensures
        r is Some <==> {
            &&& w.number is Some
            &&& w.owner_pid is Some
            &&& w.bounds is Some
            &&& w.bounds->0.x is Some
            &&& w.bounds->0.y is Some
            &&& w.bounds->0.width is Some
            &&& w.bounds->0.height is Some
            &&& on_screen || (meta is Some && meta->0.minimized)
        },
        r is Some ==> {
            let s = r->0;
            &&& Some(s.info.x) == w.bounds->0.x
            &&& Some(s.info.y) == w.bounds->0.y
            &&& Some(s.info.width) == w.bounds->0.width
            &&& Some(s.info.height) == w.bounds->0.height
            &&& (w.number->0 - s.info.id) % 4294967296 == 0
            &&& (w.owner_pid->0 - s.pid) % 4294967296 == 0
            &&& 0 <= w.number->0 <= u32::MAX ==> s.info.id == w.number->0
            &&& i32::MIN <= w.owner_pid->0 <= i32::MAX ==> s.pid == w.owner_pid->0
            &&& w.name is Some ==> s.info.title@ == w.name->0@
            &&& w.name is None ==> s.info.title@.len() == 0
            &&& w.layer is Some ==> s.layer == w.layer->0
            &&& w.layer is None ==> s.layer == -1
            &&& s.on_screen == on_screen
            &&& meta is Some ==> s.ax_role == meta->0.role && s.minimized == meta->0.minimized
            &&& meta is None ==> s.ax_role == AxRole::Unknown && !s.minimized
        },
{
}

/// A window that can be shared has its own number, title, place and size, each
/// in its own place, its process and its program's name. It stands on the base
/// layer, its bounds are known, and neither side is below fifty points.
pub proof fn entry_is_of_its_window(w: RawWindow, r: Option<WindowListEntry>, fifty: Scalar)
    requires
        call_ensures(entry_of, (w,), r),
        fifty.bits == 0x4049_0000_0000_0000,
    ensures
        r is Some <==> {
            &&& w.layer is Some
            &&& w.layer->0 == 0
            &&& w.number is Some
            &&& w.bounds is Some
            &&& w.bounds->0.x is Some
            &&& w.bounds->0.y is Some
            &&& w.bounds->0.width is Some
            &&& w.bounds->0.height is Some
            &&& !w.bounds->0.width->0.number_below(fifty)
            &&& !w.bounds->0.height->0.number_below(fifty)
        },
        r is Some ==> {
            let e = r->0;
            &&& Some(e.info.x) == w.bounds->0.x
            &&& Some(e.info.y) == w.bounds->0.y
            &&& Some(e.info.width) == w.bounds->0.width
            &&& Some(e.info.height) == w.bounds->0.height
            &&& (w.number->0 - e.info.id) % 4294967296 == 0
            &&& 0 <= w.number->0 <= u32::MAX ==> e.info.id == w.number->0
            &&& w.owner_pid is Some ==> (w.owner_pid->0 - e.pid) % 4294967296 == 0
            &&& w.owner_pid is Some && i32::MIN <= w.owner_pid->0 <= i32::MAX ==> e.pid
                == w.owner_pid->0
            &&& w.owner_pid is None ==> e.pid == 0
            &&& w.name is Some ==> e.info.title@ == w.name->0@
            &&& w.name is None ==> e.info.title@.len() == 0
            &&& w.owner_name is Some ==> e.app_name@ == w.owner_name->0@
            &&& w.owner_name is None ==> e.app_name@.len() == 0
        },
{
}

/// The place of a listed window among the listed ones.
proof fn place_in_list(raw: Seq<RawWindow>, k: int)
    requires
        0 <= k < raw.len(),
        is_listed(raw[k]),
    ensures
        listed_windows(raw.take(k)).len() < listed_windows(raw).len(),
        listed_windows(raw)[listed_windows(raw.take(k)).len() as int] == raw[k],
    decreases raw.len(),
{
    reveal(Seq::filter);
    let rest = raw.drop_last();
    let p = |w: RawWindow| is_listed(w);
    assert(listed_windows(raw) == raw.filter(p));
    if k == raw.len() - 1 {
        assert(raw.take(k) =~= rest);
    } else {
        assert(rest.take(k) =~= raw.take(k));
        assert(rest[k] == raw[k]);
        place_in_list(rest, k);
    }
}

proof fn list_grows(raw: Seq<RawWindow>, a: int, b: int)
    requires
        0 <= a < b < raw.len(),
        is_listed(raw[a]),
    ensures
        listed_windows(raw.take(a)).len() < listed_windows(raw.take(b)).len(),
{
    assert(raw.take(b).take(a) =~= raw.take(a));
    assert(raw.take(b)[a] == raw[a]);
    place_in_list(raw.take(b), a);
}

/// Every window that can be shared is listed, in the order in which they come:
/// of two of them the first one's entry stands before the second one's.
pub proof fn windows_are_listed_in_order(
    raw: Vec<RawWindow>,
    r: Vec<WindowListEntry>,
    a: int,
    b: int,
    first: Option<WindowListEntry>,
    second: Option<WindowListEntry>,
) -> (at: (int, int))
    requires
        call_ensures(list_windows, (raw,), r),
        0 <= a < b < raw@.len(),
        call_ensures(entry_of, (raw@[a],), first),
        call_ensures(entry_of, (raw@[b],), second),
        first is Some,
        second is Some,
    ensures
        0 <= at.0 < at.1 < r@.len(),
        r@[at.0].info.id == first->0.info.id,
        r@[at.0].info.title@ == first->0.info.title@,
        r@[at.0].info.x == first->0.info.x,
        r@[at.0].info.y == first->0.info.y,
        r@[at.0].info.width == first->0.info.width,
        r@[at.0].info.height == first->0.info.height,
        r@[at.0].pid == first->0.pid,
        r@[at.0].app_name@ == first->0.app_name@,
        r@[at.1].info.id == second->0.info.id,
        r@[at.1].pid == second->0.pid,
{
    let s = raw@;
    place_in_list(s, a);
    place_in_list(s, b);
    list_grows(s, a, b);
    let i = listed_windows(s.take(a)).len() as int;
    let j = listed_windows(s.take(b)).len() as int;
    assert(is_entry(r@[i], listed_windows(s)[i]));
    assert(is_entry(r@[j], listed_windows(s)[j]));
    (i, j)
}

/// Nothing else is listed: every entry is that of a window that came.
pub proof fn listed_windows_are_there(raw: Vec<RawWindow>, r: Vec<WindowListEntry>, i: int) -> (k: int)
    requires
        call_ensures(list_windows, (raw,), r),
        0 <= i < r@.len(),
    ensures
        0 <= k < raw@.len(),
        raw@[k].layer is Some,
        raw@[k].layer->0 == 0,
        raw@[k].bounds is Some,
        raw@[k].bounds->0.x == Some(r@[i].info.x),
        raw@[k].bounds->0.y == Some(r@[i].info.y),
        raw@[k].bounds->0.width == Some(r@[i].info.width),
        raw@[k].bounds->0.height == Some(r@[i].info.height),
        raw@[k].number is Some,
        (raw@[k].number->0 - r@[i].info.id) % 4294967296 == 0,
        raw@[k].name is Some ==> r@[i].info.title@ == raw@[k].name->0@,
        raw@[k].owner_name is Some ==> r@[i].app_name@ == raw@[k].owner_name->0@,
        raw@[k].owner_pid is Some ==> (raw@[k].owner_pid->0 - r@[i].pid) % 4294967296 == 0,
{
    assert(is_entry(r@[i], listed_windows(raw@)[i]));
    listed_from(raw@, i)
}

proof fn listed_from(raw: Seq<RawWindow>, i: int) -> (k: int)
    requires
        0 <= i < listed_windows(raw).len(),
    ensures
        0 <= k < raw.len(),
        is_listed(raw[k]),
        raw[k] == listed_windows(raw)[i],
    decreases raw.len(),
{
    reveal(Seq::filter);
    let rest = raw.drop_last();
    let p = |w: RawWindow| is_listed(w);
    assert(listed_windows(raw) == raw.filter(p));
    if raw.len() > 0 && i < listed_windows(rest).len() {
        let k = listed_from(rest, i);
        assert(rest[k] == raw[k]);
        k
    } else {
        raw.len() - 1
    }
}

/// The windows of a listing are its entries', one by one; a listing that
/// failed has none.
pub proof fn listing_keeps_its_windows(
    s: &CgSnapshotSource,
    listed: Option<Vec<WindowListEntry>>,
    r: Vec<WindowInfo>,
    i: int,
)
    requires
        call_ensures(CgSnapshotSource::windows, (s, listed), r),
    ensures
        listed is None ==> r@.len() == 0,
        listed is Some ==> r@.len() == listed->0@.len(),
        listed is Some && 0 <= i < r@.len() ==> r@[i] == listed->0@[i].info,
{
}

proof fn children_meta(meta: Map<u32, AxWindowMeta>, w: AxWindow, n: int, id: u32)
    requires
        0 <= n <= w.children@.len(),
    ensures
        ({
            let after = with_children(meta, w.children@, n);
            let sheet = exists|j: int|
                0 <= j < n && (#[trigger] w.children@[j]).is_sheet && w.children@[j].id == Some(id);
            &&& sheet ==> after.contains_key(id) && after[id].role == AxRole::Sheet
                && !after[id].minimized
            &&& !sheet ==> (after.contains_key(id) <==> meta.contains_key(id)) && (
            meta.contains_key(id) ==> after[id] == meta[id])
        }),
    decreases n,
{
    if n > 0 {
        children_meta(meta, w, n - 1, id);
        let child = w.children@[n - 1];
        let before = exists|j: int|
            0 <= j < n - 1 && (#[trigger] w.children@[j]).is_sheet && w.children@[j].id == Some(id);
        if before {
            let j = choose|j: int|
                0 <= j < n - 1 && (#[trigger] w.children@[j]).is_sheet && w.children@[j].id
                    == Some(id);
            assert(w.children@[j].is_sheet);
        }
        if child.is_sheet && child.id == Some(id) {
            assert(w.children@[n - 1].is_sheet);
        }
    }
}

/// A window's own metadata says that it is a window and whether it is known to
/// be minimized, when nothing else speaks of its id.
pub proof fn window_metadata_is_its_own(
    windows: &Vec<AxWindow>,
    out: HashMap<u32, AxWindowMeta>,
    i: int,
    id: u32,
)
    requires
        call_ensures(ax_meta_of, (windows,), out),
        0 <= i < windows@.len(),
        windows@[i].id == Some(id),
        forall|k: int| i < k < windows@.len() ==> (#[trigger] windows@[k]).id != Some(id),
        forall|k: int, j: int|
            #![trigger windows@[k].children@[j]]
            0 <= k < windows@.len() && 0 <= j < windows@[k].children@.len()
                && windows@[k].children@[j].is_sheet ==> windows@[k].children@[j].id != Some(id),
    ensures
        out@.contains_key(id),
        out@[id].role == AxRole::Window,
        out@[id].minimized <==> windows@[i].minimized is Some && windows@[i].minimized->0,
{
    own_metadata(windows@, windows@.len() as int, i, id);
}

proof fn own_metadata(windows: Seq<AxWindow>, n: int, i: int, id: u32)
    requires
        0 <= i < n <= windows.len(),
        windows[i].id == Some(id),
        forall|k: int| i < k < windows.len() ==> (#[trigger] windows[k]).id != Some(id),
        forall|k: int, j: int|
            #![trigger windows[k].children@[j]]
            0 <= k < windows.len() && 0 <= j < windows[k].children@.len()
                && windows[k].children@[j].is_sheet ==> windows[k].children@[j].id != Some(id),
    ensures
        ax_meta(windows, n).contains_key(id),
        ax_meta(windows, n)[id].role == AxRole::Window,
        ax_meta(windows, n)[id].minimized <==> windows[i].minimized == Some(true),
    decreases n,
{
    let w = windows[n - 1];
    let before = ax_meta(windows, n - 1);
    let own = match w.id {
        Some(x) => before.insert(
            x,
            AxWindowMeta { role: AxRole::Window, minimized: w.minimized == Some(true) },
        ),
        None => before,
    };
    children_meta(own, w, w.children@.len() as int, id);
    if i < n - 1 {
        own_metadata(windows, n - 1, i, id);
    }
    assert forall|j: int| 0 <= j < w.children@.len() && (#[trigger] w.children@[j]).is_sheet implies
        w.children@[j].id != Some(id) by {
        assert(windows[n - 1].children@[j].is_sheet);
    }
}

/// A sheet's metadata says that it is a sheet, and not minimized, unless a
/// later window has its id.
pub proof fn sheet_metadata_is_a_sheets(
    windows: &Vec<AxWindow>,
    out: HashMap<u32, AxWindowMeta>,
    i: int,
    j: int,
    id: u32,
)
    requires
        call_ensures(ax_meta_of, (windows,), out),
        0 <= i < windows@.len(),
        0 <= j < windows@[i].children@.len(),
        windows@[i].children@[j].is_sheet,
        windows@[i].children@[j].id == Some(id),
        forall|k: int| i < k < windows@.len() ==> (#[trigger] windows@[k]).id != Some(id),
    ensures
        out@.contains_key(id),
        out@[id].role == AxRole::Sheet,
        !out@[id].minimized,
{
    sheet_metadata(windows@, windows@.len() as int, i, j, id);
}

proof fn sheet_metadata(windows: Seq<AxWindow>, n: int, i: int, j: int, id: u32)
    requires
        0 <= i < n <= windows.len(),
        0 <= j < windows[i].children@.len(),
        windows[i].children@[j].is_sheet,
        windows[i].children@[j].id == Some(id),
        forall|k: int| i < k < windows.len() ==> (#[trigger] windows[k]).id != Some(id),
    ensures
        ax_meta(windows, n).contains_key(id),
        ax_meta(windows, n)[id].role == AxRole::Sheet,
        !ax_meta(windows, n)[id].minimized,
    decreases n,
{
    let w = windows[n - 1];
    let before = ax_meta(windows, n - 1);
    let own = match w.id {
        Some(x) => before.insert(
            x,
            AxWindowMeta { role: AxRole::Window, minimized: w.minimized == Some(true) },
        ),
        None => before,
    };
    children_meta(own, w, w.children@.len() as int, id);
    if i < n - 1 {
        sheet_metadata(windows, n - 1, i, j, id);
    } else {
        assert(w.children@[j].is_sheet);
    }
}

/// Nothing is known of an id that neither a window nor a sheet has.
pub proof fn strangers_have_no_metadata(
    windows: &Vec<AxWindow>,
    out: HashMap<u32, AxWindowMeta>,
    id: u32,
)
    requires
        call_ensures(ax_meta_of, (windows,), out),
        forall|k: int| 0 <= k < windows@.len() ==> (#[trigger] windows@[k]).id != Some(id),
        forall|k: int, j: int|
            #![trigger windows@[k].children@[j]]
            0 <= k < windows@.len() && 0 <= j < windows@[k].children@.len()
                && windows@[k].children@[j].is_sheet ==> windows@[k].children@[j].id != Some(id),
    ensures
        !out@.contains_key(id),
{
    no_metadata(windows@, windows@.len() as int, id);
}

proof fn no_metadata(windows: Seq<AxWindow>, n: int, id: u32)
    requires
        0 <= n <= windows.len(),
        forall|k: int| 0 <= k < windows.len() ==> (#[trigger] windows[k]).id != Some(id),
        forall|k: int, j: int|
            #![trigger windows[k].children@[j]]
            0 <= k < windows.len() && 0 <= j < windows[k].children@.len()
                && windows[k].children@[j].is_sheet ==> windows[k].children@[j].id != Some(id),
    ensures
        !ax_meta(windows, n).contains_key(id),
    decreases n,
{
    if n > 0 {
        let w = windows[n - 1];
        let before = ax_meta(windows, n - 1);
        let own = match w.id {
            Some(x) => before.insert(
                x,
                AxWindowMeta { role: AxRole::Window, minimized: w.minimized == Some(true) },
            ),
            None => before,
        };
        no_metadata(windows, n - 1, id);
        children_meta(own, w, w.children@.len() as int, id);
        assert forall|j: int|
            0 <= j < w.children@.len() && (#[trigger] w.children@[j]).is_sheet implies
            w.children@[j].id != Some(id) by {
            assert(windows[n - 1].children@[j].is_sheet);
        }
    }
}

/// The titles of a process's windows, in their order.
pub open spec fn titles_of(entries: Seq<WindowListEntry>, pid: i32) -> Seq<String>
    decreases entries.len(),
{
    if entries.len() == 0 {
        Seq::empty()
    } else {
        let before = titles_of(entries.drop_last(), pid);
        if entries.last().pid == pid {
            before.push(entries.last().info.title)
        } else {
            before
        }
    }
}

/// No two applications are of one process.
spec fn distinct(apps: Seq<AppEntryView>) -> bool {
    forall|i: int, j: int|
        #![trigger apps[i], apps[j]]
        0 <= i < j < apps.len() ==> apps[i].pid != apps[j].pid
}

/// A process has an application.
spec fn has_app(apps: Seq<AppEntryView>, pid: i32) -> bool {
    exists|i: int| 0 <= i < apps.len() && (#[trigger] apps[i]).pid == pid
}

proof fn entry_joins(before: Seq<AppEntryView>, e: WindowListEntry) -> (at: int)
    requires
        distinct(before),
    ensures
        ({
            let after = with_entry(before, e);
            &&& distinct(after)
            &&& 0 <= at < after.len()
            &&& after[at].pid == e.pid
            &&& forall|i: int| 0 <= i < before.len() && i != at ==> #[trigger] after[i] == before[i]
            &&& has_app(before, e.pid) ==> {
                &&& at < before.len()
                &&& after.len() == before.len()
                &&& before[at].pid == e.pid
                &&& after[at].app_name == before[at].app_name
                &&& after[at].window_titles == before[at].window_titles.push(e.info.title)
            }
            &&& !has_app(before, e.pid) ==> {
                &&& at == before.len()
                &&& after.len() == before.len() + 1
                &&& after[at].app_name == e.app_name
                &&& after[at].window_titles == seq![e.info.title]
            }
        }),
{
    let after = with_entry(before, e);
    if has_app(before, e.pid) {
        let k = choose|k: int| 0 <= k < before.len() && (#[trigger] before[k]).pid == e.pid;
        assert(is_app_of(before, e.pid, k)) by {
            assert forall|j: int| 0 <= j < k implies (#[trigger] before[j]).pid != e.pid by {
                assert(before[j].pid != before[k].pid);
            }
        }
        let at = choose|i: int| is_app_of(before, e.pid, i);
        assert(is_app_of(before, e.pid, at));
        assert(distinct(after)) by {
            assert forall|i: int, j: int|
                #![trigger after[i], after[j]]
                0 <= i < j < after.len() implies after[i].pid != after[j].pid by {
                assert(before[i].pid != before[j].pid);
            }
        }
        at
    } else {
        assert(!(exists|i: int| is_app_of(before, e.pid, i))) by {
            if exists|i: int| is_app_of(before, e.pid, i) {
                let i = choose|i: int| is_app_of(before, e.pid, i);
                assert(before[i].pid == e.pid);
            }
        }
        assert(distinct(after)) by {
            assert forall|i: int, j: int|
                #![trigger after[i], after[j]]
                0 <= i < j < after.len() implies after[i].pid != after[j].pid by {
                assert(before[i] == after[i]);
                if j < before.len() {
                    assert(before[i].pid != before[j].pid);
                }
            }
        }
        before.len() as int
    }
}

proof fn apps_are_distinct(entries: Seq<WindowListEntry>)
    ensures
        distinct(apps_of(entries)),
    decreases entries.len(),
{
    if entries.len() > 0 {
        apps_are_distinct(entries.drop_last());
        let at = entry_joins(apps_of(entries.drop_last()), entries.last());
    }
}

/// The titles of an application, those of its process.
proof fn titles_are_kept(entries: Seq<WindowListEntry>, pid: i32)
    ensures
        has_app(apps_of(entries), pid) <==> titles_of(entries, pid).len() > 0,
        forall|i: int|
            0 <= i < apps_of(entries).len() && (#[trigger] apps_of(entries)[i]).pid == pid
                ==> apps_of(entries)[i].window_titles == titles_of(entries, pid),
    decreases entries.len(),
{
    if entries.len() > 0 {
        let rest = entries.drop_last();
        let e = entries.last();
        titles_are_kept(rest, pid);
        apps_are_distinct(rest);
        apps_are_distinct(entries);
        let before = apps_of(rest);
        let after = apps_of(entries);
        let at = entry_joins(before, e);
        assert(after == with_entry(before, e));
        if has_app(before, pid) {
            let i = choose|i: int| 0 <= i < before.len() && (#[trigger] before[i]).pid == pid;
            assert(after[i].pid == pid);
        }
        if has_app(after, pid) && pid != e.pid {
            let i = choose|i: int| 0 <= i < after.len() && (#[trigger] after[i]).pid == pid;
            assert(before[i] == after[i]);
        }
        if pid == e.pid {
            assert(after[at].pid == pid);
        }
        assert forall|i: int| 0 <= i < after.len() && (#[trigger] after[i]).pid == pid implies
            after[i].window_titles == titles_of(entries, pid) by {
            if i == at {
                if !has_app(before, pid) {
                    assert(titles_of(rest, pid) =~= Seq::<String>::empty());
                    assert(titles_of(entries, pid) =~= seq![e.info.title]);
                }
            } else {
                assert(before[i] == after[i]);
                if pid == e.pid {
                    if i < at {
                        assert(after[i].pid != after[at].pid);
                    } else {
                        assert(after[at].pid != after[i].pid);
                    }
                }
            }
        }
    }
}

proof fn name_is_of_a_window(entries: Seq<WindowListEntry>, i: int) -> (k: int)
    requires
        0 <= i < apps_of(entries).len(),
    ensures
        0 <= k < entries.len(),
        entries[k].pid == apps_of(entries)[i].pid,
        entries[k].app_name == apps_of(entries)[i].app_name,
        forall|j: int|
            0 <= j < k ==> (#[trigger] entries[j]).pid != apps_of(entries)[i].pid,
    decreases entries.len(),
{
    let rest = entries.drop_last();
    let e = entries.last();
    apps_are_distinct(rest);
    let before = apps_of(rest);
    let at = entry_joins(before, e);
    if i < before.len() {
        let k = name_is_of_a_window(rest, i);
        assert(entries[k] == rest[k]);
        assert forall|j: int| 0 <= j < k implies (#[trigger] entries[j]).pid
            != apps_of(entries)[i].pid by {
            assert(rest[j] == entries[j]);
        }
        k
    } else {
        let k = entries.len() - 1;
        titles_are_kept(rest, e.pid);
        assert forall|j: int| 0 <= j < k implies (#[trigger] entries[j]).pid
            != apps_of(entries)[i].pid by {
            assert(rest[j] == entries[j]);
            if rest[j].pid == e.pid {
                has_titles(rest, j);
            }
        }
        k
    }
}

proof fn has_titles(entries: Seq<WindowListEntry>, k: int)
    requires
        0 <= k < entries.len(),
    ensures
        titles_of(entries, entries[k].pid).len() > 0,
    decreases entries.len(),
{
    if k < entries.len() - 1 {
        assert(entries.drop_last()[k] == entries[k]);
        has_titles(entries.drop_last(), k);
    }
}

/// The applications of a list of windows: one for each process that has a
/// window there, with the titles of all its windows, in their order, and under
/// the name that its first window gives.
pub proof fn applications_are_those_of_the_windows(
    entries: Vec<WindowListEntry>,
    apps: Vec<AppEntry>,
    i: int,
    j: int,
) -> (first: int)
    requires
        call_ensures(list_apps, (entries,), apps),
        0 <= i < apps@.len(),
    ensures
        apps@[i].window_titles@ == titles_of(entries@, apps@[i].pid),
        i < j < apps@.len() ==> apps@[i].pid != apps@[j].pid,
        0 <= first < entries@.len(),
        entries@[first].pid == apps@[i].pid,
        entries@[first].app_name == apps@[i].app_name,
        forall|k: int| 0 <= k < first ==> (#[trigger] entries@[k]).pid != apps@[i].pid,
{
    apps_are_distinct(entries@);
    let views = apps_of(entries@);
    assert(views[i] == apps@[i]@);
    if i < j < apps@.len() {
        assert(views[j] == apps@[j]@);
    }
    titles_are_kept(entries@, apps@[i].pid);
    name_is_of_a_window(entries@, i)
}

proof fn apps_by_first_window(entries: Seq<WindowListEntry>, i: int, j: int, a: int, b: int)
    requires
        0 <= i < j < apps_of(entries).len(),
        0 <= a < entries.len(),
        0 <= b < entries.len(),
        entries[a].pid == apps_of(entries)[i].pid,
        entries[b].pid == apps_of(entries)[j].pid,
        forall|k: int| 0 <= k < a ==> (#[trigger] entries[k]).pid != entries[a].pid,
        forall|k: int| 0 <= k < b ==> (#[trigger] entries[k]).pid != entries[b].pid,
    ensures
        a < b,
    decreases entries.len(),
{
    let rest = entries.drop_last();
    let e = entries.last();
    apps_are_distinct(rest);
    apps_are_distinct(entries);
    let before = apps_of(rest);
    let at = entry_joins(before, e);
    assert(apps_of(entries)[i].pid == before[i].pid);
    let ai = name_is_of_a_window(rest, i);
    assert(rest[ai] == entries[ai]);
    assert(a <= ai) by {
        if ai < a {
            assert(entries[ai].pid != entries[a].pid);
        }
    }
    assert(rest[a] == entries[a]);
    if j < before.len() {
        assert(apps_of(entries)[j].pid == before[j].pid);
        let bj = name_is_of_a_window(rest, j);
        assert(rest[bj] == entries[bj]);
        assert(b <= bj) by {
            if bj < b {
                assert(entries[bj].pid != entries[b].pid);
            }
        }
        assert(rest[b] == entries[b]);
        assert forall|k: int| 0 <= k < a implies (#[trigger] rest[k]).pid != rest[a].pid by {
            assert(entries[k] == rest[k]);
        }
        assert forall|k: int| 0 <= k < b implies (#[trigger] rest[k]).pid != rest[b].pid by {
            assert(entries[k] == rest[k]);
        }
        apps_by_first_window(rest, i, j, a, b);
    } else {
        titles_are_kept(rest, e.pid);
        if b < rest.len() {
            assert(rest[b] == entries[b]);
            has_titles(rest, b);
        }
    }
}

/// Applications come in the order of their first windows: `a` and `b` are
/// where the windows of two of them are first seen.
pub proof fn applications_come_by_their_first_windows(
    entries: Vec<WindowListEntry>,
    apps: Vec<AppEntry>,
    i: int,
    j: int,
    a: int,
    b: int,
)
    requires
        call_ensures(list_apps, (entries,), apps),
        0 <= i < j < apps@.len(),
        0 <= a < entries@.len(),
        0 <= b < entries@.len(),
        entries@[a].pid == apps@[i].pid,
        entries@[b].pid == apps@[j].pid,
        forall|k: int| 0 <= k < a ==> (#[trigger] entries@[k]).pid != entries@[a].pid,
        forall|k: int| 0 <= k < b ==> (#[trigger] entries@[k]).pid != entries@[b].pid,
    ensures
        a < b,
{
    let views = apps_of(entries@);
    assert(views[i] == apps@[i]@);
    assert(views[j] == apps@[j]@);
    apps_by_first_window(entries@, i, j, a, b);
}

/// Every window's process has an application.
pub proof fn every_window_has_an_application(
    entries: Vec<WindowListEntry>,
    apps: Vec<AppEntry>,
    k: int,
) -> (i: int)
    requires
        call_ensures(list_apps, (entries,), apps),
        0 <= k < entries@.len(),
    ensures
        0 <= i < apps@.len(),
        apps@[i].pid == entries@[k].pid,
{
    let views = apps_of(entries@);
    has_titles(entries@, k);
    titles_are_kept(entries@, entries@[k].pid);
    let i = choose|i: int| 0 <= i < views.len() && (#[trigger] views[i]).pid == entries@[k].pid;
    assert(views[i] == apps@[i]@);
    i
}

/// Every pixel of a snapshot is that of its own place, red for red, green for
/// green and blue for blue, with the alpha it has and freed of it.
pub proof fn snapshot_pixel_is_its_own(
    src: &[u8],
    width: u32,
    height: u32,
    bpr: usize,
    img: RgbaImage,
    xx: int,
    yy: int,
    c: int,
)
    requires
        (height - 1) * bpr + 4 * width <= src@.len(),
        call_ensures(snapshot_image, (src, width, height, bpr), img),
        0 <= xx < width,
        0 <= yy < height,
        0 <= c < 3,
    ensures
        img.width == width,
        img.height == height,
        img.data@.len() == width * height * 4,
        ({
            let k = (yy * width + xx) * 4;
            let at = yy * bpr + 4 * xx;
            let a = src@[at + 3] as int;
            let from = src@[at + 2 - c] as int;
            let to = img.data@[k + c] as int;
            &&& 0 <= k <= img.data@.len() - 4
            &&& img.data@[k + 3] == a
            &&& a == 0 || a == 255 ==> to == from
            &&& 0 < a < 255 && to < 255 ==> to * a <= from * 255 < (to + 1) * a
            &&& 0 < a < 255 && to == 255 ==> 255 * a <= from * 255
        }),
{
    let (w, h) = (width as int, height as int);
    row_inside(w, h, yy);
    place(w, yy, xx);
    let p = yy * w + xx;
    let k = p * 4;
    assert(k / 4 == p && (k + 1) / 4 == p && (k + 2) / 4 == p && (k + 3) / 4 == p);
    assert(k % 4 == 0 && (k + 1) % 4 == 1 && (k + 2) % 4 == 2 && (k + 3) % 4 == 3);
    assert(img.data@[k + 3] == straight_byte(src@, w, bpr as int, k + 3));
    assert(img.data@[k + c] == straight_byte(src@, w, bpr as int, k + c));
    let at = yy * bpr + 4 * xx;
    let a = src@[at + 3] as int;
    let from = src@[at + 2 - c] as int;
    if 0 < a < 255 {
        let q = from * 255 / a;
        vstd::arithmetic::div_mod::lemma_fundamental_div_mod(from * 255, a);
        vstd::arithmetic::div_mod::lemma_mod_bound(from * 255, a);
        assert(a * q == q * a) by (nonlinear_arith);
        assert((q + 1) * a == q * a + a) by (nonlinear_arith);
        assert(q >= 0) by (nonlinear_arith)
            requires
                q == from * 255 / a,
                from >= 0,
                a > 0,
        ;
        if q > 255 {
            assert(255 * a <= q * a) by (nonlinear_arith)
                requires
                    q > 255,
                    a > 0,
            ;
        }
    }
}

proof fn row_kept(src: Seq<u8>, w: int, h: int, bpr: int, yy: int, b: int)
    requires
        0 <= w,
        0 <= bpr,
        0 <= yy < h,
        0 <= b < 4 * w,
        (h - 1) * bpr + 4 * w <= src.len(),
    ensures
        packed_rows(src, w, h, bpr).len() == h * (4 * w),
        packed_rows(src, w, h, bpr)[yy * (4 * w) + b] == src[yy * bpr + b],
    decreases h,
{
    assert((h - 1) * bpr >= 0) by (nonlinear_arith)
        requires
            h >= 1,
            bpr >= 0,
    ;
    assert((h - 1) * (4 * w) + 4 * w == h * (4 * w)) by (nonlinear_arith);
    assert(0 <= yy * (4 * w)) by (nonlinear_arith)
        requires
            yy >= 0,
            w >= 0,
    ;
    let before = packed_rows(src, w, h - 1, bpr);
    let row = src.subrange((h - 1) * bpr, (h - 1) * bpr + 4 * w);
    if h > 1 {
        assert((h - 2) * bpr <= (h - 1) * bpr) by (nonlinear_arith)
            requires
                bpr >= 0,
        ;
        if yy < h - 1 {
            row_kept(src, w, h - 1, bpr, yy, b);
            assert(yy * (4 * w) + 4 * w <= (h - 1) * (4 * w)) by (nonlinear_arith)
                requires
                    yy + 1 <= h - 1,
                    w >= 0,
            ;
        } else {
            row_kept(src, w, h - 1, bpr, h - 2, b);
        }
    } else {
        assert(before.len() == 0);
        assert((h - 1) * (4 * w) == 0) by (nonlinear_arith)
            requires
                h == 1,
        ;
    }
    assert(packed_rows(src, w, h, bpr) == before + row);
    if yy == h - 1 {
        assert((before + row)[before.len() + b] == row[b]);
    }
}

/// A captured frame has the expected size, or there is none, and every byte of
/// every pixel is that of its own place in the buffer.
pub proof fn captured_pixel_is_its_own(
    src: &[u8],
    buf_w: usize,
    buf_h: usize,
    bpr: usize,
    expected: (u32, u32),
    r: Option<BgraFrame>,
    xx: int,
    yy: int,
    c: int,
)
    requires
        (buf_h - 1) * bpr + 4 * buf_w <= src@.len(),
        call_ensures(captured_frame, (src, buf_w, buf_h, bpr, expected), r),
        0 <= xx < buf_w,
        0 <= yy < buf_h,
        0 <= c < 4,
    ensures
        r is Some <==> buf_w == expected.0 && buf_h == expected.1,
        r is Some ==> {
            let f = r->0;
            &&& f.width == buf_w
            &&& f.height == buf_h
            &&& f.data@.len() == buf_w * buf_h * 4
            &&& f.data@[(yy * buf_w + xx) * 4 + c] == src@[yy * bpr + 4 * xx + c]
        },
{
    let (w, h) = (buf_w as int, buf_h as int);
    row_kept(src@, w, h, bpr as int, yy, 4 * xx + c);
    assert(yy * (4 * w) + (4 * xx + c) == (yy * w + xx) * 4 + c) by (nonlinear_arith);
    assert(h * (4 * w) == w * h * 4) by (nonlinear_arith);
}

/// A capture needs even sides; reconfiguring one needs, besides, sides above
/// zero and a capture that was started, and says what is missing, in that
/// order.
pub proof fn sizes_are_checked(
    width: u32,
    height: u32,
    started: bool,
    made: Result<(), CaptureError>,
    again: Result<(), CaptureError>,
)
    requires
        call_ensures(check_capture_size, (width, height), made),
        call_ensures(check_reconfigure, (width, height, started), again),
    ensures
        made is Ok <==> width % 2 == 0 && height % 2 == 0,
        made is Err ==> made->Err_0 == (CaptureError::OddSize { width, height }),
        again is Ok <==> width % 2 == 0 && height % 2 == 0 && width > 0 && height > 0 && started,
        width % 2 == 1 || height % 2 == 1 ==> again is Err && again->Err_0
            == (CaptureError::OddSize { width, height }),
        width % 2 == 0 && height % 2 == 0 && (width == 0 || height == 0) ==> again is Err
            && again->Err_0 == CaptureError::EmptySize,
        width % 2 == 0 && height % 2 == 0 && width > 0 && height > 0 && !started ==> again is Err
            && again->Err_0 == CaptureError::NotStarted,
{
}

/// The icon that is taken is the first attempt that is there and within the
/// budget, and none only if no attempt is.
pub proof fn first_icon_that_fits_is_taken(
    attempts: Vec<Option<Vec<u8>>>,
    r: Option<Vec<u8>>,
    i: int,
)
    requires
        call_ensures(first_fitting_icon, (attempts,), r),
        0 <= i < attempts@.len(),
        attempts@[i] is Some,
        attempts@[i]->0@.len() <= 45_000,
        forall|j: int|
            0 <= j < i ==> (#[trigger] attempts@[j]) is None || attempts@[j]->0@.len() > 45_000,
    ensures
        r == attempts@[i],
{
    assert(icon_fits(attempts@[i]));
    assert forall|j: int| 0 <= j < i implies !icon_fits(#[trigger] attempts@[j]) by {}
    if r is Some {
        let k = choose|k: int|
            0 <= k < attempts@.len() && icon_fits(#[trigger] attempts@[k]) && attempts@[k] == Some(
                r->0,
            ) && forall|j: int| 0 <= j < k ==> !icon_fits(#[trigger] attempts@[j]);
        assert(k == i) by {
            if k < i {
                assert(!icon_fits(attempts@[k]));
            }
            if i < k {
                assert(!icon_fits(attempts@[i]));
            }
        }
    }
}

/// An icon that is taken is one of the attempts and within the budget.
pub proof fn taken_icon_fits(attempts: Vec<Option<Vec<u8>>>, r: Option<Vec<u8>>) -> (i: int)
    requires
        call_ensures(first_fitting_icon, (attempts,), r),
        r is Some,
    ensures
        r->0@.len() <= 45_000,
        0 <= i < attempts@.len(),
        attempts@[i] == r,
{
    choose|k: int|
        0 <= k < attempts@.len() && icon_fits(#[trigger] attempts@[k]) && attempts@[k] == Some(
            r->0,
        ) && forall|j: int| 0 <= j < k ==> !icon_fits(#[trigger] attempts@[j])
}

/// An application without a name has no identity; any other keeps its name and
/// its icon.
pub proof fn identity_keeps_name_and_icon(
    name: Option<String>,
    icon: Option<Vec<u8>>,
    r: Option<AppIdentity>,
)
    requires
        call_ensures(identity_of, (name, icon), r),
    ensures
        r is Some <==> name is Some && name->0@.len() > 0,
        r is Some ==> Some(r->0.name) == name,
        r is Some && icon is Some ==> r->0.icon_png@ == icon->0@,
        r is Some && icon is None ==> r->0.icon_png@.len() == 0,
{
}

} // verus!
