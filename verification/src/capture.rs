//! What the host's capture tells of its windows and applications.

use crate::bytes::extend;
use crate::model::{AxRole, SnapshotWindow, WindowInfo};
use crate::pixels::{packed, place, row_inside, BgraFrame, RgbaImage};
use crate::scalar::Scalar;
use std::collections::HashMap;
use vstd::prelude::*;

verus! {

broadcast use vstd::std_specs::hash::group_hash_axioms;

/// Raw-PNG budget: AppAnnounced travels on the control data channel whose
/// message limit is 64 KiB, and base64 inflates by 4/3.
pub const MAX_ICON_BYTES: usize = 45_000;

/// A shared application.
#[derive(Debug, PartialEq, Eq)]
pub struct AppIdentity {
    pub name: String,
    /// Raw PNG bytes, empty when no usable icon was found.
    pub icon_png: Vec<u8>,
}

/// An icon that fits the message budget.
pub open spec fn icon_fits(png: Option<Vec<u8>>) -> bool {
    png is Some && png->0@.len() <= MAX_ICON_BYTES
}

/// The first icon of several attempts, from the largest side down, that could
/// be encoded and fits the budget.
pub fn first_fitting_icon(attempts: Vec<Option<Vec<u8>>>) -> (r: Option<Vec<u8>>)
    ensures
        match r {
            Some(png) => exists|i: int|
                0 <= i < attempts@.len() && icon_fits(#[trigger] attempts@[i]) && attempts@[i]
                    == Some(png) && forall|j: int|
                    0 <= j < i ==> !icon_fits(#[trigger] attempts@[j]),
            None => forall|j: int|
                0 <= j < attempts@.len() ==> !icon_fits(#[trigger] attempts@[j]),
        },
{
    let ghost all = attempts@;
    for attempt in it: attempts
        invariant
            it.seq() == all,
            forall|j: int| 0 <= j < it.index() ==> !icon_fits(#[trigger] all[j]),
    {
        let ghost i = it.index();
        assert(all[i as int] == attempt);
        if let Some(png) = attempt {
            if png.len() <= MAX_ICON_BYTES {
                assert(icon_fits(all[i as int]));
                return Some(png);
            }
        }
    }
    None
}

/// The identity of a running application: it has a name, and its icon where
/// one was found. An application without a name has none.
pub fn identity_of(name: Option<String>, icon_png: Option<Vec<u8>>) -> (r: Option<AppIdentity>)
    ensures
        match r {
            Some(id) => {
                &&& name == Some(id.name)
                &&& id.name@.len() > 0
                &&& id.icon_png@ == (match icon_png {
                    Some(png) => png@,
                    None => Seq::empty(),
                })
            },
            None => name is None || name->0@.len() == 0,
        },
{
    match name {
        None => None,
        Some(name) => {
            if name.as_str().is_empty() {
                return None;
            }
            let icon_png: Vec<u8> = match icon_png {
                Some(png) => png,
                None => Vec::new(),
            };
            Some(AppIdentity { name, icon_png })
        },
    }
}

/// What the window server says of a window.
pub struct RawWindow {
    pub layer: Option<i64>,
    pub number: Option<i64>,
    pub owner_pid: Option<i64>,
    pub owner_name: Option<String>,
    pub name: Option<String>,
    pub bounds: Option<RawBounds>,
}

/// A window's bounds, in screen points with the origin at the top left.
#[derive(Debug, Clone, Copy)]
pub struct RawBounds {
    pub x: Option<Scalar>,
    pub y: Option<Scalar>,
    pub width: Option<Scalar>,
    pub height: Option<Scalar>,
}

/// A window that can be shared.
#[derive(Debug, PartialEq)]
pub struct WindowListEntry {
    pub info: WindowInfo,
    pub pid: i32,
    pub app_name: String,
}

/// The encoding of the number fifty: windows with a shorter side are tiny
/// utility windows.
pub const MIN_SIDE_BITS: u64 = 0x4049_0000_0000_0000;

/// The 32 bits at the low end of a number, read as unsigned.
pub open spec fn low_u32(n: i64) -> u32 {
    (n as int % 4294967296) as u32
}

/// The 32 bits at the low end of a number, read as signed.
pub open spec fn low_i32(n: i64) -> i32 {
    let low = n as int % 4294967296;
    if low < 2147483648 {
        low as i32
    } else {
        (low - 4294967296) as i32
    }
}

/// The low 32 bits of a number.
fn low_bits(n: i64) -> (r: u32)
    ensures
        r == low_u32(n),
{
    let wide: i128 = n as i128;
    let shifted: u128 = (wide + 18446744073709551616) as u128;
    assert(shifted % 4294967296 == n as int % 4294967296) by {
        assert(18446744073709551616 == 4294967296 * 4294967296);
        vstd::arithmetic::div_mod::lemma_mod_multiples_vanish(
            4294967296,
            n as int,
            4294967296,
        );
    }
    (shifted % 4294967296) as u32
}

fn low_bits_signed(n: i64) -> (r: i32)
    ensures
        r == low_i32(n),
{
    let low: u32 = low_bits(n);
    if low < 2147483648 {
        low as i32
    } else {
        (low as i64 - 4294967296) as i32
    }
}

/// Whether a window can be shared: on the base layer, with a number and real
/// bounds that are not tiny. No NaN is tiny.
pub open spec fn is_listed(w: RawWindow) -> bool {
    &&& w.layer == Some(0i64)
    &&& w.number is Some
    &&& w.bounds is Some
    &&& w.bounds->0.x is Some
    &&& w.bounds->0.y is Some
    &&& w.bounds->0.width is Some
    &&& w.bounds->0.height is Some
    &&& !(w.bounds->0.width->0.number_below(Scalar { bits: MIN_SIDE_BITS }))
    &&& !(w.bounds->0.height->0.number_below(Scalar { bits: MIN_SIDE_BITS }))
}

/// Text that may be missing.
pub open spec fn text_or_empty(t: Option<String>) -> Seq<char> {
    match t {
        Some(t) => t@,
        None => Seq::empty(),
    }
}

/// `e` is the entry of a window.
pub open spec fn is_entry(e: WindowListEntry, w: RawWindow) -> bool {
    &&& e.info.id == low_u32(w.number->0)
    &&& e.info.title@ == text_or_empty(w.name)
    &&& e.info.x == w.bounds->0.x->0
    &&& e.info.y == w.bounds->0.y->0
    &&& e.info.width == w.bounds->0.width->0
    &&& e.info.height == w.bounds->0.height->0
    &&& e.pid == (match w.owner_pid {
        Some(pid) => low_i32(pid),
        None => 0,
    })
    &&& e.app_name@ == text_or_empty(w.owner_name)
}

fn or_empty(t: Option<String>) -> (s: String)
    ensures
        s@ == text_or_empty(t),
{
    match t {
        Some(t) => t,
        None => String::new(),
    }
}

/// The entry of a window, if it can be shared.
pub fn entry_of(w: RawWindow) -> (r: Option<WindowListEntry>)
    ensures
        match r {
            Some(e) => is_listed(w) && is_entry(e, w),
            None => !is_listed(w),
        },
{
    let layer: i64 = match w.layer {
        Some(layer) => layer,
        None => -1,
    };
    if layer != 0 {
        return None;
    }
    let number: i64 = match w.number {
        Some(n) => n,
        None => {
            return None;
        },
    };
    let bounds: RawBounds = match w.bounds {
        Some(b) => b,
        None => {
            return None;
        },
    };
    match (bounds.x, bounds.y, bounds.width, bounds.height) {
        (Some(x), Some(y), Some(width), Some(height)) => {
            let least: Scalar = Scalar::from_bits(MIN_SIDE_BITS);
            if width.below(least) || height.below(least) {
                return None;
            }
            let pid: i32 = match w.owner_pid {
                Some(pid) => low_bits_signed(pid),
                None => 0,
            };
            Some(
                WindowListEntry {
                    info: WindowInfo {
                        id: low_bits(number),
                        title: or_empty(w.name),
                        x,
                        y,
                        width,
                        height,
                    },
                    pid,
                    app_name: or_empty(w.owner_name),
                },
            )
        },
        _ => None,
    }
}

/// The windows of a list that can be shared.
pub open spec fn listed_windows(raw: Seq<RawWindow>) -> Seq<RawWindow> {
    raw.filter(|w: RawWindow| is_listed(w))
}

/// On-screen windows of the base layer with real bounds, in the order they
/// come in (front to back).
pub fn list_windows(raw: Vec<RawWindow>) -> (r: Vec<WindowListEntry>)
    ensures
        r@.len() == listed_windows(raw@).len(),
        forall|i: int|
            0 <= i < r@.len() ==> is_entry(#[trigger] r@[i], listed_windows(raw@)[i]),
{
    let mut out: Vec<WindowListEntry> = Vec::new();
    let ghost all = raw@;
    assert(all.take(0) =~= Seq::<RawWindow>::empty());
    reveal(Seq::filter);
    for w in it: raw
        invariant
            it.seq() == all,
            out@.len() == listed_windows(all.take(it.index() as int)).len(),
            forall|i: int|
                0 <= i < out@.len() ==> is_entry(
                    #[trigger] out@[i],
                    listed_windows(all.take(it.index() as int))[i],
                ),
    {
        let ghost k = it.index() as int;
        reveal(Seq::filter);
        assert(all.take(k + 1).drop_last() =~= all.take(k));
        assert(all.take(k + 1).last() == w);
        if let Some(e) = entry_of(w) {
            out.push(e);
        }
    }
    assert(all.take(all.len() as int) =~= all);
    out
}

/// The tracker's source of windows.
pub struct CgSnapshotSource;

impl CgSnapshotSource {
    /// The windows of a listing; a listing that failed counts as empty.
    pub fn windows(&self, listed: Option<Vec<WindowListEntry>>) -> (r: Vec<WindowInfo>)
        ensures
            match listed {
                Some(entries) => r@ == entries@.map_values(|e: WindowListEntry| e.info),
                None => r@ == Seq::<WindowInfo>::empty(),
            },
    {
        let mut out: Vec<WindowInfo> = Vec::new();
        match listed {
            Some(entries) => {
                let ghost all = entries@;
                for e in it: entries
                    invariant
                        it.seq() == all,
                        out@.len() == it.index(),
                        forall|i: int| 0 <= i < it.index() ==> #[trigger] out@[i] == all[i].info,
                {
                    assert(all[it.index() as int] == e);
                    out.push(e.info);
                }
                assert(out@ =~= all.map_values(|e: WindowListEntry| e.info));
            },
            None => {},
        }
        out
    }
}

/// What accessibility says of a window.
#[derive(Debug, Clone, Copy, PartialEq, Eq, Structural)]
pub struct AxWindowMeta {
    pub role: AxRole,
    pub minimized: bool,
}

/// A child of a window, as accessibility shows it.
#[derive(Debug, Clone, Copy)]
pub struct AxChild {
    pub is_sheet: bool,
    pub id: Option<u32>,
}

/// A window, as accessibility shows it.
pub struct AxWindow {
    pub id: Option<u32>,
    pub minimized: Option<bool>,
    pub children: Vec<AxChild>,
}

/// The metadata with a window's first `n` children: attached sheets are
/// children of the window, not windows of their own.
pub open spec fn with_children(
    meta: Map<u32, AxWindowMeta>,
    children: Seq<AxChild>,
    n: int,
) -> Map<u32, AxWindowMeta>
    decreases n,
{
    if n <= 0 {
        meta
    } else {
        let before = with_children(meta, children, n - 1);
        let child = children[n - 1];
        if child.is_sheet && child.id is Some {
            before.insert(child.id->0, AxWindowMeta { role: AxRole::Sheet, minimized: false })
        } else {
            before
        }
    }
}

/// The metadata with one window.
pub open spec fn with_window(meta: Map<u32, AxWindowMeta>, w: AxWindow) -> Map<u32, AxWindowMeta> {
    let own = match w.id {
        Some(id) => meta.insert(
            id,
            AxWindowMeta { role: AxRole::Window, minimized: w.minimized == Some(true) },
        ),
        None => meta,
    };
    with_children(own, w.children@, w.children@.len() as int)
}

/// The metadata of the first `n` windows.
pub open spec fn ax_meta(windows: Seq<AxWindow>, n: int) -> Map<u32, AxWindowMeta>
    decreases n,
{
    if n <= 0 {
        Map::empty()
    } else {
        with_window(ax_meta(windows, n - 1), windows[n - 1])
    }
}

/// Window id to metadata for every window, and attached sheet, that
/// accessibility shows.
pub fn ax_meta_of(windows: &Vec<AxWindow>) -> (out: HashMap<u32, AxWindowMeta>)
    ensures
        out@ == ax_meta(windows@, windows@.len() as int),
{
    let mut out: HashMap<u32, AxWindowMeta> = HashMap::new();
    assert(out@ =~= Map::<u32, AxWindowMeta>::empty());
    let mut i: usize = 0;
    while i < windows.len()
        invariant
            i <= windows@.len(),
            out@ == ax_meta(windows@, i as int),
        decreases windows@.len() - i,
    {
        let w: &AxWindow = &windows[i];
        let ghost before = out@;
        if let Some(id) = w.id {
            let minimized: bool = match w.minimized {
                Some(m) => m,
                None => false,
            };
            let _ = out.insert(id, AxWindowMeta { role: AxRole::Window, minimized });
        }
        let ghost own = out@;
        let mut j: usize = 0;
        while j < w.children.len()
            invariant
                j <= w.children@.len(),
                out@ == with_children(own, w.children@, j as int),
            decreases w.children@.len() - j,
        {
            let child: AxChild = w.children[j];
            if child.is_sheet {
                if let Some(id) = child.id {
                    let meta = AxWindowMeta { role: AxRole::Sheet, minimized: false };
                    let _ = out.insert(id, meta);
                }
            }
            j += 1;
        }
        assert(out@ == with_window(before, *w));
        i += 1;
    }
    out
}

/// Whether a window belongs in a snapshot: it has a number, a process and real
/// bounds, and it is on screen or minimized.
pub open spec fn is_snapshot(w: RawWindow, on_screen: bool, meta: Option<AxWindowMeta>) -> bool {
    &&& w.number is Some
    &&& w.owner_pid is Some
    &&& w.bounds is Some
    &&& w.bounds->0.x is Some
    &&& w.bounds->0.y is Some
    &&& w.bounds->0.width is Some
    &&& w.bounds->0.height is Some
    &&& on_screen || (meta is Some && meta->0.minimized)
}

/// A window as the tracker sees it, given what accessibility says of it; a
/// window that accessibility does not know has no role and is not minimized.
pub fn snapshot_window(w: RawWindow, on_screen: bool, meta: Option<AxWindowMeta>) -> (r: Option<
    SnapshotWindow,
>)
    ensures
        match r {
            Some(s) => {
                &&& is_snapshot(w, on_screen, meta)
                &&& s.info.id == low_u32(w.number->0)
                &&& s.info.title@ == text_or_empty(w.name)
                &&& s.info.x == w.bounds->0.x->0
                &&& s.info.y == w.bounds->0.y->0
                &&& s.info.width == w.bounds->0.width->0
                &&& s.info.height == w.bounds->0.height->0
                &&& s.pid == low_i32(w.owner_pid->0)
                &&& s.layer == (match w.layer {
                    Some(layer) => layer as int,
                    None => -1,
                })
                &&& s.on_screen == on_screen
                &&& s.ax_role == (match meta {
                    Some(m) => m.role,
                    None => AxRole::Unknown,
                })
                &&& s.minimized == (meta is Some && meta->0.minimized)
            },
            None => !is_snapshot(w, on_screen, meta),
        },
{
    let (ax_role, minimized): (AxRole, bool) = match meta {
        Some(m) => (m.role, m.minimized),
        None => (AxRole::Unknown, false),
    };
    if !on_screen && !minimized {
        return None;
    }
    let layer: i64 = match w.layer {
        Some(layer) => layer,
        None => -1,
    };
    match (w.number, w.owner_pid, w.bounds) {
        (Some(number), Some(pid), Some(b)) => match (b.x, b.y, b.width, b.height) {
            (Some(x), Some(y), Some(width), Some(height)) => Some(
                SnapshotWindow {
                    info: WindowInfo {
                        id: low_bits(number),
                        title: or_empty(w.name),
                        x,
                        y,
                        width,
                        height,
                    },
                    pid: low_bits_signed(pid),
                    layer,
                    on_screen,
                    ax_role,
                    minimized,
                },
            ),
            _ => None,
        },
        _ => None,
    }
}

/// An application with windows that can be shared.
#[derive(Debug, PartialEq, Eq)]
pub struct AppEntry {
    pub pid: i32,
    pub app_name: String,
    pub window_titles: Vec<String>,
}

/// What an [`AppEntry`] says.
pub ghost struct AppEntryView {
    pub pid: i32,
    pub app_name: String,
    pub window_titles: Seq<String>,
}

impl View for AppEntry {
    type V = AppEntryView;

    open spec fn view(&self) -> AppEntryView {
        AppEntryView {
            pid: self.pid,
            app_name: self.app_name,
            window_titles: self.window_titles@,
        }
    }
}

pub open spec fn app_views(apps: Seq<AppEntry>) -> Seq<AppEntryView> {
    apps.map_values(|a: AppEntry| a@)
}

/// `i` is the first application of a process.
pub open spec fn is_app_of(apps: Seq<AppEntryView>, pid: i32, i: int) -> bool {
    &&& 0 <= i < apps.len()
    &&& apps[i].pid == pid
    &&& forall|j: int| 0 <= j < i ==> (#[trigger] apps[j]).pid != pid
}

/// The applications with one more window: it joins its application's, or
/// brings a new one.
pub open spec fn with_entry(apps: Seq<AppEntryView>, e: WindowListEntry) -> Seq<AppEntryView> {
    if exists|i: int| is_app_of(apps, e.pid, i) {
        let i = choose|i: int| is_app_of(apps, e.pid, i);
        apps.update(
            i,
            (AppEntryView {
                window_titles: apps[i].window_titles.push(e.info.title),
                ..apps[i]
            }),
        )
    } else {
        apps.push(
            AppEntryView {
                pid: e.pid,
                app_name: e.app_name,
                window_titles: seq![e.info.title],
            },
        )
    }
}

/// The applications of some windows, in the order of their first windows.
pub open spec fn apps_of(entries: Seq<WindowListEntry>) -> Seq<AppEntryView>
    decreases entries.len(),
{
    if entries.len() == 0 {
        Seq::empty()
    } else {
        with_entry(apps_of(entries.drop_last()), entries.last())
    }
}

fn add_entry(apps: &mut Vec<AppEntry>, e: WindowListEntry)
    ensures
        app_views(final(apps)@) == with_entry(app_views(old(apps)@), e),
{
    let ghost before = app_views(apps@);
    let mut i: usize = 0;
    while i < apps.len()
        invariant
            i <= apps@.len(),
            app_views(apps@) == before,
            before == app_views(old(apps)@),
            forall|j: int| 0 <= j < i ==> (#[trigger] before[j]).pid != e.pid,
        decreases apps@.len() - i,
    {
        assert(before[i as int] == apps@[i as int]@);
        if apps[i].pid == e.pid {
            assert(is_app_of(before, e.pid, i as int));
            assert forall|k: int| is_app_of(before, e.pid, k) implies k == i by {
                if k < i {
                    assert(before[k].pid != e.pid);
                }
            }
            let ghost list = apps@;
            let mut app: AppEntry = apps.remove(i);
            app.window_titles.push(e.info.title);
            apps.insert(i, app);
            assert(apps@ =~= list.update(i as int, app));
            assert(app_views(apps@) =~= with_entry(before, e));
            return;
        }
        i += 1;
    }
    assert forall|k: int| !is_app_of(before, e.pid, k) by {
        if 0 <= k < before.len() {
            assert(before[k].pid != e.pid);
        }
    }
    let mut window_titles: Vec<String> = Vec::new();
    window_titles.push(e.info.title);
    apps.push(AppEntry { pid: e.pid, app_name: e.app_name, window_titles });
    assert(app_views(apps@)[before.len() as int].window_titles =~= seq![e.info.title]);
    assert(app_views(apps@) =~= with_entry(before, e));
}

/// The applications of some windows, each with its windows' titles.
pub fn list_apps(entries: Vec<WindowListEntry>) -> (apps: Vec<AppEntry>)
    ensures
        app_views(apps@) == apps_of(entries@),
{
    let mut apps: Vec<AppEntry> = Vec::new();
    let ghost all = entries@;
    assert(all.take(0) =~= Seq::<WindowListEntry>::empty());
    assert(app_views(apps@) =~= Seq::<AppEntryView>::empty());
    for e in it: entries
        invariant
            it.seq() == all,
            app_views(apps@) == apps_of(all.take(it.index() as int)),
    {
        let ghost k = it.index() as int;
        assert(all.take(k + 1).drop_last() =~= all.take(k));
        assert(all.take(k + 1).last() == e);
        add_entry(&mut apps, e);
    }
    assert(all.take(all.len() as int) =~= all);
    apps
}

/// No application is listed twice.
pub proof fn apps_are_distinct(entries: Seq<WindowListEntry>)
    ensures
        forall|i: int, j: int|
            0 <= i < j < apps_of(entries).len() ==> (#[trigger] apps_of(entries)[i]).pid != (
            #[trigger] apps_of(entries)[j]).pid,
    decreases entries.len(),
{
    if entries.len() > 0 {
        apps_are_distinct(entries.drop_last());
        let before = apps_of(entries.drop_last());
        let e = entries.last();
        let after = with_entry(before, e);
        if !exists|i: int| is_app_of(before, e.pid, i) {
            assert forall|i: int| 0 <= i < before.len() implies (#[trigger] before[i]).pid
                != e.pid by {
                first_of_pid(before, e.pid, i);
            }
        } else {
            let k = choose|k: int| is_app_of(before, e.pid, k);
            assert forall|i: int| 0 <= i < before.len() implies (#[trigger] after[i]).pid
                == before[i].pid by {}
        }
    }
}

proof fn first_of_pid(apps: Seq<AppEntryView>, pid: i32, i: int)
    requires
        0 <= i < apps.len(),
    ensures
        apps[i].pid == pid ==> exists|k: int| is_app_of(apps, pid, k),
    decreases i,
{
    if apps[i].pid == pid && !is_app_of(apps, pid, i) {
        let j = choose|j: int| 0 <= j < i && (#[trigger] apps[j]).pid == pid;
        first_of_pid(apps, pid, j);
    }
}

/// A channel without the alpha it was multiplied with.
pub open spec fn unpremultiplied(c: int, a: int) -> int {
    if a == 0 || a == 255 {
        c
    } else if c * 255 / a > 255 {
        255
    } else {
        c * 255 / a
    }
}

/// Byte `k` of the RGBA image of a premultiplied BGRA buffer with rows `bpr`
/// bytes apart.
pub open spec fn straight_byte(src: Seq<u8>, w: int, bpr: int, k: int) -> u8 {
    let (xx, yy, c) = ((k / 4) % w, (k / 4) / w, k % 4);
    let at = yy * bpr + 4 * xx;
    if c == 3 {
        src[at + 3]
    } else {
        unpremultiplied(src[at + 2 - c] as int, src[at + 3] as int) as u8
    }
}

/// The RGBA bytes of a premultiplied BGRA buffer.
pub open spec fn straight_bytes(src: Seq<u8>, w: int, h: int, bpr: int) -> Seq<u8> {
    Seq::new((w * h * 4) as nat, |k: int| straight_byte(src, w, bpr, k))
}

fn unpremultiply(c: u8, a: u8) -> (r: u8)
    ensures
        r == unpremultiplied(c as int, a as int),
{
    if a == 0 || a == 255 {
        return c;
    }
    let scaled: u32 = c as u32 * 255 / a as u32;
    if scaled > 255 {
        255
    } else {
        scaled as u8
    }
}

/// A buffer holds `h` rows of `w` four-byte pixels, `bpr` bytes apart.
pub open spec fn holds_rows(src: Seq<u8>, w: int, h: int, bpr: int) -> bool {
    h > 0 ==> (h - 1) * bpr + 4 * w <= src.len()
}

/// Where a row starts in a buffer that holds it.
fn row_start(src: &[u8], w: usize, h: usize, bpr: usize, row: usize) -> (at: usize)
    requires
        holds_rows(src@, w as int, h as int, bpr as int),
        row < h,
    ensures
        at == row * bpr,
        at + 4 * w <= src@.len(),
{
    proof {
        assert(row * bpr <= (h - 1) * bpr) by (nonlinear_arith)
            requires
                row <= h - 1,
                0 <= bpr,
        ;
        assert(0 <= row * bpr) by (nonlinear_arith);
        assert(src.len() == src@.len());
    }
    row * bpr
}

/// A window's snapshot as an image. The window server delivers BGRA with
/// premultiplied alpha; the image's alpha is straight, so that it composites
/// correctly once decoded on the client.
pub fn snapshot_image(src: &[u8], width: u32, height: u32, bpr: usize) -> (img: RgbaImage)
    requires
        holds_rows(src@, width as int, height as int, bpr as int),
    ensures
        img.width == width,
        img.height == height,
        img.data@ == straight_bytes(src@, width as int, height as int, bpr as int),
        packed(width, height, img.data@),
{
    let w: usize = width as usize;
    let h: usize = height as usize;
    let ghost want = straight_bytes(src@, w as int, h as int, bpr as int);
    let mut data: Vec<u8> = Vec::new();
    let mut yy: usize = 0;
    assert(want.len() == w * h * 4) by {
        assert(0 <= w * h) by (nonlinear_arith);
    }
    while yy < h
        invariant
            w == width,
            h == height,
            holds_rows(src@, w as int, h as int, bpr as int),
            want == straight_bytes(src@, w as int, h as int, bpr as int),
            want.len() == w * h * 4,
            yy <= h,
            0 <= yy * w * 4 <= want.len(),
            data@ == want.take(yy * w * 4),
        decreases h - yy,
    {
        let start: usize = row_start(src, w, h, bpr, yy);
        let mut xx: usize = 0;
        proof {
            row_inside(w as int, h as int, yy as int);
        }
        while xx < w
            invariant
                start == yy * bpr,
                start + 4 * w <= src@.len(),
                want == straight_bytes(src@, w as int, h as int, bpr as int),
                want.len() == w * h * 4,
                yy < h,
                xx <= w,
                0 <= yy * w,
                yy * w + w <= w * h,
                data@ == want.take((yy * w + xx) * 4),
            decreases w - xx,
        {
            assert(src.len() == src@.len());
            let at: usize = start + 4 * xx;
            let a: u8 = src[at + 3];
            let r: u8 = unpremultiply(src[at + 2], a);
            let g: u8 = unpremultiply(src[at + 1], a);
            let b: u8 = unpremultiply(src[at], a);
            data.push(r);
            data.push(g);
            data.push(b);
            data.push(a);
            proof {
                place(w as int, yy as int, xx as int);
                let p = yy * w + xx;
                let k = p * 4;
                assert(k / 4 == p && (k + 1) / 4 == p && (k + 2) / 4 == p && (k + 3) / 4 == p);
                assert(k % 4 == 0 && (k + 1) % 4 == 1 && (k + 2) % 4 == 2 && (k + 3) % 4 == 3);
                assert(want[k] == r);
                assert(want[k + 1] == g);
                assert(want[k + 2] == b);
                assert(want[k + 3] == a);
                assert(data@ =~= want.take((p + 1) * 4));
            }
            xx += 1;
        }
        proof {
            assert((yy + 1) * w == yy * w + w) by (nonlinear_arith);
        }
        yy += 1;
    }
    assert(h * w * 4 == w * h * 4) by (nonlinear_arith);
    assert(data@ =~= want);
    RgbaImage { width, height, data }
}

/// Rows of `4 * w` bytes, `bpr` bytes apart, without the padding.
pub open spec fn packed_rows(src: Seq<u8>, w: int, h: int, bpr: int) -> Seq<u8>
    decreases h,
{
    if h <= 0 {
        Seq::empty()
    } else {
        packed_rows(src, w, h - 1, bpr) + src.subrange((h - 1) * bpr, (h - 1) * bpr + 4 * w)
    }
}

/// The frame in a captured buffer: tightly packed, the rows' padding
/// stripped. A buffer of another size than expected (in flight during a
/// reconfigure) is dropped, not stretched.
pub fn captured_frame(
    src: &[u8],
    buf_w: usize,
    buf_h: usize,
    bpr: usize,
    expected: (u32, u32),
) -> (r: Option<BgraFrame>)
    requires
        buf_w == expected.0 && buf_h == expected.1 ==> holds_rows(
            src@,
            buf_w as int,
            buf_h as int,
            bpr as int,
        ),
    ensures
        match r {
            Some(f) => {
                &&& buf_w == expected.0
                &&& buf_h == expected.1
                &&& f.width == expected.0
                &&& f.height == expected.1
                &&& f.data@ == packed_rows(src@, buf_w as int, buf_h as int, bpr as int)
                &&& packed(f.width, f.height, f.data@)
            },
            None => buf_w != expected.0 || buf_h != expected.1,
        },
{
    if buf_w != expected.0 as usize || buf_h != expected.1 as usize {
        return None;
    }
    let mut data: Vec<u8> = Vec::new();
    let mut row: usize = 0;
    while row < buf_h
        invariant
            row <= buf_h,
            buf_w == expected.0,
            holds_rows(src@, buf_w as int, buf_h as int, bpr as int),
            data@ == packed_rows(src@, buf_w as int, row as int, bpr as int),
            data@.len() == row * buf_w * 4,
        decreases buf_h - row,
    {
        let start: usize = row_start(src, buf_w, buf_h, bpr, row);
        assert(src.len() == src@.len());
        extend(&mut data, &src[start..start + buf_w * 4]);
        assert((row + 1) * buf_w == row * buf_w + buf_w) by (nonlinear_arith);
        row += 1;
    }
    assert(buf_h * buf_w * 4 == buf_w * buf_h * 4) by (nonlinear_arith);
    Some(BgraFrame { width: expected.0, height: expected.1, data })
}

/// Why a capture cannot be had in some size.
#[derive(Debug, Clone, Copy, PartialEq, Eq, Structural)]
pub enum CaptureError {
    OddSize { width: u32, height: u32 },
    EmptySize,
    NotStarted,
}

/// Whether a capture of that size can be created.
pub fn check_capture_size(width_px: u32, height_px: u32) -> (r: Result<(), CaptureError>)
    ensures
        r == (if width_px % 2 != 0 || height_px % 2 != 0 {
            Err::<(), CaptureError>(CaptureError::OddSize { width: width_px, height: height_px })
        } else {
            Ok(())
        }),
{
    if width_px % 2 != 0 || height_px % 2 != 0 {
        Err(CaptureError::OddSize { width: width_px, height: height_px })
    } else {
        Ok(())
    }
}

/// Whether a capture can be changed to that size.
pub fn check_reconfigure(width_px: u32, height_px: u32, started: bool) -> (r: Result<
    (),
    CaptureError,
>)
    ensures
        r == (if width_px % 2 != 0 || height_px % 2 != 0 {
            Err::<(), CaptureError>(CaptureError::OddSize { width: width_px, height: height_px })
        } else if width_px == 0 || height_px == 0 {
            Err(CaptureError::EmptySize)
        } else if !started {
            Err(CaptureError::NotStarted)
        } else {
            Ok(())
        }),
{
    match check_capture_size(width_px, height_px) {
        Err(e) => {
            return Err(e);
        },
        Ok(_) => {},
    }
    if width_px == 0 || height_px == 0 {
        Err(CaptureError::EmptySize)
    } else if !started {
        Err(CaptureError::NotStarted)
    } else {
        Ok(())
    }
}

} // verus!
