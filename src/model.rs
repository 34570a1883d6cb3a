//! The registry as a mathematical value, and each engine operation as a
//! function on it.
use vstd::prelude::*;

use crate::messages::{
    Atom, Request, Response, WinMove, WinResize, WinVisbilty, WinZIndex, Window, WindowInfo, ZIndexType,
};
use crate::order::is_stable_order;
use crate::protocol::{
    eligible, has_bit, ConfigureRequestEvent, ConfigureWindow, Event, StackMode, WindowAttributes,
    X11Request, CONFIG_HEIGHT, CONFIG_WIDTH, CONFIG_X, CONFIG_Y,
};

verus! {

/// The authoritative record of one managed window.
#[derive(Clone, Copy, Debug, PartialEq, Eq, Structural)]
pub struct WinInfo {
    pub id: Window,
    pub zindex: ZIndexType,
    /// Clock reading when the engine first observed the window.
    pub discovery_time: u64,
    /// Clock reading of the last change of the zindex or the visibility.
    pub last_update_time: u64,
}

/// Whether some record of `s` has id `id`.
pub open spec fn has_id(s: Seq<WinInfo>, id: Window) -> bool {
    exists|i: int| 0 <= i < s.len() && #[trigger] s[i].id == id
}

/// No two records of `s` share an id.
pub open spec fn unique_ids(s: Seq<WinInfo>) -> bool {
    forall|i: int, j: int|
        0 <= i < s.len() && 0 <= j < s.len() && #[trigger] s[i].id == #[trigger] s[j].id ==> i == j
}

/// The position of the record with id `id` in `s`.
pub open spec fn index_of(s: Seq<WinInfo>, id: Window) -> int
    recommends
        has_id(s, id),
{
    choose|i: int| 0 <= i < s.len() && #[trigger] s[i].id == id
}

/// `s` without the record of id `id`.
pub open spec fn without(s: Seq<WinInfo>, id: Window) -> Seq<WinInfo> {
    if has_id(s, id) {
        s.remove(index_of(s, id))
    } else {
        s
    }
}

/// The zindex of each record of `s`, in order.
pub open spec fn zkeys(s: Seq<WinInfo>) -> Seq<u32> {
    s.map_values(|w: WinInfo| w.zindex)
}

/// The clock after one reading: it advances by one, and stays at its maximum.
pub open spec fn next_tick(c: u64) -> u64 {
    if c < u64::MAX {
        (c + 1) as u64
    } else {
        c
    }
}

/// A record's times are ordered, and its last update precedes the clock
/// (unless the clock has reached its maximum).
pub open spec fn stamped_before(w: WinInfo, clock: u64) -> bool {
    &&& w.discovery_time <= w.last_update_time
    &&& w.last_update_time <= clock
    &&& clock == u64::MAX || w.last_update_time < clock
}

/// The configure request that stacks a window, with its geometry, relative to its sibling.
pub open spec fn configure_with_geometry(
    id: Window,
    loc: (i32, i32),
    size: (u32, u32),
    mode: StackMode,
) -> X11Request {
    X11Request::Configure(
        ConfigureWindow {
            window: id,
            x: Some(loc.0),
            y: Some(loc.1),
            width: Some(size.0),
            height: Some(size.1),
            stack_mode: mode,
        },
    )
}

/// The configure request that only raises a window above its siblings.
pub open spec fn raise_only(id: Window) -> X11Request {
    X11Request::Configure(
        ConfigureWindow {
            window: id,
            x: None,
            y: None,
            width: None,
            height: None,
            stack_mode: StackMode::Above,
        },
    )
}

/// What the engine forwards for a client's ConfigureRequest: the fields the
/// client set, always stacked below.
pub open spec fn forwarded_configure(e: ConfigureRequestEvent) -> X11Request {
    X11Request::Configure(
        ConfigureWindow {
            window: e.window,
            x: if has_bit(e.value_mask, CONFIG_X) { Some(e.x as i32) } else { None },
            y: if has_bit(e.value_mask, CONFIG_Y) { Some(e.y as i32) } else { None },
            width: if has_bit(e.value_mask, CONFIG_WIDTH) { Some(e.width as u32) } else { None },
            height: if has_bit(e.value_mask, CONFIG_HEIGHT) { Some(e.height as u32) } else { None },
            stack_mode: StackMode::Below,
        },
    )
}

/// Whether a record was discovered at or after clock reading `t`.
pub open spec fn discovered_since(t: u64) -> spec_fn(WinInfo) -> bool {
    |w: WinInfo| w.discovery_time >= t
}

/// The state of the engine's registry.
pub struct RegistryModel {
    pub visible: Seq<WinInfo>,
    pub hidden: Seq<WinInfo>,
    /// Position overlay.
    pub loc: Map<Window, (i32, i32)>,
    /// Size overlay.
    pub size: Map<Window, (u32, u32)>,
    /// Clock reading of the last listing of new windows.
    pub last_discovery: u64,
    /// The engine's monotonic clock: the reading it hands out next.
    pub clock: u64,
    pub virtual_root: Window,
    pub pending_input_atom: Atom,
}

impl RegistryModel {
    /// A registry that manages no window yet.
    pub open spec fn empty(virtual_root: Window, pending_input_atom: Atom) -> RegistryModel {
        RegistryModel {
            visible: Seq::empty(),
            hidden: Seq::empty(),
            loc: Map::empty(),
            size: Map::empty(),
            last_discovery: 0,
            clock: 0,
            virtual_root,
            pending_input_atom,
        }
    }

    pub open spec fn tracks(self, id: Window) -> bool {
        has_id(self.visible, id) || has_id(self.hidden, id)
    }

    /// No window is both visible and hidden.
    pub open spec fn keys_disjoint(self) -> bool {
        forall|id: Window| #[trigger] has_id(self.visible, id) ==> !has_id(self.hidden, id)
    }

    /// The virtual root is never managed.
    pub open spec fn root_untracked(self) -> bool {
        !self.tracks(self.virtual_root)
    }

    /// Overlays exist only for managed windows.
    pub open spec fn overlays_tracked(self) -> bool {
        &&& forall|id: Window| #[trigger] self.loc.contains_key(id) ==> self.tracks(id)
        &&& forall|id: Window| #[trigger] self.size.contains_key(id) ==> self.tracks(id)
    }

    /// Every record's times are ordered and precede the clock; so does the last listing.
    pub open spec fn times_ordered(self) -> bool {
        &&& self.last_discovery <= self.clock
        &&& forall|i: int| 0 <= i < self.visible.len() ==> stamped_before(#[trigger] self.visible[i], self.clock)
        &&& forall|i: int| 0 <= i < self.hidden.len() ==> stamped_before(#[trigger] self.hidden[i], self.clock)
    }

    pub open spec fn wf(self) -> bool {
        &&& unique_ids(self.visible)
        &&& unique_ids(self.hidden)
        &&& self.keys_disjoint()
        &&& self.root_untracked()
        &&& self.overlays_tracked()
        &&& self.times_ordered()
    }

    /// The position overlay of `id`, `(0, 0)` where there is none.
    pub open spec fn loc_of(self, id: Window) -> (i32, i32) {
        if self.loc.contains_key(id) { self.loc[id] } else { (0, 0) }
    }

    /// The size overlay of `id`, `(0, 0)` where there is none.
    pub open spec fn size_of(self, id: Window) -> (u32, u32) {
        if self.size.contains_key(id) { self.size[id] } else { (0, 0) }
    }

    /// How window `id` is reported to the policy process.
    pub open spec fn info_of(self, id: Window) -> WindowInfo {
        WindowInfo {
            id,
            x: self.loc_of(id).0,
            y: self.loc_of(id).1,
            width: self.size_of(id).0,
            height: self.size_of(id).1,
        }
    }

    /// The report of each record of `s`, in order.
    pub open spec fn infos(self, s: Seq<WinInfo>) -> Seq<WindowInfo> {
        s.map_values(|w: WinInfo| self.info_of(w.id))
    }

    /// The registry after one reading of the clock.
    pub open spec fn ticked(self) -> RegistryModel {
        RegistryModel { clock: next_tick(self.clock), ..self }
    }

    /// Takes `id` under management, hidden, unless it is the virtual root or already managed.
    pub open spec fn add_window(self, id: Window) -> RegistryModel {
        if id != self.virtual_root && !self.tracks(id) {
            let rec = WinInfo {
                id,
                zindex: 0,
                discovery_time: self.clock,
                last_update_time: self.clock,
            };
            RegistryModel { hidden: self.hidden.push(rec), ..self }.ticked()
        } else {
            self
        }
    }

    /// Takes `id` under management if its attributes make it eligible.
    pub open spec fn add_if_eligible(self, id: Window, attrs: WindowAttributes) -> RegistryModel {
        if eligible(attrs) {
            self.add_window(id)
        } else {
            self
        }
    }

    /// Adds each eligible window of a scan, in order.
    pub open spec fn scan(self, wins: Seq<(Window, WindowAttributes)>) -> RegistryModel
        decreases wins.len(),
    {
        if wins.len() == 0 {
            self
        } else {
            self.scan(wins.drop_last()).add_if_eligible(wins.last().0, wins.last().1)
        }
    }

    /// Forgets `id`: its record and its overlays.
    pub open spec fn remove_window(self, id: Window) -> RegistryModel {
        RegistryModel {
            visible: without(self.visible, id),
            hidden: without(self.hidden, id),
            loc: self.loc.remove(id),
            size: self.size.remove(id),
            ..self
        }
    }

    /// Sets the zindex of `id`; the flag tells whether the value changed.
    pub open spec fn set_zindex(self, id: Window, z: ZIndexType) -> (RegistryModel, bool) {
        if has_id(self.hidden, id) {
            let i = index_of(self.hidden, id);
            if self.hidden[i].zindex != z {
                let rec = WinInfo { zindex: z, last_update_time: self.clock, ..self.hidden[i] };
                (RegistryModel { hidden: self.hidden.update(i, rec), ..self }.ticked(), true)
            } else {
                (self, false)
            }
        } else if has_id(self.visible, id) {
            let i = index_of(self.visible, id);
            if self.visible[i].zindex != z {
                let rec = WinInfo { zindex: z, last_update_time: self.clock, ..self.visible[i] };
                (RegistryModel { visible: self.visible.update(i, rec), ..self }.ticked(), true)
            } else {
                (self, false)
            }
        } else {
            (self, false)
        }
    }

    /// Moves `id` to the visible or the hidden windows, where it is appended;
    /// the flag tells whether it moved.
    pub open spec fn set_visibility(self, id: Window, to_visible: bool) -> (RegistryModel, bool) {
        if to_visible && has_id(self.hidden, id) {
            let i = index_of(self.hidden, id);
            let rec = WinInfo { last_update_time: self.clock, ..self.hidden[i] };
            (
                RegistryModel {
                    hidden: self.hidden.remove(i),
                    visible: self.visible.push(rec),
                    ..self
                }.ticked(),
                true,
            )
        } else if !to_visible && has_id(self.visible, id) {
            let i = index_of(self.visible, id);
            let rec = WinInfo { last_update_time: self.clock, ..self.visible[i] };
            (
                RegistryModel {
                    visible: self.visible.remove(i),
                    hidden: self.hidden.push(rec),
                    ..self
                }.ticked(),
                true,
            )
        } else {
            (self, false)
        }
    }

    /// Records the position of a managed window.
    pub open spec fn set_loc(self, id: Window, x: i32, y: i32) -> RegistryModel {
        if self.tracks(id) {
            RegistryModel { loc: self.loc.insert(id, (x, y)), ..self }
        } else {
            self
        }
    }

    /// Records the size of a managed window.
    pub open spec fn set_size(self, id: Window, w: u32, h: u32) -> RegistryModel {
        if self.tracks(id) {
            RegistryModel { size: self.size.insert(id, (w, h)), ..self }
        } else {
            self
        }
    }

    /// Applies each zindex change in order; also the ids whose zindex changed.
    pub open spec fn change_indices(self, items: Seq<WinZIndex>) -> (RegistryModel, Seq<Window>)
        decreases items.len(),
    {
        if items.len() == 0 {
            (self, Seq::empty())
        } else {
            let (s, changed) = self.change_indices(items.drop_last());
            let (t, moved) = s.set_zindex(items.last().id, items.last().zindex);
            (t, if moved { changed.push(items.last().id) } else { changed })
        }
    }

    /// Applies each visibility change in order; also the ids that moved.
    pub open spec fn change_visibility(self, items: Seq<WinVisbilty>) -> (RegistryModel, Seq<Window>)
        decreases items.len(),
    {
        if items.len() == 0 {
            (self, Seq::empty())
        } else {
            let (s, changed) = self.change_visibility(items.drop_last());
            let (t, moved) = s.set_visibility(items.last().id, items.last().visible);
            (t, if moved { changed.push(items.last().id) } else { changed })
        }
    }

    /// Records each position in order.
    pub open spec fn move_windows(self, items: Seq<WinMove>) -> RegistryModel
        decreases items.len(),
    {
        if items.len() == 0 {
            self
        } else {
            let m = items.last();
            self.move_windows(items.drop_last()).set_loc(m.id, m.x, m.y)
        }
    }

    /// Records each size in order.
    pub open spec fn resize_windows(self, items: Seq<WinResize>) -> RegistryModel
        decreases items.len(),
    {
        if items.len() == 0 {
            self
        } else {
            let m = items.last();
            self.resize_windows(items.drop_last()).set_size(m.id, m.width, m.height)
        }
    }

    /// The hidden windows discovered since the last listing, in order.
    pub open spec fn newly_discovered(self) -> Seq<WinInfo> {
        self.hidden.filter(discovered_since(self.last_discovery))
    }

    /// Whether `r` lists the newly discovered windows, by zindex descending,
    /// equal zindexes in registry order.
    pub open spec fn is_new_window_list(self, r: Seq<WindowInfo>) -> bool {
        let n = self.newly_discovered();
        exists|o: Seq<usize>|
            #[trigger] is_stable_order(zkeys(n), o, true) && r == o.map_values(
                |k: usize| self.info_of(n[k as int].id),
            )
    }

    /// The registry after a listing of new windows.
    pub open spec fn drained(self) -> RegistryModel {
        RegistryModel { last_discovery: self.clock, ..self }
    }

    /// The requests of a commit, for a stable ascending order `o` of the visible windows:
    /// every hidden window below, then the virtual root raised, then the visible
    /// windows raised one after the other, then a flush.
    pub open spec fn commit_plan(self, o: Seq<usize>) -> Seq<X11Request> {
        self.hidden.map_values(
            |w: WinInfo| configure_with_geometry(w.id, self.loc_of(w.id), self.size_of(w.id), StackMode::Below),
        ) + seq![raise_only(self.virtual_root)] + o.map_values(
            |k: usize|
                configure_with_geometry(
                    self.visible[k as int].id,
                    self.loc_of(self.visible[k as int].id),
                    self.size_of(self.visible[k as int].id),
                    StackMode::Above,
                ),
        ) + seq![X11Request::Flush]
    }

    /// Whether `reqs` is the commit of this registry.
    pub open spec fn is_commit(self, reqs: Seq<X11Request>) -> bool {
        exists|o: Seq<usize>|
            #[trigger] is_stable_order(zkeys(self.visible), o, false) && reqs == self.commit_plan(o)
    }

    /// The overlays after a client's ConfigureRequest: the position where both
    /// `x` and `y` are set, the size where both `width` and `height` are set.
    pub open spec fn configure_request(self, e: ConfigureRequestEvent) -> RegistryModel {
        let s = if has_bit(e.value_mask, CONFIG_X) && has_bit(e.value_mask, CONFIG_Y) {
            self.set_loc(e.window, e.x as i32, e.y as i32)
        } else {
            self
        };
        if has_bit(e.value_mask, CONFIG_WIDTH) && has_bit(e.value_mask, CONFIG_HEIGHT) {
            s.set_size(e.window, e.width as u32, e.height as u32)
        } else {
            s
        }
    }

    /// The registry after an event, whether to keep blocking, and the requests to send.
    pub open spec fn handle_event(self, ev: Event) -> (RegistryModel, bool, Seq<X11Request>) {
        match ev {
            Event::MapRequest(w) => (self.add_window(w), true, seq![X11Request::MapWindow(w)]),
            Event::UnmapNotify(w) => (self.remove_window(w), true, Seq::empty()),
            Event::ConfigureRequest(e) => (self.configure_request(e), true, seq![forwarded_configure(e)]),
            Event::ClientMessage(t) => (self, t != self.pending_input_atom, Seq::empty()),
            Event::Other => (self, true, Seq::empty()),
        }
    }

    /// Whether `resp`, with the X11 requests `reqs`, answers `req` in this registry.
    pub open spec fn is_reply(self, req: Request, resp: Response, reqs: Seq<X11Request>) -> bool {
        match req {
            Request::ChangeVisibility(items) => reqs.len() == 0 && match resp {
                Response::VisibiltyChanged(v) => v@ == self.change_visibility(items@).1,
                _ => false,
            },
            Request::ChangeZIndex(items) => reqs.len() == 0 && match resp {
                Response::ZIndexChanged(v) => v@ == self.change_indices(items@).1,
                _ => false,
            },
            Request::ListNewWindows => reqs.len() == 0 && match resp {
                Response::NewWindows(v) => self.is_new_window_list(v@),
                _ => false,
            },
            Request::ListVisibleWindows => reqs.len() == 0 && match resp {
                Response::VisibleWindows(v) => v@ == self.infos(self.visible),
                _ => false,
            },
            Request::ListHiddenWindows => reqs.len() == 0 && match resp {
                Response::HiddenWindows(v) => v@ == self.infos(self.hidden),
                _ => false,
            },
            Request::ResizeWindows(_) => reqs.len() == 0 && resp == Response::ResizeComplete,
            Request::MoveWindows(_) => reqs.len() == 0 && resp == Response::MoveComplete,
            Request::FocusWindow(id) => {
                &&& resp == Response::WindowFocused(has_id(self.visible, id))
                &&& reqs == if has_id(self.visible, id) {
                    seq![X11Request::SetInputFocus(id), X11Request::Flush]
                } else {
                    Seq::empty()
                }
            },
            Request::Commit => resp == Response::CommitComplete && self.is_commit(reqs),
        }
    }

    /// The registry after a control-plane request.
    pub open spec fn after_request(self, req: Request) -> RegistryModel {
        match req {
            Request::ChangeVisibility(items) => self.change_visibility(items@).0,
            Request::ChangeZIndex(items) => self.change_indices(items@).0,
            Request::ListNewWindows => self.drained(),
            Request::ResizeWindows(items) => self.resize_windows(items@),
            Request::MoveWindows(items) => self.move_windows(items@),
            _ => self,
        }
    }
}

/// Which ids a sequence holds after a push.
pub proof fn lemma_has_id_push(s: Seq<WinInfo>, rec: WinInfo)
    ensures
        forall|x: Window| #[trigger] has_id(s.push(rec), x) <==> (has_id(s, x) || rec.id == x),
        unique_ids(s) && !has_id(s, rec.id) ==> unique_ids(s.push(rec)),
{
    let t = s.push(rec);
    assert forall|x: Window| #[trigger] has_id(t, x) <==> (has_id(s, x) || rec.id == x) by {
        if has_id(s, x) {
            let i = choose|i: int| 0 <= i < s.len() && #[trigger] s[i].id == x;
            assert(t[i].id == x);
        }
        if rec.id == x {
            assert(t[s.len() as int].id == x);
        }
        if has_id(t, x) {
            let i = choose|i: int| 0 <= i < t.len() && #[trigger] t[i].id == x;
            if i < s.len() {
                assert(s[i].id == x);
            }
        }
    }
    if unique_ids(s) && !has_id(s, rec.id) {
        assert forall|i: int, j: int|
            0 <= i < t.len() && 0 <= j < t.len() && #[trigger] t[i].id == #[trigger] t[j].id implies i == j by {
            if i < s.len() && j == s.len() {
                assert(s[i].id == rec.id);
            }
            if j < s.len() && i == s.len() {
                assert(s[j].id == rec.id);
            }
        }
    }
}

/// Which ids a sequence of unique ids holds after a removal; they stay unique.
pub proof fn lemma_has_id_remove(s: Seq<WinInfo>, i: int)
    requires
        unique_ids(s),
        0 <= i < s.len(),
    ensures
        unique_ids(s.remove(i)),
        forall|x: Window| #[trigger] has_id(s.remove(i), x) <==> (has_id(s, x) && x != s[i].id),
{
    let t = s.remove(i);
    assert forall|a: int, b: int|
        0 <= a < t.len() && 0 <= b < t.len() && #[trigger] t[a].id == #[trigger] t[b].id implies a == b by {
        let a2 = if a < i { a } else { a + 1 };
        let b2 = if b < i { b } else { b + 1 };
        assert(t[a] == s[a2] && t[b] == s[b2]);
    }
    assert forall|x: Window| #[trigger] has_id(t, x) <==> (has_id(s, x) && x != s[i].id) by {
        if has_id(s, x) && x != s[i].id {
            let k = choose|k: int| 0 <= k < s.len() && #[trigger] s[k].id == x;
            if k < i {
                assert(t[k].id == x);
            } else {
                assert(k != i);
                assert(t[k - 1].id == x);
            }
        }
        if has_id(t, x) {
            let k = choose|k: int| 0 <= k < t.len() && #[trigger] t[k].id == x;
            let k2 = if k < i { k } else { k + 1 };
            assert(s[k2].id == x);
            assert(k2 != i);
        }
    }
}

/// Replacing a record by one of the same id keeps the ids.
pub proof fn lemma_has_id_update(s: Seq<WinInfo>, i: int, rec: WinInfo)
    requires
        0 <= i < s.len(),
        rec.id == s[i].id,
    ensures
        forall|x: Window| #[trigger] has_id(s.update(i, rec), x) <==> has_id(s, x),
        unique_ids(s) ==> unique_ids(s.update(i, rec)),
{
    let t = s.update(i, rec);
    assert forall|x: Window| #[trigger] has_id(t, x) <==> has_id(s, x) by {
        if has_id(s, x) {
            let k = choose|k: int| 0 <= k < s.len() && #[trigger] s[k].id == x;
            assert(t[k].id == x);
        }
        if has_id(t, x) {
            let k = choose|k: int| 0 <= k < t.len() && #[trigger] t[k].id == x;
            assert(s[k].id == x);
        }
    }
    if unique_ids(s) {
        assert forall|a: int, b: int|
            0 <= a < t.len() && 0 <= b < t.len() && #[trigger] t[a].id == #[trigger] t[b].id implies a == b by {
            assert(s[a].id == t[a].id && s[b].id == t[b].id);
        }
    }
}

/// Dropping a record keeps the ids unique, drops exactly that id, and keeps
/// every record stamped before `clock` so.
pub proof fn lemma_without(s: Seq<WinInfo>, id: Window, clock: u64)
    requires
        unique_ids(s),
        forall|j: int| 0 <= j < s.len() ==> stamped_before(#[trigger] s[j], clock),
    ensures
        unique_ids(without(s, id)),
        forall|x: Window| #[trigger] has_id(without(s, id), x) <==> (has_id(s, x) && x != id),
        forall|k: int|
            0 <= k < without(s, id).len() ==> stamped_before(#[trigger] without(s, id)[k], clock),
{
    if has_id(s, id) {
        let i = index_of(s, id);
        lemma_has_id_remove(s, i);
        assert forall|k: int| 0 <= k < without(s, id).len() implies stamped_before(
            #[trigger] without(s, id)[k],
            clock,
        ) by {
            if k < i {
                assert(without(s, id)[k] == s[k]);
            } else {
                assert(without(s, id)[k] == s[k + 1]);
            }
        }
    }
}

impl RegistryModel {
    pub proof fn lemma_add_window(self, id: Window)
        requires
            self.wf(),
        ensures
            self.add_window(id).wf(),
            self.add_window(id).last_discovery == self.last_discovery,
    {
        if id != self.virtual_root && !self.tracks(id) {
            let rec = WinInfo {
                id,
                zindex: 0,
                discovery_time: self.clock,
                last_update_time: self.clock,
            };
            lemma_has_id_push(self.hidden, rec);
            let t = self.add_window(id);
            assert(t.hidden == self.hidden.push(rec));
            assert forall|i: int| 0 <= i < t.hidden.len() implies stamped_before(#[trigger] t.hidden[i], t.clock) by {
                if i < self.hidden.len() {
                    assert(t.hidden[i] == self.hidden[i]);
                }
            }
        }
    }

    pub proof fn lemma_remove_window(self, id: Window)
        requires
            self.wf(),
        ensures
            self.remove_window(id).wf(),
            self.remove_window(id).last_discovery == self.last_discovery,
    {
        let t = self.remove_window(id);
        lemma_without(self.visible, id, self.clock);
        lemma_without(self.hidden, id, self.clock);
    }

    pub proof fn lemma_set_zindex(self, id: Window, z: ZIndexType)
        requires
            self.wf(),
        ensures
            self.set_zindex(id, z).0.wf(),
            self.set_zindex(id, z).0.last_discovery == self.last_discovery,
    {
        let t = self.set_zindex(id, z).0;
        if has_id(self.hidden, id) {
            let i = index_of(self.hidden, id);
            let rec = WinInfo { zindex: z, last_update_time: self.clock, ..self.hidden[i] };
            lemma_has_id_update(self.hidden, i, rec);
            if self.hidden[i].zindex != z {
                assert forall|k: int| 0 <= k < t.hidden.len() implies stamped_before(#[trigger] t.hidden[k], t.clock) by {
                    if k != i {
                        assert(t.hidden[k] == self.hidden[k]);
                    }
                }
            }
        } else if has_id(self.visible, id) {
            let i = index_of(self.visible, id);
            let rec = WinInfo { zindex: z, last_update_time: self.clock, ..self.visible[i] };
            lemma_has_id_update(self.visible, i, rec);
            if self.visible[i].zindex != z {
                assert forall|k: int| 0 <= k < t.visible.len() implies stamped_before(#[trigger] t.visible[k], t.clock) by {
                    if k != i {
                        assert(t.visible[k] == self.visible[k]);
                    }
                }
            }
        }
    }

    pub proof fn lemma_set_visibility(self, id: Window, to_visible: bool)
        requires
            self.wf(),
        ensures
            self.set_visibility(id, to_visible).0.wf(),
            self.set_visibility(id, to_visible).0.last_discovery == self.last_discovery,
    {
        let t = self.set_visibility(id, to_visible).0;
        if to_visible && has_id(self.hidden, id) {
            let i = index_of(self.hidden, id);
            let rec = WinInfo { last_update_time: self.clock, ..self.hidden[i] };
            lemma_has_id_remove(self.hidden, i);
            lemma_has_id_push(self.visible, rec);
            assert forall|k: int| 0 <= k < t.hidden.len() implies stamped_before(#[trigger] t.hidden[k], t.clock) by {
                if k < i {
                    assert(t.hidden[k] == self.hidden[k]);
                } else {
                    assert(t.hidden[k] == self.hidden[k + 1]);
                }
            }
            assert forall|k: int| 0 <= k < t.visible.len() implies stamped_before(#[trigger] t.visible[k], t.clock) by {
                if k < self.visible.len() {
                    assert(t.visible[k] == self.visible[k]);
                }
            }
        } else if !to_visible && has_id(self.visible, id) {
            let i = index_of(self.visible, id);
            let rec = WinInfo { last_update_time: self.clock, ..self.visible[i] };
            lemma_has_id_remove(self.visible, i);
            lemma_has_id_push(self.hidden, rec);
            assert forall|k: int| 0 <= k < t.visible.len() implies stamped_before(#[trigger] t.visible[k], t.clock) by {
                if k < i {
                    assert(t.visible[k] == self.visible[k]);
                } else {
                    assert(t.visible[k] == self.visible[k + 1]);
                }
            }
            assert forall|k: int| 0 <= k < t.hidden.len() implies stamped_before(#[trigger] t.hidden[k], t.clock) by {
                if k < self.hidden.len() {
                    assert(t.hidden[k] == self.hidden[k]);
                }
            }
        }
    }

    pub proof fn lemma_change_indices(self, items: Seq<WinZIndex>)
        requires
            self.wf(),
        ensures
            self.change_indices(items).0.wf(),
            self.change_indices(items).0.last_discovery == self.last_discovery,
        decreases items.len(),
    {
        if items.len() > 0 {
            self.lemma_change_indices(items.drop_last());
            self.change_indices(items.drop_last()).0.lemma_set_zindex(items.last().id, items.last().zindex);
        }
    }

    pub proof fn lemma_change_visibility(self, items: Seq<WinVisbilty>)
        requires
            self.wf(),
        ensures
            self.change_visibility(items).0.wf(),
            self.change_visibility(items).0.last_discovery == self.last_discovery,
        decreases items.len(),
    {
        if items.len() > 0 {
            self.lemma_change_visibility(items.drop_last());
            self.change_visibility(items.drop_last()).0.lemma_set_visibility(
                items.last().id,
                items.last().visible,
            );
        }
    }

    pub proof fn lemma_move_windows(self, items: Seq<WinMove>)
        requires
            self.wf(),
        ensures
            self.move_windows(items).wf(),
            self.move_windows(items).last_discovery == self.last_discovery,
        decreases items.len(),
    {
        if items.len() > 0 {
            self.lemma_move_windows(items.drop_last());
        }
    }

    pub proof fn lemma_resize_windows(self, items: Seq<WinResize>)
        requires
            self.wf(),
        ensures
            self.resize_windows(items).wf(),
            self.resize_windows(items).last_discovery == self.last_discovery,
        decreases items.len(),
    {
        if items.len() > 0 {
            self.lemma_resize_windows(items.drop_last());
        }
    }

    pub proof fn lemma_configure_request(self, e: ConfigureRequestEvent)
        requires
            self.wf(),
        ensures
            self.configure_request(e).wf(),
            self.configure_request(e).last_discovery == self.last_discovery,
    {
    }

    pub proof fn lemma_handle_event(self, ev: Event)
        requires
            self.wf(),
        ensures
            self.handle_event(ev).0.wf(),
            self.handle_event(ev).0.last_discovery == self.last_discovery,
    {
        match ev {
            Event::MapRequest(w) => self.lemma_add_window(w),
            Event::UnmapNotify(w) => self.lemma_remove_window(w),
            Event::ConfigureRequest(e) => self.lemma_configure_request(e),
            _ => {},
        }
    }

    pub proof fn lemma_after_request(self, req: Request)
        requires
            self.wf(),
        ensures
            self.after_request(req).wf(),
            self.after_request(req).last_discovery >= self.last_discovery,
    {
        match req {
            Request::ChangeVisibility(items) => self.lemma_change_visibility(items@),
            Request::ChangeZIndex(items) => self.lemma_change_indices(items@),
            Request::ResizeWindows(items) => self.lemma_resize_windows(items@),
            Request::MoveWindows(items) => self.lemma_move_windows(items@),
            _ => {},
        }
    }
}

} // verus!
