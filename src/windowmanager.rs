//! The engine: the registry of managed windows and the handlers that update it.
use std::collections::HashMap;
use vstd::prelude::*;

use crate::messages::{
    Atom, Request, Response, WinMove, WinResize, WinVisbilty, WinZIndex, Window, WindowInfo, ZIndexType,
};
use crate::model::{
    configure_with_geometry, forwarded_configure, discovered_since, has_id, index_of, raise_only, unique_ids, zkeys,
    RegistryModel, WinInfo,
};
use crate::order::{is_stable_order, stable_order};
use crate::protocol::{
    ConfigureRequestEvent, ConfigureWindow, Event, StackMode, WindowAttributes, X11Request,
    CONFIG_HEIGHT, CONFIG_WIDTH, CONFIG_X, CONFIG_Y,
};

verus! {

broadcast use vstd::std_specs::hash::group_hash_axioms;

/// What a waker sends to wake the engine: a client message of type `atom`
/// addressed to `window`, the root.
#[derive(Clone, Copy, Debug, PartialEq, Eq, Structural)]
pub struct Waker {
    pub window: Window,
    pub atom: Atom,
}

/// The window-state engine.
pub struct WindowManager {
    /// Full-screen window that separates hidden windows (below) from visible ones (above).
    virtual_root_win: Window,
    pending_input_atom: Atom,
    visible_wins: Vec<WinInfo>,
    hidden_wins: Vec<WinInfo>,
    windows_loc: HashMap<Window, (i32, i32)>,
    windows_size: HashMap<Window, (u32, u32)>,
    last_discovery_time: u64,
    clock: u64,
}

impl View for WindowManager {
    type V = RegistryModel;

    closed spec fn view(&self) -> RegistryModel {
        RegistryModel {
            visible: self.visible_wins@,
            hidden: self.hidden_wins@,
            loc: self.windows_loc@,
            size: self.windows_size@,
            last_discovery: self.last_discovery_time,
            clock: self.clock,
            virtual_root: self.virtual_root_win,
            pending_input_atom: self.pending_input_atom,
        }
    }
}

/// The position in `v` of the record of id `id`.
fn find(v: &Vec<WinInfo>, id: Window) -> (r: Option<usize>)
    ensures
        match r {
            Some(i) => i < v.len() && v@[i as int].id == id,
            None => !has_id(v@, id),
        },
{
    let mut i: usize = 0;
    while i < v.len()
        invariant
            i <= v.len(),
            forall|k: int| 0 <= k < i ==> v@[k].id != id,
        decreases v.len() - i,
    {
        if v[i].id == id {
            return Some(i);
        }
        i = i + 1;
    }
    None
}

/// In a sequence of unique ids, the record found for an id is the one `index_of` names.
proof fn lemma_index_of(s: Seq<WinInfo>, i: int, id: Window)
    requires
        unique_ids(s),
        0 <= i < s.len(),
        s[i].id == id,
    ensures
        has_id(s, id),
        index_of(s, id) == i,
{
    assert(s[i].id == id);
    let j = index_of(s, id);
    assert(s[j].id == s[i].id);
}

impl WindowManager {
    /// An engine that manages no window yet.
    pub fn new(virtual_root: Window, pending_input_atom: Atom) -> (wm: WindowManager)
        ensures
            wm@ == RegistryModel::empty(virtual_root, pending_input_atom),
            wm@.wf(),
    {
        WindowManager {
            virtual_root_win: virtual_root,
            pending_input_atom,
            visible_wins: Vec::new(),
            hidden_wins: Vec::new(),
            windows_loc: HashMap::new(),
            windows_size: HashMap::new(),
            last_discovery_time: 0,
            clock: 0,
        }
    }

    pub fn virtual_root(&self) -> (r: Window)
        ensures
            r == self@.virtual_root,
    {
        self.virtual_root_win
    }

    /// Reads the clock, which then advances.
    fn read_clock(&mut self) -> (t: u64)
        ensures
            t == old(self)@.clock,
            final(self)@ == old(self)@.ticked(),
    {
        let t = self.clock;
        if self.clock < u64::MAX {
            self.clock = self.clock + 1;
        }
        t
    }

    /// Takes `id` under management, hidden, unless it is the virtual root or already managed.
    pub fn add_window(&mut self, id: Window)
        requires
            old(self)@.wf(),
        ensures
            final(self)@ == old(self)@.add_window(id),
            final(self)@.wf(),
    {
        proof {
            old(self)@.lemma_add_window(id);
        }
        if id != self.virtual_root_win && find(&self.visible_wins, id).is_none() && find(
            &self.hidden_wins,
            id,
        ).is_none() {
            let t = self.read_clock();
            self.hidden_wins.push(
                WinInfo { id, zindex: 0, discovery_time: t, last_update_time: t },
            );
        }
    }

    /// Takes `id` under management if its attributes make it eligible.
    pub fn add_if_eligible(&mut self, id: Window, attrs: &WindowAttributes)
        requires
            old(self)@.wf(),
        ensures
            final(self)@ == old(self)@.add_if_eligible(id, *attrs),
            final(self)@.wf(),
    {
        if crate::protocol::is_eligible(attrs) {
            self.add_window(id);
        }
    }

    /// Forgets `id`: its record, visible or hidden, and its overlays.
    pub fn remove(&mut self, id: Window)
        requires
            old(self)@.wf(),
        ensures
            final(self)@ == old(self)@.remove_window(id),
            final(self)@.wf(),
    {
        proof {
            old(self)@.lemma_remove_window(id);
        }
        match find(&self.visible_wins, id) {
            Some(i) => {
                proof {
                    lemma_index_of(self.visible_wins@, i as int, id);
                }
                self.visible_wins.remove(i);
            },
            None => {},
        }
        match find(&self.hidden_wins, id) {
            Some(i) => {
                proof {
                    lemma_index_of(self.hidden_wins@, i as int, id);
                }
                self.hidden_wins.remove(i);
            },
            None => {},
        }
        self.windows_loc.remove(&id);
        self.windows_size.remove(&id);
    }

    /// Sets the zindex of `id`; returns whether the value changed.
    pub fn set_zindex(&mut self, id: Window, z: ZIndexType) -> (changed: bool)
        requires
            old(self)@.wf(),
        ensures
            (final(self)@, changed) == old(self)@.set_zindex(id, z),
            final(self)@.wf(),
    {
        proof {
            old(self)@.lemma_set_zindex(id, z);
        }
        match find(&self.hidden_wins, id) {
            Some(i) => {
                proof {
                    lemma_index_of(self.hidden_wins@, i as int, id);
                }
                let w = self.hidden_wins[i];
                if w.zindex != z {
                    let t = self.read_clock();
                    self.hidden_wins.set(
                        i,
                        WinInfo {
                            id: w.id,
                            zindex: z,
                            discovery_time: w.discovery_time,
                            last_update_time: t,
                        },
                    );
                    true
                } else {
                    false
                }
            },
            None => match find(&self.visible_wins, id) {
                Some(i) => {
                    proof {
                        lemma_index_of(self.visible_wins@, i as int, id);
                    }
                    let w = self.visible_wins[i];
                    if w.zindex != z {
                        let t = self.read_clock();
                        self.visible_wins.set(
                            i,
                            WinInfo {
                                id: w.id,
                                zindex: z,
                                discovery_time: w.discovery_time,
                                last_update_time: t,
                            },
                        );
                        true
                    } else {
                        false
                    }
                },
                None => false,
            },
        }
    }

    /// Moves `id` to the visible windows (or to the hidden ones), where it is
    /// appended; returns whether it moved.
    pub fn set_visibility(&mut self, id: Window, to_visible: bool) -> (moved: bool)
        requires
            old(self)@.wf(),
        ensures
            (final(self)@, moved) == old(self)@.set_visibility(id, to_visible),
            final(self)@.wf(),
    {
        proof {
            old(self)@.lemma_set_visibility(id, to_visible);
        }
        if to_visible {
            match find(&self.hidden_wins, id) {
                Some(i) => {
                    proof {
                        lemma_index_of(self.hidden_wins@, i as int, id);
                    }
                    let t = self.read_clock();
                    let w = self.hidden_wins.remove(i);
                    self.visible_wins.push(
                        WinInfo {
                            id: w.id,
                            zindex: w.zindex,
                            discovery_time: w.discovery_time,
                            last_update_time: t,
                        },
                    );
                    true
                },
                None => false,
            }
        } else {
            match find(&self.visible_wins, id) {
                Some(i) => {
                    proof {
                        lemma_index_of(self.visible_wins@, i as int, id);
                    }
                    let t = self.read_clock();
                    let w = self.visible_wins.remove(i);
                    self.hidden_wins.push(
                        WinInfo {
                            id: w.id,
                            zindex: w.zindex,
                            discovery_time: w.discovery_time,
                            last_update_time: t,
                        },
                    );
                    true
                },
                None => false,
            }
        }
    }

    /// Whether `id` is managed, visible or hidden.
    fn tracks(&self, id: Window) -> (r: bool)
        ensures
            r == self@.tracks(id),
    {
        find(&self.visible_wins, id).is_some() || find(&self.hidden_wins, id).is_some()
    }

    /// Records the position of `id`, if it is managed.
    pub fn set_loc(&mut self, id: Window, x: i32, y: i32)
        requires
            old(self)@.wf(),
        ensures
            final(self)@ == old(self)@.set_loc(id, x, y),
            final(self)@.wf(),
    {
        if self.tracks(id) {
            self.windows_loc.insert(id, (x, y));
        }
    }

    /// Records the size of `id`, if it is managed.
    pub fn set_size(&mut self, id: Window, w: u32, h: u32)
        requires
            old(self)@.wf(),
        ensures
            final(self)@ == old(self)@.set_size(id, w, h),
            final(self)@.wf(),
    {
        if self.tracks(id) {
            self.windows_size.insert(id, (w, h));
        }
    }

    /// Takes each eligible window of a scan of the root's children under management, in order.
    pub fn scan_windows(&mut self, wins: &Vec<(Window, WindowAttributes)>)
        requires
            old(self)@.wf(),
        ensures
            final(self)@ == old(self)@.scan(wins@),
            final(self)@.wf(),
    {
        let mut i: usize = 0;
        while i < wins.len()
            invariant
                i <= wins.len(),
                self@ == old(self)@.scan(wins@.take(i as int)),
                self@.wf(),
            decreases wins.len() - i,
        {
            let (id, attrs) = wins[i];
            self.add_if_eligible(id, &attrs);
            proof {
                assert(wins@.take(i + 1).drop_last() =~= wins@.take(i as int));
            }
            i = i + 1;
        }
        proof {
            assert(wins@.take(i as int) =~= wins@);
        }
    }

    /// Sets the zindex of each window in order; returns the ids whose zindex changed.
    pub fn change_indices(&mut self, items: Vec<WinZIndex>) -> (changed: Vec<Window>)
        requires
            old(self)@.wf(),
        ensures
            (final(self)@, changed@) == old(self)@.change_indices(items@),
            final(self)@.wf(),
    {
        let mut changed: Vec<Window> = Vec::new();
        let mut i: usize = 0;
        while i < items.len()
            invariant
                i <= items.len(),
                (self@, changed@) == old(self)@.change_indices(items@.take(i as int)),
                self@.wf(),
            decreases items.len() - i,
        {
            let item = items[i];
            proof {
                assert(items@.take(i + 1).drop_last() =~= items@.take(i as int));
            }
            if self.set_zindex(item.id, item.zindex) {
                changed.push(item.id);
            }
            i = i + 1;
        }
        proof {
            assert(items@.take(i as int) =~= items@);
        }
        changed
    }

    /// Moves each window to the visible or the hidden windows, in order;
    /// returns the ids that moved.
    pub fn change_visiblity(&mut self, items: Vec<WinVisbilty>) -> (changed: Vec<Window>)
        requires
            old(self)@.wf(),
        ensures
            (final(self)@, changed@) == old(self)@.change_visibility(items@),
            final(self)@.wf(),
    {
        let mut changed: Vec<Window> = Vec::new();
        let mut i: usize = 0;
        while i < items.len()
            invariant
                i <= items.len(),
                (self@, changed@) == old(self)@.change_visibility(items@.take(i as int)),
                self@.wf(),
            decreases items.len() - i,
        {
            let item = items[i];
            proof {
                assert(items@.take(i + 1).drop_last() =~= items@.take(i as int));
            }
            if self.set_visibility(item.id, item.visible) {
                changed.push(item.id);
            }
            i = i + 1;
        }
        proof {
            assert(items@.take(i as int) =~= items@);
        }
        changed
    }

    /// Records the position of each managed window, for the next commit.
    pub fn move_windows(&mut self, items: Vec<WinMove>)
        requires
            old(self)@.wf(),
        ensures
            final(self)@ == old(self)@.move_windows(items@),
            final(self)@.wf(),
    {
        let mut i: usize = 0;
        while i < items.len()
            invariant
                i <= items.len(),
                self@ == old(self)@.move_windows(items@.take(i as int)),
                self@.wf(),
            decreases items.len() - i,
        {
            let item = items[i];
            proof {
                assert(items@.take(i + 1).drop_last() =~= items@.take(i as int));
            }
            self.set_loc(item.id, item.x, item.y);
            i = i + 1;
        }
        proof {
            assert(items@.take(i as int) =~= items@);
        }
    }

    /// Records the size of each managed window, for the next commit.
    pub fn resize_windows(&mut self, items: Vec<WinResize>)
        requires
            old(self)@.wf(),
        ensures
            final(self)@ == old(self)@.resize_windows(items@),
            final(self)@.wf(),
    {
        let mut i: usize = 0;
        while i < items.len()
            invariant
                i <= items.len(),
                self@ == old(self)@.resize_windows(items@.take(i as int)),
                self@.wf(),
            decreases items.len() - i,
        {
            let item = items[i];
            proof {
                assert(items@.take(i + 1).drop_last() =~= items@.take(i as int));
            }
            self.set_size(item.id, item.width, item.height);
            i = i + 1;
        }
        proof {
            assert(items@.take(i as int) =~= items@);
        }
    }

    /// Whether `id` is visible, and may therefore take the input focus.
    pub fn focus_window(&self, id: Window) -> (r: bool)
        ensures
            r == has_id(self@.visible, id),
    {
        find(&self.visible_wins, id).is_some()
    }

    /// How window `id` is reported: its overlays, `(0, 0)` where absent.
    fn info_of(&self, id: Window) -> (r: WindowInfo)
        ensures
            r == self@.info_of(id),
    {
        let (x, y) = match self.windows_loc.get(&id) {
            Some(p) => *p,
            None => (0, 0),
        };
        let (width, height) = match self.windows_size.get(&id) {
            Some(p) => *p,
            None => (0, 0),
        };
        WindowInfo { id, x, y, width, height }
    }

    /// The configure request that stacks `id` with its recorded geometry.
    fn configure_of(&self, id: Window, mode: StackMode) -> (r: X11Request)
        ensures
            r == configure_with_geometry(id, self@.loc_of(id), self@.size_of(id), mode),
    {
        let info = self.info_of(id);
        X11Request::Configure(
            ConfigureWindow {
                window: id,
                x: Some(info.x),
                y: Some(info.y),
                width: Some(info.width),
                height: Some(info.height),
                stack_mode: mode,
            },
        )
    }

    /// The report of each record of `wins`, in order.
    fn infos(&self, wins: &Vec<WinInfo>) -> (r: Vec<WindowInfo>)
        ensures
            r@ == self@.infos(wins@),
    {
        let mut r: Vec<WindowInfo> = Vec::new();
        let mut i: usize = 0;
        while i < wins.len()
            invariant
                i <= wins.len(),
                r@ == self@.infos(wins@.take(i as int)),
            decreases wins.len() - i,
        {
            let info = self.info_of(wins[i].id);
            r.push(info);
            i = i + 1;
            proof {
                assert(r@ =~= self@.infos(wins@.take(i as int)));
            }
        }
        proof {
            assert(wins@.take(i as int) =~= wins@);
        }
        r
    }

    /// The visible windows with their geometry.
    pub fn get_visible_wins(&self) -> (r: Vec<WindowInfo>)
        ensures
            r@ == self@.infos(self@.visible),
    {
        self.infos(&self.visible_wins)
    }

    /// The hidden windows with their geometry.
    pub fn get_hidden_wins(&self) -> (r: Vec<WindowInfo>)
        ensures
            r@ == self@.infos(self@.hidden),
    {
        self.infos(&self.hidden_wins)
    }

    /// Lists the hidden windows discovered since the last listing, by zindex
    /// descending (equal zindexes in registry order), and starts a new period.
    pub fn check_new(&mut self) -> (r: Vec<WindowInfo>)
        requires
            old(self)@.wf(),
        ensures
            old(self)@.is_new_window_list(r@),
            final(self)@ == old(self)@.drained(),
            final(self)@.wf(),
    {
        let since = self.last_discovery_time;
        let ghost pred = discovered_since(since);
        let mut cands: Vec<WinInfo> = Vec::new();
        let mut keys: Vec<u32> = Vec::new();
        let mut i: usize = 0;
        while i < self.hidden_wins.len()
            invariant
                i <= self.hidden_wins.len(),
                since == self.last_discovery_time,
                pred == discovered_since(since),
                cands@ == self.hidden_wins@.take(i as int).filter(pred),
                keys@ == zkeys(cands@),
            decreases self.hidden_wins.len() - i,
        {
            let w = self.hidden_wins[i];
            proof {
                let t = self.hidden_wins@.take(i + 1);
                assert(t.drop_last() =~= self.hidden_wins@.take(i as int));
                assert(t.last() == w);
                reveal(Seq::filter);
            }
            if w.discovery_time >= since {
                cands.push(w);
                keys.push(w.zindex);
            }
            proof {
                assert(keys@ =~= zkeys(cands@));
            }
            i = i + 1;
        }
        proof {
            assert(self.hidden_wins@.take(i as int) =~= self.hidden_wins@);
        }
        let o = stable_order(&keys, true);
        let mut r: Vec<WindowInfo> = Vec::new();
        let mut k: usize = 0;
        while k < o.len()
            invariant
                k <= o.len(),
                o.len() == cands.len(),
                forall|j: int| 0 <= j < o.len() ==> #[trigger] o@[j] < cands.len(),
                r@ == o@.take(k as int).map_values(|j: usize| self@.info_of(cands@[j as int].id)),
            decreases o.len() - k,
        {
            let info = self.info_of(cands[o[k]].id);
            r.push(info);
            k = k + 1;
            proof {
                assert(r@ =~= o@.take(k as int).map_values(|j: usize| self@.info_of(cands@[j as int].id)));
            }
        }
        proof {
            assert(o@.take(k as int) =~= o@);
            assert(is_stable_order(zkeys(self@.newly_discovered()), o@, true));
        }
        self.last_discovery_time = self.clock;
        r
    }

    /// The requests that apply the registry to the X11 server: every hidden
    /// window stacked below with its geometry, the virtual root raised above
    /// them, then each visible window raised in turn, by zindex ascending
    /// (equal zindexes in registry order), and a flush.
    pub fn commit(&self) -> (reqs: Vec<X11Request>)
        ensures
            self@.is_commit(reqs@),
    {
        let mut reqs: Vec<X11Request> = Vec::new();
        let mut i: usize = 0;
        while i < self.hidden_wins.len()
            invariant
                i <= self.hidden_wins.len(),
                reqs@ == self@.hidden.take(i as int).map_values(
                    |w: WinInfo| configure_with_geometry(w.id, self@.loc_of(w.id), self@.size_of(w.id), StackMode::Below),
                ),
            decreases self.hidden_wins.len() - i,
        {
            let req = self.configure_of(self.hidden_wins[i].id, StackMode::Below);
            reqs.push(req);
            i = i + 1;
            proof {
                assert(reqs@ =~= self@.hidden.take(i as int).map_values(
                    |w: WinInfo| configure_with_geometry(w.id, self@.loc_of(w.id), self@.size_of(w.id), StackMode::Below),
                ));
            }
        }
        proof {
            assert(self@.hidden.take(i as int) =~= self@.hidden);
        }
        reqs.push(
            X11Request::Configure(
                ConfigureWindow {
                    window: self.virtual_root_win,
                    x: None,
                    y: None,
                    width: None,
                    height: None,
                    stack_mode: StackMode::Above,
                },
            ),
        );
        let ghost head = reqs@;
        let mut keys: Vec<u32> = Vec::new();
        let mut j: usize = 0;
        while j < self.visible_wins.len()
            invariant
                j <= self.visible_wins.len(),
                keys@ == zkeys(self@.visible.take(j as int)),
            decreases self.visible_wins.len() - j,
        {
            keys.push(self.visible_wins[j].zindex);
            j = j + 1;
            proof {
                assert(keys@ =~= zkeys(self@.visible.take(j as int)));
            }
        }
        proof {
            assert(self@.visible.take(j as int) =~= self@.visible);
        }
        let o = stable_order(&keys, false);
        let mut k: usize = 0;
        while k < o.len()
            invariant
                k <= o.len(),
                o.len() == self.visible_wins.len(),
                forall|m: int| 0 <= m < o.len() ==> #[trigger] o@[m] < self.visible_wins.len(),
                reqs@ == head + o@.take(k as int).map_values(
                    |m: usize|
                        configure_with_geometry(
                            self@.visible[m as int].id,
                            self@.loc_of(self@.visible[m as int].id),
                            self@.size_of(self@.visible[m as int].id),
                            StackMode::Above,
                        ),
                ),
            decreases o.len() - k,
        {
            let req = self.configure_of(self.visible_wins[o[k]].id, StackMode::Above);
            reqs.push(req);
            k = k + 1;
            proof {
                assert(reqs@ =~= head + o@.take(k as int).map_values(
                    |m: usize|
                        configure_with_geometry(
                            self@.visible[m as int].id,
                            self@.loc_of(self@.visible[m as int].id),
                            self@.size_of(self@.visible[m as int].id),
                            StackMode::Above,
                        ),
                ));
            }
        }
        reqs.push(X11Request::Flush);
        proof {
            assert(o@.take(k as int) =~= o@);
            assert(reqs@ =~= self@.commit_plan(o@));
        }
        reqs
    }

    /// A client's ConfigureRequest: records the position where both `x` and `y`
    /// are set and the size where both `width` and `height` are set, and forwards
    /// the fields the client set, stacked below the virtual root.
    fn handle_configure_request(&mut self, e: ConfigureRequestEvent) -> (r: X11Request)
        requires
            old(self)@.wf(),
        ensures
            final(self)@ == old(self)@.configure_request(e),
            r == forwarded_configure(e),
    {
        let has_x = e.value_mask & CONFIG_X != 0;
        let has_y = e.value_mask & CONFIG_Y != 0;
        let has_w = e.value_mask & CONFIG_WIDTH != 0;
        let has_h = e.value_mask & CONFIG_HEIGHT != 0;
        if has_x && has_y {
            self.set_loc(e.window, e.x as i32, e.y as i32);
        }
        if has_w && has_h {
            self.set_size(e.window, e.width as u32, e.height as u32);
        }
        X11Request::Configure(
            ConfigureWindow {
                window: e.window,
                x: if has_x { Some(e.x as i32) } else { None },
                y: if has_y { Some(e.y as i32) } else { None },
                width: if has_w { Some(e.width as u32) } else { None },
                height: if has_h { Some(e.height as u32) } else { None },
                stack_mode: StackMode::Below,
            },
        )
    }

    /// Applies one event; returns whether to keep blocking on events (false
    /// for the wake-up message) and the requests to send.
    pub fn handle_event(&mut self, ev: Event) -> (r: (bool, Vec<X11Request>))
        requires
            old(self)@.wf(),
        ensures
            (final(self)@, r.0, r.1@) == old(self)@.handle_event(ev),
            final(self)@.wf(),
    {
        proof {
            old(self)@.lemma_handle_event(ev);
        }
        let mut reqs: Vec<X11Request> = Vec::new();
        match ev {
            Event::MapRequest(w) => {
                self.add_window(w);
                reqs.push(X11Request::MapWindow(w));
                proof {
                    assert(reqs@ =~= seq![X11Request::MapWindow(w)]);
                }
                (true, reqs)
            },
            Event::UnmapNotify(w) => {
                self.remove(w);
                (true, reqs)
            },
            Event::ConfigureRequest(e) => {
                let req = self.handle_configure_request(e);
                reqs.push(req);
                proof {
                    assert(reqs@ =~= seq![forwarded_configure(e)]);
                }
                (true, reqs)
            },
            Event::ClientMessage(t) => (t != self.pending_input_atom, reqs),
            Event::Other => (true, reqs),
        }
    }

    /// A copy of `wins`.
    fn copy_records(wins: &Vec<WinInfo>) -> (r: Vec<WinInfo>)
        ensures
            r@ == wins@,
    {
        let mut r: Vec<WinInfo> = Vec::new();
        let mut i: usize = 0;
        while i < wins.len()
            invariant
                i <= wins.len(),
                r@ == wins@.take(i as int),
            decreases wins.len() - i,
        {
            r.push(wins[i]);
            i = i + 1;
            proof {
                assert(r@ =~= wins@.take(i as int));
            }
        }
        proof {
            assert(wins@.take(i as int) =~= wins@);
        }
        r
    }

    /// The records of the visible windows, in registry order.
    pub fn visible_records(&self) -> (r: Vec<WinInfo>)
        ensures
            r@ == self@.visible,
    {
        Self::copy_records(&self.visible_wins)
    }

    /// The records of the hidden windows, in registry order.
    pub fn hidden_records(&self) -> (r: Vec<WinInfo>)
        ensures
            r@ == self@.hidden,
    {
        Self::copy_records(&self.hidden_wins)
    }

    /// The wake-up handle: a client message of the pending-input atom, addressed to `root`.
    pub fn create_waker(&self, root: Window) -> (w: Waker)
        ensures
            w.window == root,
            w.atom == self@.pending_input_atom,
    {
        Waker { window: root, atom: self.pending_input_atom }
    }
}

/// Interprets one control-plane request against the engine; returns the
/// response and the X11 requests to send.
pub fn handle_request(wm: &mut WindowManager, req: Request) -> (r: (Response, Vec<X11Request>))
    requires
        old(wm)@.wf(),
    ensures
        final(wm)@ == old(wm)@.after_request(req),
        old(wm)@.is_reply(req, r.0, r.1@),
        final(wm)@.wf(),
{
    let mut reqs: Vec<X11Request> = Vec::new();
    match req {
        Request::ChangeVisibility(items) => {
            let changed = wm.change_visiblity(items);
            (Response::VisibiltyChanged(changed), reqs)
        },
        Request::ChangeZIndex(items) => {
            let changed = wm.change_indices(items);
            (Response::ZIndexChanged(changed), reqs)
        },
        Request::ListNewWindows => {
            let wins = wm.check_new();
            (Response::NewWindows(wins), reqs)
        },
        Request::ListVisibleWindows => (Response::VisibleWindows(wm.get_visible_wins()), reqs),
        Request::ListHiddenWindows => (Response::HiddenWindows(wm.get_hidden_wins()), reqs),
        Request::ResizeWindows(items) => {
            wm.resize_windows(items);
            (Response::ResizeComplete, reqs)
        },
        Request::MoveWindows(items) => {
            wm.move_windows(items);
            (Response::MoveComplete, reqs)
        },
        Request::FocusWindow(id) => {
            let focused = wm.focus_window(id);
            if focused {
                reqs.push(X11Request::SetInputFocus(id));
                reqs.push(X11Request::Flush);
                proof {
                    assert(reqs@ =~= seq![X11Request::SetInputFocus(id), X11Request::Flush]);
                }
            }
            (Response::WindowFocused(focused), reqs)
        },
        Request::Commit => (Response::CommitComplete, wm.commit()),
    }
}

} // verus!
