//! Laws of the engine, stated over the registry model.
use vstd::prelude::*;

use crate::messages::{Request, Response, WinVisbilty, WinZIndex, Window, WindowInfo};
use crate::model::{
    configure_with_geometry, discovered_since, has_id, raise_only, stamped_before, zkeys,
    RegistryModel,
};
use crate::order::{is_stable_order, precedes};
use crate::protocol::{ConfigureRequestEvent, Event, StackMode, X11Request, CONFIG_WIDTH};

verus! {

/// Every event keeps the registry's invariants: no window is both visible and
/// hidden, the virtual root is never managed, overlays exist only for managed
/// windows; and the time of the last listing never goes back.
pub proof fn law_event_keeps_invariants(s: RegistryModel, ev: Event)
    requires
        s.wf(),
    ensures
        s.handle_event(ev).0.wf(),
        s.handle_event(ev).0.keys_disjoint(),
        s.handle_event(ev).0.root_untracked(),
        s.handle_event(ev).0.overlays_tracked(),
        s.handle_event(ev).0.last_discovery >= s.last_discovery,
{
    s.lemma_handle_event(ev);
}

/// Every control-plane request keeps the registry's invariants: no window is
/// both visible and hidden, the virtual root is never managed, overlays exist
/// only for managed windows; and the time of the last listing never goes back.
pub proof fn law_request_keeps_invariants(s: RegistryModel, req: Request)
    requires
        s.wf(),
    ensures
        s.after_request(req).wf(),
        s.after_request(req).keys_disjoint(),
        s.after_request(req).root_untracked(),
        s.after_request(req).overlays_tracked(),
        s.after_request(req).last_discovery >= s.last_discovery,
{
    s.lemma_after_request(req);
}

/// Asking for each managed window to keep the visibility it has moves no
/// window, changes no record, and reports no change.
pub proof fn law_visibility_unchanged(s: RegistryModel, items: Seq<WinVisbilty>)
    requires
        s.wf(),
        forall|k: int|
            0 <= k < items.len() ==> s.tracks(#[trigger] items[k].id) && items[k].visible
                == has_id(s.visible, items[k].id),
    ensures
        s.change_visibility(items) == (s, Seq::<Window>::empty()),
    decreases items.len(),
{
    if items.len() > 0 {
        assert(items.drop_last().len() < items.len());
        assert forall|k: int| 0 <= k < items.drop_last().len() implies s.tracks(
            #[trigger] items.drop_last()[k].id,
        ) && items.drop_last()[k].visible == has_id(s.visible, items.drop_last()[k].id) by {
            assert(items.drop_last()[k] == items[k]);
        }
        law_visibility_unchanged(s, items.drop_last());
        assert(s.tracks(items[items.len() - 1].id));
    }
}

/// Setting each window to the zindex it has changes no record and reports no change.
pub proof fn law_zindex_unchanged(s: RegistryModel, items: Seq<WinZIndex>)
    requires
        s.wf(),
        forall|k: int, i: int|
            0 <= k < items.len() && 0 <= i < s.hidden.len() && #[trigger] s.hidden[i].id
                == #[trigger] items[k].id ==> s.hidden[i].zindex == items[k].zindex,
        forall|k: int, i: int|
            0 <= k < items.len() && 0 <= i < s.visible.len() && #[trigger] s.visible[i].id
                == #[trigger] items[k].id ==> s.visible[i].zindex == items[k].zindex,
    ensures
        s.change_indices(items) == (s, Seq::<Window>::empty()),
    decreases items.len(),
{
    if items.len() > 0 {
        let last = items.last();
        assert forall|k: int, i: int|
            0 <= k < items.drop_last().len() && 0 <= i < s.hidden.len() && #[trigger] s.hidden[i].id
                == #[trigger] items.drop_last()[k].id implies s.hidden[i].zindex
                == items.drop_last()[k].zindex by {
            assert(items.drop_last()[k] == items[k]);
        }
        assert forall|k: int, i: int|
            0 <= k < items.drop_last().len() && 0 <= i < s.visible.len() && #[trigger] s.visible[i].id
                == #[trigger] items.drop_last()[k].id implies s.visible[i].zindex
                == items.drop_last()[k].zindex by {
            assert(items.drop_last()[k] == items[k]);
        }
        law_zindex_unchanged(s, items.drop_last());
        let k = items.len() - 1;
        assert(items[k] == last);
    }
}

/// Listing new windows twice in a row: the second listing is empty.
pub proof fn law_second_listing_empty(s: RegistryModel, r: Seq<WindowInfo>)
    requires
        s.wf(),
        s.clock < u64::MAX,
        s.drained().is_new_window_list(r),
    ensures
        r.len() == 0,
{
    let t = s.drained();
    let n = t.newly_discovered();
    if n.len() > 0 {
        let p = discovered_since(t.last_discovery);
        t.hidden.lemma_filter_pred(p, 0);
        assert(n.contains(n[0]));
        t.hidden.lemma_filter_contains_rev(p, n[0]);
        let i = choose|i: int| 0 <= i < t.hidden.len() && t.hidden[i] == n[0];
        assert(stamped_before(s.hidden[i], s.clock));
    }
    let o = choose|o: Seq<usize>|
        #[trigger] is_stable_order(zkeys(n), o, true) && r == o.map_values(
            |k: usize| t.info_of(n[k as int].id),
        );
}

/// Three visible windows `a`, `c` (`a` before `c`) of zindex 5 and `b` of
/// zindex 3: a commit raises, after the virtual root, `b`, then `a`, then `c`.
pub proof fn law_commit_order_of_three(
    s: RegistryModel,
    a: int,
    b: int,
    c: int,
    reqs: Seq<X11Request>,
)
    requires
        s.wf(),
        s.visible.len() == 3,
        0 <= a < c < 3,
        0 <= b < 3,
        b != a,
        b != c,
        s.visible[a].zindex == 5,
        s.visible[b].zindex == 3,
        s.visible[c].zindex == 5,
        s.is_commit(reqs),
    ensures
        reqs.len() == s.hidden.len() + 5,
        reqs[s.hidden.len() as int] == raise_only(s.virtual_root),
        reqs[s.hidden.len() + 1int] == configure_with_geometry(
            s.visible[b].id,
            s.loc_of(s.visible[b].id),
            s.size_of(s.visible[b].id),
            StackMode::Above,
        ),
        reqs[s.hidden.len() + 2int] == configure_with_geometry(
            s.visible[a].id,
            s.loc_of(s.visible[a].id),
            s.size_of(s.visible[a].id),
            StackMode::Above,
        ),
        reqs[s.hidden.len() + 3int] == configure_with_geometry(
            s.visible[c].id,
            s.loc_of(s.visible[c].id),
            s.size_of(s.visible[c].id),
            StackMode::Above,
        ),
{
    let keys = zkeys(s.visible);
    let o = choose|o: Seq<usize>| #[trigger] is_stable_order(keys, o, false) && reqs == s.commit_plan(o);
    assert(keys[a] == 5 && keys[b] == 3 && keys[c] == 5);
    assert(precedes(keys, o[0] as int, o[1] as int, false));
    assert(precedes(keys, o[0] as int, o[2] as int, false));
    assert(precedes(keys, o[1] as int, o[2] as int, false));
    assert(o[0] < 3 && o[1] < 3 && o[2] < 3);
    assert(o[0] == b && o[1] == a && o[2] == c);
    let h = s.hidden.len() as int;
    assert(reqs[h + 1] == s.commit_plan(o)[h + 1]);
}

/// Focusing a hidden window answers `false` and sends nothing.
pub proof fn law_focus_hidden(s: RegistryModel, id: Window, resp: Response, reqs: Seq<X11Request>)
    requires
        s.wf(),
        has_id(s.hidden, id),
        s.is_reply(Request::FocusWindow(id), resp, reqs),
    ensures
        resp == Response::WindowFocused(false),
        reqs.len() == 0,
{
}

/// A ConfigureRequest that sets only the width records neither a position nor a size.
pub proof fn law_width_only_configure(s: RegistryModel, e: ConfigureRequestEvent)
    requires
        e.value_mask == CONFIG_WIDTH,
    ensures
        s.handle_event(Event::ConfigureRequest(e)).0 == s,
{
    assert(4u16 & 1u16 == 0u16) by (bit_vector);
    assert(4u16 & 2u16 == 0u16) by (bit_vector);
    assert(4u16 & 8u16 == 0u16) by (bit_vector);
}

} // verus!
