//! Properties of the window manager that relate several events or hold in every state.
use vstd::arithmetic::div_mod::{lemma_add_mod_noop, lemma_mod_self_0, lemma_small_mod};
use vstd::prelude::*;

use crate::protocol::{
    configured, Event, Request, TopLevel, WindowChanges, WmError, BUTTON1_MASK, CW_BORDER_WIDTH,
    CW_HEIGHT, CW_SIBLING, CW_STACK_MODE, CW_WIDTH, CW_X, CW_Y,
};
use crate::registry::{
    distinct_entries, frame_for, has_client, has_frame, lemma_position_unique,
    lemma_push_distinct, lemma_remove_distinct, next_entry, position, without_client, Window,
};
use crate::wm::{
    adopt_step, eligible_at_startup, frame_requests, scan_requests, step, unframe_step, Drag, WmState,
};

verus! {

/// Every managed client has exactly one frame, and no other client shares it.
pub proof fn lemma_one_frame_per_client(s: WmState)
    requires
        distinct_entries(s.clients),
    ensures
        forall|i: int|
            0 <= i < s.clients.len() ==> frame_for(s.clients, #[trigger] s.clients[i].0) == Some(
                s.clients[i].1,
            ),
        forall|c: Window, d: Window, f: Window|
            frame_for(s.clients, c) == Some(f) && frame_for(s.clients, d) == Some(f) ==> c == d,
{
    assert forall|i: int| 0 <= i < s.clients.len() implies frame_for(
        s.clients,
        #[trigger] s.clients[i].0,
    ) == Some(s.clients[i].1) by {
        lemma_position_unique(s.clients, s.clients[i].0, i);
    }
    assert forall|c: Window, d: Window, f: Window|
        frame_for(s.clients, c) == Some(f) && frame_for(s.clients, d) == Some(f) implies c == d by {
        let i = position(s.clients, c);
        let j = position(s.clients, d);
        assert(s.clients[i].0 == c);
        assert(s.clients[j].0 == d);
    }
}

/// Adopting a frame for a client makes it that client's frame and no other's, and the only
/// window the framing puts into the frame is that client.
pub proof fn lemma_frame_holds_only_its_client(s: WmState, client: Window, frame: Window)
    requires
        distinct_entries(s.clients),
        !has_client(s.clients, client),
        !has_frame(s.clients, frame),
    ensures
        ({
            let (t, out) = adopt_step(s, client, frame);
            &&& out is Ok
            &&& frame_for(t.clients, client) == Some(frame)
            &&& forall|c: Window| frame_for(t.clients, c) == Some(frame) ==> c == client
            &&& exists|k: int|
                0 <= k < out->Ok_0.len() && out->Ok_0[k] == (Request::Reparent {
                    window: client,
                    parent: frame,
                    x: 0,
                    y: 0,
                })
            &&& forall|k: int, c: Window, x: i32, y: i32|
                0 <= k < out->Ok_0.len() && out->Ok_0[k] == (Request::Reparent {
                    window: c,
                    parent: frame,
                    x,
                    y,
                }) ==> c == client
        }),
{
    let (t, out) = adopt_step(s, client, frame);
    lemma_push_distinct(s.clients, client, frame);
    lemma_one_frame_per_client(t);
    assert(t.clients[s.clients.len() as int] == (client, frame));
    assert(out->Ok_0[2] == (Request::Reparent { window: client, parent: frame, x: 0, y: 0 }));
}

/// A successful framing adds exactly one entry and a successful unframing removes exactly
/// one; clients stay distinct either way.
pub proof fn lemma_registry_size(s: WmState, client: Window, frame: Window)
    requires
        distinct_entries(s.clients),
    ensures
        adopt_step(s, client, frame).1 is Ok ==> adopt_step(s, client, frame).0.clients.len()
            == s.clients.len() + 1 && distinct_entries(adopt_step(s, client, frame).0.clients),
        unframe_step(s, client).1 is Ok ==> unframe_step(s, client).0.clients.len()
            == s.clients.len() - 1 && distinct_entries(unframe_step(s, client).0.clients),
{
    if !has_client(s.clients, client) && !has_frame(s.clients, frame) {
        lemma_push_distinct(s.clients, client, frame);
    }
    if has_client(s.clients, client) {
        lemma_remove_distinct(s.clients, position(s.clients, client));
    }
}

/// An unmap notification never fails; one not reported on the root leaves its window
/// unregistered, and an unmap notification for an unregistered window changes nothing.
/// So a second notification for the same client is a no-op.
pub proof fn lemma_second_unmap_is_noop(s: WmState, event: Window, w: Window)
    requires
        distinct_entries(s.clients),
    ensures
        ({
            let ev = Event::UnmapNotify { event, window: w };
            let t = step(s, ev).0;
            &&& step(s, ev).1 is Ok
            &&& distinct_entries(t.clients)
            &&& event != s.root ==> !has_client(t.clients, w)
            &&& !has_client(s.clients, w) ==> step(s, ev) == (s, Ok::<
                Seq<Request>,
                WmError,
            >(seq![]))
            &&& !has_client(t.clients, w) ==> step(t, ev) == (t, Ok::<
                Seq<Request>,
                WmError,
            >(seq![]))
        }),
{
    if has_client(s.clients, w) {
        let k = position(s.clients, w);
        lemma_remove_distinct(s.clients, k);
    }
}

/// A configure request reaches the frame (when the client has one) and the client with
/// exactly the requested mask and values, changes no state, and every field it selects
/// ends up with the requested value whatever the window's geometry was.
pub proof fn lemma_configure_passthrough(
    s: WmState,
    w: Window,
    value_mask: u64,
    changes: WindowChanges,
    g: WindowChanges,
)
    ensures
        ({
            let (t, out) = step(s, Event::ConfigureRequest { window: w, value_mask, changes });
            let own = Request::Configure { window: w, value_mask, changes };
            &&& t == s
            &&& out == Ok::<Seq<Request>, WmError>(
                match frame_for(s.clients, w) {
                    Some(f) => seq![Request::Configure { window: f, value_mask, changes }, own],
                    None => seq![own],
                },
            )
        }),
        value_mask & CW_X != 0 ==> configured(g, value_mask, changes).x == changes.x,
        value_mask & CW_Y != 0 ==> configured(g, value_mask, changes).y == changes.y,
        value_mask & CW_WIDTH != 0 ==> configured(g, value_mask, changes).width == changes.width,
        value_mask & CW_HEIGHT != 0 ==> configured(g, value_mask, changes).height == changes.height,
        value_mask & CW_BORDER_WIDTH != 0 ==> configured(g, value_mask, changes).border_width
            == changes.border_width,
        value_mask & CW_SIBLING != 0 ==> configured(g, value_mask, changes).sibling
            == changes.sibling,
        value_mask & CW_STACK_MODE != 0 ==> configured(g, value_mask, changes).stack_mode
            == changes.stack_mode,
{
    let own = Request::Configure { window: w, value_mask, changes };
    match frame_for(s.clients, w) {
        Some(f) => {
            assert(seq![Request::Configure { window: f, value_mask, changes }] + seq![own] =~= seq![
                Request::Configure { window: f, value_mask, changes },
                own,
            ]);
        },
        None => {},
    }
}

/// A press with the pointer at `press_at` over a client whose frame stands at `frame_at`,
/// then motion to `moved_to` with the button held, moves the frame to exactly
/// `frame_at + (moved_to - press_at)`; after the release a further motion moves nothing.
pub proof fn lemma_drag_translation(
    s: WmState,
    w: Window,
    press_at: (i32, i32),
    frame_at: (i32, i32),
    moved_to: (i32, i32),
    state: u32,
    later_at: (i32, i32),
    later_state: u32,
)
    requires
        has_client(s.clients, w),
        state & BUTTON1_MASK != 0,
    ensures
        ({
            let press = Event::ButtonPress {
                window: w,
                x_root: press_at.0,
                y_root: press_at.1,
                frame_x: frame_at.0,
                frame_y: frame_at.1,
            };
            let s1 = step(s, press).0;
            let motion = Event::MotionNotify { window: w, x_root: moved_to.0, y_root: moved_to.1, state };
            let s2 = step(s1, motion).0;
            let s3 = step(s2, Event::ButtonRelease { window: w }).0;
            let after = Event::MotionNotify {
                window: w,
                x_root: later_at.0,
                y_root: later_at.1,
                state: later_state,
            };
            &&& s1.drag == Some(
                Drag { pointer_x: press_at.0, pointer_y: press_at.1, frame_x: frame_at.0, frame_y: frame_at.1 },
            )
            &&& step(s1, motion).1 == Ok::<Seq<Request>, WmError>(
                seq![
                    Request::Move {
                        window: frame_for(s.clients, w)->Some_0,
                        x: (frame_at.0 + (moved_to.0 - press_at.0)) as i64,
                        y: (frame_at.1 + (moved_to.1 - press_at.1)) as i64,
                    },
                ],
            )
            &&& s3.drag is None
            &&& step(s3, after).1 == Ok::<Seq<Request>, WmError>(seq![])
        }),
{
}

/// The client that `k` successive cycles starting from `w` land on.
pub open spec fn cycled(s: Seq<(Window, Window)>, w: Window, k: nat) -> Window
    decreases k,
{
    if k == 0 {
        w
    } else {
        match next_entry(s, cycled(s, w, (k - 1) as nat)) {
            Some(e) => e.0,
            None => w,
        }
    }
}

/// Cycling from the client at index `i` lands on the client at index `(i + 1) mod n`, and
/// `n` successive cycles from any client return to it.
pub proof fn lemma_cycle_order(s: Seq<(Window, Window)>, i: int)
    requires
        distinct_entries(s),
        0 <= i < s.len(),
    ensures
        next_entry(s, s[i].0) == Some(s[(i + 1) % (s.len() as int)]),
        cycled(s, s[i].0, s.len()) == s[i].0,
{
    lemma_position_unique(s, s[i].0, i);
    lemma_cycled_index(s, i, s.len());
    lemma_add_mod_noop(i, s.len() as int, s.len() as int);
    lemma_mod_self_0(s.len() as int);
    lemma_small_mod(i as nat, s.len());
}

/// `k` cycles from the client at index `i` land on the client at index `(i + k) mod n`.
pub proof fn lemma_cycled_index(s: Seq<(Window, Window)>, i: int, k: nat)
    requires
        distinct_entries(s),
        0 <= i < s.len(),
    ensures
        cycled(s, s[i].0, k) == s[(i + k) % (s.len() as int)].0,
    decreases k,
{
    let n = s.len() as int;
    if k == 0 {
        lemma_small_mod(i as nat, n as nat);
    } else {
        lemma_cycled_index(s, i, (k - 1) as nat);
        let j = (i + k - 1) % n;
        assert(0 <= j < n) by {
            vstd::arithmetic::div_mod::lemma_mod_bound(i + k - 1, n);
        }
        lemma_position_unique(s, s[j].0, j);
        lemma_add_mod_noop(i + k - 1, 1, n);
        if n == 1 {
            lemma_mod_self_0(1);
        } else {
            lemma_small_mod(1, n as nat);
        }
    }
}

/// How many of `out` ask to create a frame for client `w`.
pub open spec fn creations(out: Seq<Request>, w: Window) -> nat
    decreases out.len(),
{
    if out.len() == 0 {
        0
    } else {
        creations(out.drop_last(), w) + match out.last() {
            Request::CreateFrame { client, .. } => if client == w {
                1nat
            } else {
                0nat
            },
            _ => 0nat,
        }
    }
}

/// Window ids of the startup list are pairwise distinct.
pub open spec fn distinct_windows(ws: Seq<TopLevel>) -> bool {
    forall|i: int, j: int|
        0 <= i < ws.len() && 0 <= j < ws.len() && i != j ==> #[trigger] ws[i].window
            != #[trigger] ws[j].window
}

/// The creations in `a` followed by the framing decision for one window.
proof fn lemma_creations_append(
    a: Seq<Request>,
    clients: Seq<(Window, Window)>,
    t: TopLevel,
    w: Window,
)
    ensures
        creations(a + frame_requests(clients, t.window, t.attrs, true), w) == creations(a, w) + if t.window
            == w && eligible_at_startup(t.attrs) && !has_client(clients, w) {
            1nat
        } else {
            0nat
        },
{
    let b = frame_requests(clients, t.window, t.attrs, true);
    if b.len() == 0 {
        assert(a + b =~= a);
    } else {
        assert((a + b).drop_last() =~= a);
    }
}

/// The startup scan never frames a window it was not given.
pub proof fn lemma_scan_skips_absent(clients: Seq<(Window, Window)>, ws: Seq<TopLevel>, w: Window)
    requires
        forall|i: int| 0 <= i < ws.len() ==> #[trigger] ws[i].window != w,
    ensures
        creations(scan_requests(clients, ws), w) == 0,
    decreases ws.len(),
{
    if ws.len() > 0 {
        let init = ws.drop_last();
        assert forall|i: int| 0 <= i < init.len() implies #[trigger] init[i].window != w by {
            assert(init[i] == ws[i]);
        }
        lemma_scan_skips_absent(clients, init, w);
        lemma_creations_append(scan_requests(clients, init), clients, ws.last(), w);
    }
}

/// Of the windows found at startup, an override-redirect or unviewable one is never framed,
/// and a viewable, non-override-redirect one that is not yet managed is framed exactly once.
pub proof fn lemma_startup_scan(clients: Seq<(Window, Window)>, ws: Seq<TopLevel>, k: int)
    requires
        distinct_windows(ws),
        0 <= k < ws.len(),
    ensures
        creations(scan_requests(clients, ws), ws[k].window) == if eligible_at_startup(ws[k].attrs)
            && !has_client(clients, ws[k].window) {
            1nat
        } else {
            0nat
        },
    decreases ws.len(),
{
    let init = ws.drop_last();
    let w = ws[k].window;
    if k == ws.len() - 1 {
        assert forall|i: int| 0 <= i < init.len() implies #[trigger] init[i].window != w by {
            assert(init[i] == ws[i]);
        }
        lemma_scan_skips_absent(clients, init, w);
    } else {
        assert forall|i: int, j: int|
            0 <= i < init.len() && 0 <= j < init.len() && i != j implies #[trigger] init[i].window
            != #[trigger] init[j].window by {
            assert(init[i] == ws[i]);
            assert(init[j] == ws[j]);
        }
        assert(init[k] == ws[k]);
        lemma_startup_scan(clients, init, k);
        assert(ws.last() == ws[ws.len() - 1]);
    }
    lemma_creations_append(scan_requests(clients, init), clients, ws.last(), w);
}

} // verus!
