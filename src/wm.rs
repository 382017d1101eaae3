//! The window manager's state machine: framing, unframing, event handling and input policy.
use vstd::prelude::*;

use crate::protocol::{
    Binding, Event, Keymap, Request, TopLevel, WindowAttributes, WindowChanges, WmError, BACKGROUND_COLOR,
    BORDER_COLOR, BORDER_WIDTH, BUTTON1, BUTTON1_MASK, MOD1_MASK,
};
use crate::registry::{
    distinct_entries, frame_for, has_client, has_frame, next_entry, without_client, ClientList,
    Window,
};

verus! {

/// An ongoing drag: where the pointer was pressed and where the frame stood then.
#[derive(Clone, Copy, Debug, PartialEq, Eq, Structural)]
pub struct Drag {
    pub pointer_x: i32,
    pub pointer_y: i32,
    pub frame_x: i32,
    pub frame_y: i32,
}

/// The abstract state of the window manager.
pub struct WmState {
    pub root: Window,
    pub clients: Seq<(Window, Window)>,
    pub drag: Option<Drag>,
}

pub type Outcome = Result<Seq<Request>, WmError>;

/// The requests (or the error) a handler returns, as a sequence.
pub open spec fn outcome(r: Result<Vec<Request>, WmError>) -> Outcome {
    match r {
        Ok(v) => Ok(v@),
        Err(e) => Err(e),
    }
}

/// Whether a window reported at startup is one the manager should take over.
pub open spec fn eligible_at_startup(attrs: WindowAttributes) -> bool {
    !attrs.override_redirect && attrs.viewable
}

/// The frame-creation request, if any, for client `w` with attributes `attrs`.
pub open spec fn frame_requests(
    clients: Seq<(Window, Window)>,
    w: Window,
    attrs: WindowAttributes,
    created_before_wm: bool,
) -> Seq<Request> {
    if has_client(clients, w) || (created_before_wm && !eligible_at_startup(attrs)) {
        seq![]
    } else {
        seq![
            Request::CreateFrame {
                client: w,
                x: attrs.x,
                y: attrs.y,
                width: attrs.width,
                height: attrs.height,
                border_width: BORDER_WIDTH,
                border_color: BORDER_COLOR,
                background: BACKGROUND_COLOR,
            },
        ]
    }
}

/// The frame-creation requests for the windows found at startup, in the order reported.
pub open spec fn scan_requests(clients: Seq<(Window, Window)>, windows: Seq<TopLevel>) -> Seq<
    Request,
>
    decreases windows.len(),
{
    if windows.len() == 0 {
        seq![]
    } else {
        scan_requests(clients, windows.drop_last()) + frame_requests(
            clients,
            windows.last().window,
            windows.last().attrs,
            true,
        )
    }
}

/// What follows the creation of `frame` for `client`: subscribe the frame, put the client
/// in the save-set before reparenting it, map the frame, and grab the bindings.
pub open spec fn adopt_requests(client: Window, frame: Window) -> Seq<Request> {
    seq![
        Request::SelectSubstructure { window: frame },
        Request::AddToSaveSet { window: client },
        Request::Reparent { window: client, parent: frame, x: 0, y: 0 },
        Request::MapWindow { window: frame },
        Request::GrabKey { binding: Binding::Kill, modifiers: MOD1_MASK, window: client },
        Request::GrabKey { binding: Binding::Cycle, modifiers: MOD1_MASK, window: client },
        Request::GrabButton { button: BUTTON1, modifiers: MOD1_MASK, window: client },
    ]
}

/// Recording `frame` as the frame of `client`.
pub open spec fn adopt_step(s: WmState, client: Window, frame: Window) -> (WmState, Outcome) {
    if has_client(s.clients, client) {
        (s, Err(WmError::AlreadyManaged(client)))
    } else if has_frame(s.clients, frame) {
        (s, Err(WmError::FrameInUse(frame)))
    } else {
        (
            WmState { root: s.root, clients: s.clients.push((client, frame)), drag: s.drag },
            Ok(adopt_requests(client, frame)),
        )
    }
}

/// What undoes the framing of `client`: unmap the frame, give the client back to the root,
/// take it out of the save-set and destroy the frame.
pub open spec fn unframe_requests(root: Window, client: Window, frame: Window) -> Seq<Request> {
    seq![
        Request::UnmapWindow { window: frame },
        Request::Reparent { window: client, parent: root, x: 0, y: 0 },
        Request::RemoveFromSaveSet { window: client },
        Request::DestroyWindow { window: frame },
    ]
}

/// Releasing `client` from its frame.
pub open spec fn unframe_step(s: WmState, client: Window) -> (WmState, Outcome) {
    match frame_for(s.clients, client) {
        Some(f) => (
            WmState { root: s.root, clients: without_client(s.clients, client), drag: s.drag },
            Ok(unframe_requests(s.root, client, f)),
        ),
        None => (s, Err(WmError::UnknownClient(client))),
    }
}

/// A configure request is passed on verbatim: to the frame of `w`, if it has one, and to `w`.
pub open spec fn configure_requests(
    clients: Seq<(Window, Window)>,
    w: Window,
    value_mask: u64,
    changes: WindowChanges,
) -> Seq<Request> {
    let own = seq![Request::Configure { window: w, value_mask, changes }];
    match frame_for(clients, w) {
        Some(f) => seq![Request::Configure { window: f, value_mask, changes }] + own,
        None => own,
    }
}

/// Pointer motion: while a drag is on and the first button is held, the frame of `w` moves
/// by the distance the pointer travelled since the press.
pub open spec fn motion_outcome(s: WmState, w: Window, x_root: i32, y_root: i32, state: u32) -> Outcome {
    match s.drag {
        None => Ok(seq![]),
        Some(d) => match frame_for(s.clients, w) {
            None => Err(WmError::UnknownClient(w)),
            Some(f) => if state & BUTTON1_MASK != 0 {
                Ok(
                    seq![
                        Request::Move {
                            window: f,
                            x: (d.frame_x + (x_root - d.pointer_x)) as i64,
                            y: (d.frame_y + (y_root - d.pointer_y)) as i64,
                        },
                    ],
                )
            } else {
                Ok(seq![])
            },
        },
    }
}

/// A key press: kill, cycle to the next client, or launch.
pub open spec fn key_outcome(
    clients: Seq<(Window, Window)>,
    w: Window,
    keycode: u32,
    state: u32,
    keys: Keymap,
) -> Outcome {
    if keycode == keys.kill {
        Ok(seq![Request::Kill { window: w }])
    } else if state & MOD1_MASK != 0 && keycode == keys.cycle {
        match next_entry(clients, w) {
            Some((c, f)) => Ok(seq![Request::Raise { window: f }, Request::Focus { window: c }]),
            None => Err(WmError::UnknownClient(w)),
        }
    } else if state & MOD1_MASK != 0 && keycode == keys.launch {
        Ok(seq![Request::Launch])
    } else {
        Ok(seq![])
    }
}

/// The effect of one event on the state, and the requests it produces.
pub open spec fn step(s: WmState, ev: Event) -> (WmState, Outcome) {
    match ev {
        Event::MapRequest { window, attrs } => (
            s,
            Ok(frame_requests(s.clients, window, attrs, false) + seq![Request::MapWindow { window }]),
        ),
        Event::UnmapNotify { event, window } => if event != s.root && has_client(s.clients, window) {
            unframe_step(s, window)
        } else {
            (s, Ok(seq![]))
        },
        Event::ConfigureRequest { window, value_mask, changes } => (
            s,
            Ok(configure_requests(s.clients, window, value_mask, changes)),
        ),
        Event::ButtonPress { window, x_root, y_root, frame_x, frame_y } => match frame_for(
            s.clients,
            window,
        ) {
            Some(f) => (
                WmState {
                    root: s.root,
                    clients: s.clients,
                    drag: Some(
                        Drag { pointer_x: x_root, pointer_y: y_root, frame_x, frame_y },
                    ),
                },
                Ok(seq![Request::Raise { window: f }, Request::Focus { window }]),
            ),
            None => (s, Err(WmError::UnknownClient(window))),
        },
        Event::ButtonRelease { .. } => (
            WmState { root: s.root, clients: s.clients, drag: None },
            Ok(seq![]),
        ),
        Event::MotionNotify { window, x_root, y_root, state } => (
            s,
            motion_outcome(s, window, x_root, y_root, state),
        ),
        Event::KeyPress { window, keycode, state, keys } => (
            s,
            key_outcome(s.clients, window, keycode, state, keys),
        ),
        _ => (s, Ok(seq![])),
    }
}

/// The window manager: the root window, the registry of framed clients, and the drag
/// in progress, if any.
pub struct WindowManager {
    root: Window,
    clients: ClientList,
    drag: Option<Drag>,
}

impl View for WindowManager {
    type V = WmState;

    closed spec fn view(&self) -> WmState {
        WmState { root: self.root, clients: self.clients@, drag: self.drag }
    }
}

impl WindowManager {
    /// Every client has one frame of its own.
    pub open spec fn wf(&self) -> bool {
        distinct_entries(self@.clients)
    }

    /// A manager for the screen whose root window is `root`, with no clients yet.
    pub fn new(root: Window) -> (r: Self)
        ensures
            r@ == (WmState { root, clients: Seq::empty(), drag: None }),
            r.wf(),
    {
        WindowManager { root, clients: ClientList::new(), drag: None }
    }

    pub fn root(&self) -> (r: Window)
        ensures
            r == self@.root,
    {
        self.root
    }

    /// The registry of framed clients.
    pub fn clients(&self) -> (r: &ClientList)
        ensures
            r@ == self@.clients,
            self.wf() ==> r.wf(),
    {
        &self.clients
    }

    /// The drag in progress, if any.
    pub fn drag(&self) -> (r: Option<Drag>)
        ensures
            r == self@.drag,
    {
        self.drag
    }

    /// The frame of client `w`, if it is managed.
    pub fn frame_of(&self, w: Window) -> (r: Option<Window>)
        requires
            self.wf(),
        ensures
            r == frame_for(self@.clients, w),
    {
        match self.clients.get(&w) {
            Some(f) => Some(*f),
            None => None,
        }
    }

    /// Decides whether to frame `w`: nothing for a client already framed, nor, among the
    /// windows found at startup, for an override-redirect or unviewable one; otherwise a
    /// frame at the client's position and size with the fixed border and colours.
    pub fn frame(&self, w: Window, attrs: WindowAttributes, created_before_wm: bool) -> (r: Vec<
        Request,
    >)
        requires
            self.wf(),
        ensures
            r@ == frame_requests(self@.clients, w, attrs, created_before_wm),
    {
        if self.clients.contains(&w) || (created_before_wm && (attrs.override_redirect
            || !attrs.viewable)) {
            Vec::new()
        } else {
            let mut r = Vec::new();
            r.push(
                Request::CreateFrame {
                    client: w,
                    x: attrs.x,
                    y: attrs.y,
                    width: attrs.width,
                    height: attrs.height,
                    border_width: BORDER_WIDTH,
                    border_color: BORDER_COLOR,
                    background: BACKGROUND_COLOR,
                },
            );
            proof {
                assert(r@ =~= frame_requests(self@.clients, w, attrs, created_before_wm));
            }
            r
        }
    }

    /// The frames to create for the top-level windows that existed before the manager
    /// started, in the order the server reported them.
    pub fn scan(&self, windows: &Vec<TopLevel>) -> (r: Vec<Request>)
        requires
            self.wf(),
        ensures
            r@ == scan_requests(self@.clients, windows@),
    {
        let mut r: Vec<Request> = Vec::new();
        let mut i: usize = 0;
        while i < windows.len()
            invariant
                self.wf(),
                i <= windows@.len(),
                r@ == scan_requests(self@.clients, windows@.subrange(0, i as int)),
            decreases windows@.len() - i,
        {
            let t = windows[i];
            let mut more = self.frame(t.window, t.attrs, true);
            proof {
                let next = windows@.subrange(0, i + 1);
                assert(next.drop_last() =~= windows@.subrange(0, i as int));
                assert(next.last() == t);
            }
            r.append(&mut more);
            i = i + 1;
        }
        proof {
            assert(windows@.subrange(0, windows@.len() as int) =~= windows@);
        }
        r
    }

    /// Records `frame`, just created for `client`, and returns what completes the framing.
    pub fn adopt(&mut self, client: Window, frame: Window) -> (r: Result<Vec<Request>, WmError>)
        requires
            old(self).wf(),
        ensures
            (final(self)@, outcome(r)) == adopt_step(old(self)@, client, frame),
            final(self).wf(),
            r is Ok ==> frame_for(final(self)@.clients, client) == Some(frame),
    {
        if self.clients.contains(&client) {
            return Err(WmError::AlreadyManaged(client));
        }
        if self.frame_in_use(frame) {
            return Err(WmError::FrameInUse(frame));
        }
        self.clients.insert(client, frame);
        let r = vec![
            Request::SelectSubstructure { window: frame },
            Request::AddToSaveSet { window: client },
            Request::Reparent { window: client, parent: frame, x: 0, y: 0 },
            Request::MapWindow { window: frame },
            Request::GrabKey { binding: Binding::Kill, modifiers: MOD1_MASK, window: client },
            Request::GrabKey { binding: Binding::Cycle, modifiers: MOD1_MASK, window: client },
            Request::GrabButton { button: BUTTON1, modifiers: MOD1_MASK, window: client },
        ];
        proof {
            assert(r@ =~= adopt_requests(client, frame));
        }
        Ok(r)
    }

    fn frame_in_use(&self, frame: Window) -> (r: bool)
        ensures
            r == has_frame(self@.clients, frame),
    {
        let mut i: usize = 0;
        while i < self.clients.len()
            invariant
                i <= self.clients@.len(),
                forall|k: int| 0 <= k < i ==> #[trigger] self.clients@[k].1 != frame,
            decreases self.clients@.len() - i,
        {
            match self.clients.index(i) {
                Some((_, f)) => {
                    if *f == frame {
                        return true;
                    }
                },
                None => {},
            }
            i = i + 1;
        }
        false
    }

    /// Releases `w` from its frame and forgets it.
    pub fn unframe(&mut self, w: Window) -> (r: Result<Vec<Request>, WmError>)
        requires
            old(self).wf(),
        ensures
            (final(self)@, outcome(r)) == unframe_step(old(self)@, w),
            final(self).wf(),
    {
        match self.clients.get(&w) {
            Some(f) => {
                let frame = *f;
                self.clients.remove(&w);
                let r = vec![
                    Request::UnmapWindow { window: frame },
                    Request::Reparent { window: w, parent: self.root, x: 0, y: 0 },
                    Request::RemoveFromSaveSet { window: w },
                    Request::DestroyWindow { window: frame },
                ];
                proof {
                    assert(r@ =~= unframe_requests(self.root, w, frame));
                }
                Ok(r)
            },
            None => Err(WmError::UnknownClient(w)),
        }
    }

    /// The grabs made on the root window once the startup scan is done: the launcher key.
    pub fn root_grabs(&self) -> (r: Vec<Request>)
        ensures
            r@ == seq![
                Request::GrabKey { binding: Binding::Launch, modifiers: MOD1_MASK, window: self@.root },
            ],
    {
        let r = vec![Request::GrabKey { binding: Binding::Launch, modifiers: MOD1_MASK, window: self.root }];
        proof {
            assert(r@ =~= seq![
                Request::GrabKey { binding: Binding::Launch, modifiers: MOD1_MASK, window: self@.root },
            ]);
        }
        r
    }

    /// A client asks to be mapped: frame it unless it already has a frame, then map it.
    pub fn on_map_request(&self, w: Window, attrs: WindowAttributes) -> (r: Vec<Request>)
        requires
            self.wf(),
        ensures
            Ok::<Seq<Request>, WmError>(r@) == step(self@, Event::MapRequest { window: w, attrs }).1,
    {
        let mut r = self.frame(w, attrs, false);
        r.push(Request::MapWindow { window: w });
        proof {
            assert(r@ =~= frame_requests(self@.clients, w, attrs, false) + seq![
                Request::MapWindow { window: w },
            ]);
        }
        r
    }

    /// A window was unmapped: a managed client, reported on a window other than the root,
    /// is unframed; anything else is ignored.
    pub fn on_unmap_notify(&mut self, event: Window, w: Window) -> (r: Vec<Request>)
        requires
            old(self).wf(),
        ensures
            (final(self)@, Ok::<Seq<Request>, WmError>(r@)) == step(
                old(self)@,
                Event::UnmapNotify { event, window: w },
            ),
            final(self).wf(),
    {
        if event != self.root && self.clients.contains(&w) {
            match self.unframe(w) {
                Ok(r) => r,
                Err(_) => Vec::new(),
            }
        } else {
            Vec::new()
        }
    }

    /// A configure request is honoured verbatim, on the frame of `w` if there is one, then
    /// on `w` itself.
    pub fn on_configure_request(&self, w: Window, value_mask: u64, changes: WindowChanges) -> (r:
        Vec<Request>)
        requires
            self.wf(),
        ensures
            Ok::<Seq<Request>, WmError>(r@) == step(self@, Event::ConfigureRequest { window: w, value_mask, changes }).1,
    {
        let mut r = Vec::new();
        match self.frame_of(w) {
            Some(f) => r.push(Request::Configure { window: f, value_mask, changes }),
            None => {},
        }
        r.push(Request::Configure { window: w, value_mask, changes });
        proof {
            assert(r@ =~= configure_requests(self@.clients, w, value_mask, changes));
        }
        r
    }

    /// A press over a managed client starts a drag, raises the frame and focuses the client.
    pub fn on_button_pressed(
        &mut self,
        w: Window,
        x_root: i32,
        y_root: i32,
        frame_x: i32,
        frame_y: i32,
    ) -> (r: Result<Vec<Request>, WmError>)
        requires
            old(self).wf(),
        ensures
            (final(self)@, outcome(r)) == step(
                old(self)@,
                Event::ButtonPress { window: w, x_root, y_root, frame_x, frame_y },
            ),
            final(self).wf(),
    {
        match self.frame_of(w) {
            Some(f) => {
                self.drag = Some(Drag { pointer_x: x_root, pointer_y: y_root, frame_x, frame_y });
                let r = vec![Request::Raise { window: f }, Request::Focus { window: w }];
                proof {
                    assert(r@ =~= seq![Request::Raise { window: f }, Request::Focus { window: w }]);
                }
                Ok(r)
            },
            None => Err(WmError::UnknownClient(w)),
        }
    }

    /// The button went up: the drag is over.
    pub fn on_button_released(&mut self, w: Window) -> (r: Vec<Request>)
        requires
            old(self).wf(),
        ensures
            (final(self)@, Ok::<Seq<Request>, WmError>(r@)) == step(
                old(self)@,
                Event::ButtonRelease { window: w },
            ),
            final(self).wf(),
    {
        self.drag = None;
        Vec::new()
    }

    /// The pointer moved: during a drag with the first button held, the frame follows it.
    pub fn on_motion_notify(&self, w: Window, x_root: i32, y_root: i32, state: u32) -> (r: Result<
        Vec<Request>,
        WmError,
    >)
        requires
            self.wf(),
        ensures
            outcome(r) == step(self@, Event::MotionNotify { window: w, x_root, y_root, state }).1,
    {
        match self.drag {
            None => Ok(Vec::new()),
            Some(d) => match self.frame_of(w) {
                None => Err(WmError::UnknownClient(w)),
                Some(f) => {
                    if state & BUTTON1_MASK != 0 {
                        let x = d.frame_x as i64 + (x_root as i64 - d.pointer_x as i64);
                        let y = d.frame_y as i64 + (y_root as i64 - d.pointer_y as i64);
                        let r = vec![Request::Move { window: f, x, y }];
                        proof {
                            assert(r@ =~= seq![Request::Move { window: f, x, y }]);
                        }
                        Ok(r)
                    } else {
                        Ok(Vec::new())
                    }
                },
            },
        }
    }

    /// A grabbed key went down: the kill key closes the client's connection, Alt with the
    /// cycle key focuses the next client, Alt with the launch key starts the launcher.
    pub fn on_key_pressed(
        &self,
        w: Window,
        keycode: u32,
        state: u32,
        keys: Keymap,
    ) -> (r: Result<Vec<Request>, WmError>)
        requires
            self.wf(),
        ensures
            outcome(r) == step(self@, Event::KeyPress { window: w, keycode, state, keys }).1,
    {
        if keycode == keys.kill {
            let r = vec![Request::Kill { window: w }];
            proof {
                assert(r@ =~= seq![Request::Kill { window: w }]);
            }
            Ok(r)
        } else if state & MOD1_MASK != 0 && keycode == keys.cycle {
            match self.clients.cycle_target(&w) {
                Some((c, f)) => {
                    let r = vec![Request::Raise { window: f }, Request::Focus { window: c }];
                    proof {
                        assert(r@ =~= seq![Request::Raise { window: f }, Request::Focus { window: c }]);
                    }
                    Ok(r)
                },
                None => Err(WmError::UnknownClient(w)),
            }
        } else if state & MOD1_MASK != 0 && keycode == keys.launch {
            let r = vec![Request::Launch];
            proof {
                assert(r@ =~= seq![Request::Launch]);
            }
            Ok(r)
        } else {
            Ok(Vec::new())
        }
    }

    /// Handles one event, in the order the server delivered it.
    pub fn handle_event(&mut self, ev: Event) -> (r: Result<Vec<Request>, WmError>)
        requires
            old(self).wf(),
        ensures
            (final(self)@, outcome(r)) == step(old(self)@, ev),
            final(self).wf(),
    {
        match ev {
            Event::MapRequest { window, attrs } => Ok(self.on_map_request(window, attrs)),
            Event::UnmapNotify { event, window } => Ok(self.on_unmap_notify(event, window)),
            Event::ConfigureRequest { window, value_mask, changes } => Ok(
                self.on_configure_request(window, value_mask, changes),
            ),
            Event::ButtonPress { window, x_root, y_root, frame_x, frame_y } => self.on_button_pressed(
                window,
                x_root,
                y_root,
                frame_x,
                frame_y,
            ),
            Event::ButtonRelease { window } => Ok(self.on_button_released(window)),
            Event::MotionNotify { window, x_root, y_root, state } => self.on_motion_notify(
                window,
                x_root,
                y_root,
                state,
            ),
            Event::KeyPress { window, keycode, state, keys } => self.on_key_pressed(
                window,
                keycode,
                state,
                keys,
            ),
            _ => Ok(Vec::new()),
        }
    }
}

} // verus!
