use vstd::prelude::*;
use crate::button::{lemma_toggle_involution, Button, ButtonView};

verus! {

/// Raw key code that ends the session (the escape key).
pub const EXIT_KEY: u32 = 1;

/// Something the dispatch loop is asked to do once the current batch of
/// events has been handled.
#[allow(non_camel_case_types)]
#[derive(Clone, Copy, Debug, PartialEq, Eq, Structural)]
pub enum Action {
    EXIT,
    COLOR,
}

/// Redraw state: `RUNNING` when the shown buffer is up to date, `CHANGE`
/// when a draw is owed at the next frame notification.
#[allow(non_camel_case_types)]
#[derive(Clone, Copy, Debug, PartialEq, Eq, Structural)]
pub enum Status {
    RUNNING,
    CHANGE,
}

/// Application data carried by the session.
pub struct AppDate {}

/// The kind of a pointer event.
#[derive(Clone, Copy, Debug, PartialEq, Eq, Structural)]
pub enum PointerKind {
    Enter,
    Leave,
    Motion,
    Press,
    Release,
    Axis,
}

/// A pointer event: whether it targets the session's own surface, where the
/// pointer is (24.8 fixed point, in logical pixels) and what happened.
#[derive(Clone, Copy, Debug)]
pub struct PointerEvent {
    pub on_surface: bool,
    pub x: i32,
    pub y: i32,
    pub kind: PointerKind,
}

/// A notification from the compositor that the session reacts to.
#[derive(Clone, Copy, Debug)]
pub enum Event {
    Configure,
    Frame,
    ScaleChanged(i32),
    Key(u32),
    Pointer(PointerEvent),
    Closed,
}

/// The session as the contracts see it.
pub struct FoamView {
    pub exit: bool,
    pub first_configure: bool,
    pub next_action: Option<Action>,
    pub status: Status,
    pub scale_factor: int,
    pub sc_width: int,
    pub sc_height: int,
    pub width: int,
    pub height: int,
    pub position: (int, int),
    pub buttons: Seq<ButtonView>,
}

/// Button `i` is the first of `bs` whose rectangle holds the point.
pub open spec fn is_first_hit(bs: Seq<ButtonView>, px: int, py: int, i: int) -> bool {
    &&& 0 <= i < bs.len()
    &&& bs[i].contains_point(px, py)
    &&& forall|j: int| 0 <= j < i ==> !(#[trigger] bs[j]).contains_point(px, py)
}

pub open spec fn has_hit(bs: Seq<ButtonView>, px: int, py: int) -> bool {
    exists|i: int| is_first_hit(bs, px, py, i)
}

pub open spec fn first_hit(bs: Seq<ButtonView>, px: int, py: int) -> int {
    choose|i: int| is_first_hit(bs, px, py, i)
}

impl FoamView {
    pub open spec fn wf(self) -> bool {
        &&& self.scale_factor >= 1
        &&& forall|i: int| 0 <= i < self.buttons.len() ==> (#[trigger] self.buttons[i]).wf()
    }

    /// After a surface configuration: the first one is spent.
    pub open spec fn configured(self) -> FoamView {
        FoamView { first_configure: false, ..self }
    }

    /// Only the first configuration draws.
    pub open spec fn configure_draws(self) -> bool {
        self.first_configure
    }

    /// After a frame notification the shown buffer is up to date.
    pub open spec fn framed(self) -> FoamView {
        FoamView { status: Status::RUNNING, ..self }
    }

    /// A frame notification draws exactly when a draw is owed.
    pub open spec fn frame_draws(self) -> bool {
        self.status == Status::CHANGE
    }

    /// A new scale factor changes the surface geometry, so a draw is owed.
    pub open spec fn rescaled(self, factor: int) -> FoamView {
        FoamView { scale_factor: factor, status: Status::CHANGE, ..self }
    }

    pub open spec fn key_pressed(self, code: int) -> FoamView {
        if code == EXIT_KEY {
            FoamView { next_action: Some(Action::EXIT), ..self }
        } else {
            self
        }
    }

    pub open spec fn closed(self) -> FoamView {
        FoamView { exit: true, ..self }
    }

    /// A press toggles the first button that holds the point and owes a
    /// draw; a press that hits no button changes nothing.
    pub open spec fn pressed(self, px: int, py: int) -> FoamView {
        if has_hit(self.buttons, px, py) {
            let i = first_hit(self.buttons, px, py);
            FoamView {
                buttons: self.buttons.update(i, self.buttons[i].toggled()),
                status: Status::CHANGE,
                ..self
            }
        } else {
            self
        }
    }

    /// Events aimed at another surface are ignored; the others move the
    /// pointer, and a press hit-tests the buttons.
    pub open spec fn pointer(self, e: PointerEvent) -> FoamView {
        if !e.on_surface {
            self
        } else {
            let moved = FoamView { position: (e.x as int, e.y as int), ..self };
            if e.kind == PointerKind::Press {
                moved.pressed(e.x as int, e.y as int)
            } else {
                moved
            }
        }
    }

    pub open spec fn pointer_frame(self, events: Seq<PointerEvent>) -> FoamView
        decreases events.len(),
    {
        if events.len() == 0 {
            self
        } else {
            self.pointer_frame(events.drop_last()).pointer(events.last())
        }
    }

    /// The dispatch loop consumes the pending action; an exit request sets
    /// the exit flag.
    pub open spec fn dispatched(self) -> FoamView {
        FoamView {
            next_action: None,
            exit: self.exit || self.next_action == Some(Action::EXIT),
            ..self
        }
    }

    /// The state after one event.
    pub open spec fn step(self, ev: Event) -> FoamView {
        match ev {
            Event::Configure => self.configured(),
            Event::Frame => self.framed(),
            Event::ScaleChanged(f) => if f >= 1 {
                self.rescaled(f as int)
            } else {
                self
            },
            Event::Key(code) => self.key_pressed(code as int),
            Event::Pointer(e) => self.pointer(e),
            Event::Closed => self.closed(),
        }
    }

    /// The state after a sequence of events.
    pub open spec fn run(self, events: Seq<Event>) -> FoamView
        decreases events.len(),
    {
        if events.len() == 0 {
            self
        } else {
            self.step(events[0]).run(events.drop_first())
        }
    }

    /// How many draws a sequence of events makes.
    pub open spec fn run_draws(self, events: Seq<Event>) -> nat
        decreases events.len(),
    {
        if events.len() == 0 {
            0
        } else {
            (if self.step_draws(events[0]) {
                1nat
            } else {
                0nat
            }) + self.step(events[0]).run_draws(events.drop_first())
        }
    }

    /// Whether one event makes the session draw.
    pub open spec fn step_draws(self, ev: Event) -> bool {
        match ev {
            Event::Configure => self.configure_draws(),
            Event::Frame => self.frame_draws(),
            _ => false,
        }
    }
}

/// Column `col` and row `row` of the 2x2 grid of `width` x `height`
/// centred on a `sc_width` x `sc_height` surface: `(x, y, width, height)`.
pub open spec fn grid_cell(sc_width: int, sc_height: int, width: int, height: int, col: int, row: int) -> (int, int, int, int) {
    (
        (sc_width - width) / 2 + col * (width / 2),
        (sc_height - height) / 2 + row * (height / 2),
        width / 2,
        height / 2,
    )
}

/// Default color of grid button `i`, as ARGB8888 bytes in memory order
/// (blue, green, red, alpha).
pub open spec fn grid_default_color(i: int) -> Seq<u8> {
    if i == 0 {
        seq![0xD7u8, 0x78u8, 0x00u8, 0xFFu8]
    } else if i == 1 {
        seq![0xF2u8, 0xBCu8, 0x00u8, 0xFFu8]
    } else if i == 2 {
        seq![0x00u8, 0xBAu8, 0x7Fu8, 0xFFu8]
    } else {
        seq![0x22u8, 0x50u8, 0xF2u8, 0xFFu8]
    }
}

/// Name of grid button `i`.
pub open spec fn grid_name(i: int) -> Seq<char> {
    if i == 0 {
        "left_top"@
    } else if i == 1 {
        "right_top"@
    } else if i == 2 {
        "left_bottom"@
    } else {
        "right_bottom"@
    }
}

/// Opaque black, the clicked color of every grid button.
pub open spec fn grid_clicked_color() -> Seq<u8> {
    seq![0x00u8, 0x00u8, 0x00u8, 0xFFu8]
}

/// Grid button `i` as built: its cell, showing its default color.
pub open spec fn is_grid_button(b: ButtonView, sc_width: int, sc_height: int, width: int, height: int, i: int) -> bool {
    let c = grid_cell(sc_width, sc_height, width, height, i % 2, i / 2);
    &&& b.name == grid_name(i)
    &&& (b.x, b.y, b.width, b.height) == c
    &&& b.default_color == grid_default_color(i)
    &&& b.clicked_color == grid_clicked_color()
    &&& b.color == b.default_color
}

pub open spec fn button_views(bs: Seq<Button>) -> Seq<ButtonView> {
    bs.map_values(|b: Button| b@)
}

pub open spec fn no_frame(events: Seq<Event>) -> bool {
    forall|i: int| 0 <= i < events.len() ==> !(#[trigger] events[i] is Frame)
}

/// Once the first configuration is spent, events other than frame
/// notifications neither draw nor bring the first configuration back.
pub proof fn lemma_no_draw_without_frame(s: FoamView, events: Seq<Event>)
    requires
        !s.first_configure,
        no_frame(events),
    ensures
        s.run_draws(events) == 0,
        !s.run(events).first_configure,
    decreases events.len(),
{
    if events.len() > 0 {
        assert(!(events[0] is Frame));
        let rest = events.drop_first();
        assert forall|i: int| 0 <= i < rest.len() implies !(#[trigger] rest[i] is Frame) by {
            assert(rest[i] == events[i + 1]);
        }
        lemma_no_draw_without_frame(s.step(events[0]), rest);
    }
}

/// The first surface configuration draws once, and no further draw comes
/// before a frame notification; the first configuration is spent after it.
pub proof fn lemma_first_configure_draws_once(s: FoamView, events: Seq<Event>)
    requires
        s.first_configure,
        events.len() > 0,
        events[0] is Configure,
        no_frame(events),
    ensures
        s.run_draws(events) == 1,
        !s.run(events).first_configure,
{
    let rest = events.drop_first();
    assert forall|i: int| 0 <= i < rest.len() implies !(#[trigger] rest[i] is Frame) by {
        assert(rest[i] == events[i + 1]);
    }
    lemma_no_draw_without_frame(s.step(events[0]), rest);
}

/// No compositor event withdraws a pending exit request.
pub proof fn lemma_exit_request_kept(s: FoamView, events: Seq<Event>)
    requires
        s.next_action == Some(Action::EXIT),
    ensures
        s.run(events).next_action == Some(Action::EXIT),
    decreases events.len(),
{
    if events.len() > 0 {
        lemma_exit_request_kept(s.step(events[0]), events.drop_first());
    }
}

/// After the exit key, whatever else the same round of the dispatch loop
/// delivers, the end of the round sets the exit flag, so the loop stops, and
/// the pending action is consumed.
pub proof fn lemma_exit_key_stops(s: FoamView, events: Seq<Event>)
    ensures
        s.key_pressed(EXIT_KEY as int).run(events).dispatched().exit,
        s.key_pressed(EXIT_KEY as int).run(events).dispatched().next_action == None::<Action>,
{
    lemma_exit_request_kept(s.key_pressed(EXIT_KEY as int), events);
}

/// A press that hits no button changes no button and owes no draw.
pub proof fn lemma_press_miss(s: FoamView, px: int, py: int)
    requires
        forall|i: int| 0 <= i < s.buttons.len() ==> !(#[trigger] s.buttons[i]).contains_point(px, py),
    ensures
        s.pressed(px, py) == s,
{
    if has_hit(s.buttons, px, py) {
        let i = first_hit(s.buttons, px, py);
        assert(s.buttons[i].contains_point(px, py));
    }
}

/// A press on a button toggles it and owes a draw; a second press at the
/// same place gives every button back its color and owes a draw again.
pub proof fn lemma_press_twice(s: FoamView, px: int, py: int)
    requires
        s.wf(),
        has_hit(s.buttons, px, py),
    ensures
        ({
            let i = first_hit(s.buttons, px, py);
            &&& s.pressed(px, py).buttons[i] == s.buttons[i].toggled()
            &&& s.pressed(px, py).status == Status::CHANGE
            &&& s.pressed(px, py).pressed(px, py).buttons == s.buttons
            &&& s.pressed(px, py).pressed(px, py).status == Status::CHANGE
        }),
{
    let i = first_hit(s.buttons, px, py);
    let t = s.pressed(px, py);
    assert(is_first_hit(s.buttons, px, py, i));
    lemma_toggle_involution(s.buttons[i]);
    assert forall|j: int| 0 <= j < i implies !(#[trigger] t.buttons[j]).contains_point(px, py) by {
        assert(t.buttons[j] == s.buttons[j]);
    }
    assert(t.buttons[i].contains_point(px, py));
    assert(is_first_hit(t.buttons, px, py, i));
    let k = first_hit(t.buttons, px, py);
    assert(k == i);
    assert(t.pressed(px, py).buttons =~= s.buttons);
}

/// The client session: surface geometry, redraw state, pending action and
/// the buttons of the panel.
pub struct Foam {
    pub exit: bool,
    pub first_configure: bool,
    pub next_action: Option<Action>,
    pub app: AppDate,
    pub status: Status,
    pub scale_factor: i32,
    pub sc_width: u32,
    pub sc_height: u32,
    pub width: u32,
    pub height: u32,
    pub position: (i32, i32),
    pub buttons: Vec<Button>,
}

impl View for Foam {
    type V = FoamView;

    open spec fn view(&self) -> FoamView {
        FoamView {
            exit: self.exit,
            first_configure: self.first_configure,
            next_action: self.next_action,
            status: self.status,
            scale_factor: self.scale_factor as int,
            sc_width: self.sc_width as int,
            sc_height: self.sc_height as int,
            width: self.width as int,
            height: self.height as int,
            position: (self.position.0 as int, self.position.1 as int),
            buttons: button_views(self.buttons@),
        }
    }
}

/// The four buttons of the panel, left to right and top to bottom, each a
/// quarter of the `width` x `height` grid centred on the surface.
pub fn button_grid(sc_width: i32, sc_height: i32, width: i32, height: i32) -> (r: Vec<Button>)
    requires
        0 <= width <= sc_width,
        0 <= height <= sc_height,
    ensures
        r@.len() == 4,
        forall|i: int|
            0 <= i < 4 ==> is_grid_button(
                #[trigger] button_views(r@)[i],
                sc_width as int,
                sc_height as int,
                width as int,
                height as int,
                i,
            ),
        forall|i: int| 0 <= i < 4 ==> (#[trigger] button_views(r@)[i]).wf(),
{
    let left = (sc_width - width) / 2;
    let top = (sc_height - height) / 2;
    let w = width / 2;
    let h = height / 2;
    let black: [u8; 4] = [0x00, 0x00, 0x00, 0xFF];
    let c0: [u8; 4] = [0xD7, 0x78, 0x00, 0xFF];
    let c1: [u8; 4] = [0xF2, 0xBC, 0x00, 0xFF];
    let c2: [u8; 4] = [0x00, 0xBA, 0x7F, 0xFF];
    let c3: [u8; 4] = [0x22, 0x50, 0xF2, 0xFF];
    proof {
        assert(black@ =~= grid_clicked_color());
        assert(c0@ =~= grid_default_color(0));
        assert(c1@ =~= grid_default_color(1));
        assert(c2@ =~= grid_default_color(2));
        assert(c3@ =~= grid_default_color(3));
    }
    let mut r: Vec<Button> = Vec::new();
    r.push(Button::new(String::from_str("left_top"), left, top, w, h, c0, black));
    r.push(Button::new(String::from_str("right_top"), left + w, top, w, h, c1, black));
    r.push(Button::new(String::from_str("left_bottom"), left, top + h, w, h, c2, black));
    r.push(Button::new(String::from_str("right_bottom"), left + w, top + h, w, h, c3, black));
    proof {
        let v = button_views(r@);
        assert(is_grid_button(v[0], sc_width as int, sc_height as int, width as int, height as int, 0));
        assert(is_grid_button(v[1], sc_width as int, sc_height as int, width as int, height as int, 1));
        assert(is_grid_button(v[2], sc_width as int, sc_height as int, width as int, height as int, 2));
        assert(is_grid_button(v[3], sc_width as int, sc_height as int, width as int, height as int, 3));
    }
    r
}

impl Foam {
    /// A session for a `sc_width` x `sc_height` surface whose panel is the
    /// button grid of `width` x `height`, waiting for its first
    /// configuration.
    pub fn new(app: AppDate, sc_width: u32, sc_height: u32, width: u32, height: u32) -> (r: Foam)
        requires
            width <= sc_width <= i32::MAX,
            height <= sc_height <= i32::MAX,
        ensures
            r@.wf(),
            !r@.exit,
            r@.first_configure,
            r@.next_action == None::<Action>,
            r@.status == Status::RUNNING,
            r@.scale_factor == 1,
            r@.sc_width == sc_width,
            r@.sc_height == sc_height,
            r@.width == width,
            r@.height == height,
            r@.position == (0int, 0int),
            r@.buttons.len() == 4,
            forall|i: int|
                0 <= i < 4 ==> is_grid_button(
                    #[trigger] r@.buttons[i],
                    sc_width as int,
                    sc_height as int,
                    width as int,
                    height as int,
                    i,
                ),
    {
        let buttons = button_grid(sc_width as i32, sc_height as i32, width as i32, height as i32);
        Foam {
            exit: false,
            first_configure: true,
            next_action: None,
            app,
            status: Status::RUNNING,
            scale_factor: 1,
            sc_width,
            sc_height,
            width,
            height,
            position: (0, 0),
            buttons,
        }
    }

    /// Handles a surface configuration; returns whether to draw now. Only the
    /// first one draws.
    pub fn configure(&mut self) -> (draw: bool)
        ensures
            final(self)@ == old(self)@.configured(),
            draw == old(self)@.configure_draws(),
    {
        if self.first_configure {
            self.first_configure = false;
            true
        } else {
            false
        }
    }

    /// Handles a frame notification; returns whether to draw now. A draw is
    /// made only when one is owed, and the state is up to date afterwards.
    pub fn frame(&mut self) -> (draw: bool)
        ensures
            final(self)@ == old(self)@.framed(),
            draw == old(self)@.frame_draws(),
    {
        let draw = self.status == Status::CHANGE;
        self.status = Status::RUNNING;
        draw
    }

    /// Takes a new integer scale factor; the next frame redraws.
    pub fn scale_factor_changed(&mut self, new_factor: i32)
        requires
            new_factor >= 1,
        ensures
            final(self)@ == old(self)@.rescaled(new_factor as int),
    {
        self.scale_factor = new_factor;
        self.status = Status::CHANGE;
    }

    /// A key press: the exit key asks the loop to stop; other keys are
    /// ignored.
    pub fn press_key(&mut self, raw_code: u32)
        ensures
            final(self)@ == old(self)@.key_pressed(raw_code as int),
    {
        if raw_code == EXIT_KEY {
            self.next_action = Some(Action::EXIT);
        }
    }

    /// The compositor closed the surface.
    pub fn closed(&mut self)
        ensures
            final(self)@ == old(self)@.closed(),
    {
        self.exit = true;
    }

    /// A press at a fixed-point position: toggles the first button, in
    /// registration order, whose rectangle holds it.
    pub fn press(&mut self, px: i32, py: i32)
        ensures
            final(self)@ == old(self)@.pressed(px as int, py as int),
    {
        let ghost bs = self@.buttons;
        let n = self.buttons.len();
        let mut i: usize = 0;
        while i < n
            invariant
                n == self.buttons@.len(),
                self@ == old(self)@,
                bs == self@.buttons,
                i <= n,
                forall|j: int| 0 <= j < i ==> !(#[trigger] bs[j]).contains_point(px as int, py as int),
            decreases n - i,
        {
            if self.buttons[i].contains(px, py) {
                proof {
                    assert(is_first_hit(bs, px as int, py as int, i as int));
                    let k = first_hit(bs, px as int, py as int);
                    assert(k == i as int);
                }
                self.buttons[i].click();
                self.status = Status::CHANGE;
                assert(self@.buttons =~= bs.update(i as int, bs[i as int].toggled()));
                return;
            }
            i = i + 1;
        }
        assert(!has_hit(bs, px as int, py as int));
    }

    /// One pointer event.
    pub fn pointer_event(&mut self, event: PointerEvent)
        ensures
            final(self)@ == old(self)@.pointer(event),
    {
        if event.on_surface {
            self.position = (event.x, event.y);
            if event.kind == PointerKind::Press {
                self.press(event.x, event.y);
            }
        }
    }

    /// A batch of pointer events, handled in order.
    pub fn pointer_frame(&mut self, events: &[PointerEvent])
        ensures
            final(self)@ == old(self)@.pointer_frame(events@),
    {
        let mut i: usize = 0;
        while i < events.len()
            invariant
                i <= events@.len(),
                self@ == old(self)@.pointer_frame(events@.subrange(0, i as int)),
            decreases events@.len() - i,
        {
            let ghost done = events@.subrange(0, i as int);
            self.pointer_event(events[i]);
            proof {
                let next = events@.subrange(0, i + 1);
                assert(next.drop_last() =~= done);
                assert(next.last() == events@[i as int]);
            }
            i = i + 1;
        }
        assert(events@.subrange(0, events@.len() as int) =~= events@);
    }

    /// The end of one round of the dispatch loop: consumes the pending
    /// action and returns whether the loop is to stop.
    pub fn dispatched(&mut self) -> (stop: bool)
        ensures
            final(self)@ == old(self)@.dispatched(),
            stop == final(self).exit,
    {
        match self.next_action.take() {
            Some(Action::EXIT) => {
                self.exit = true;
            },
            _ => {},
        }
        self.exit
    }

    /// Handles one compositor notification and returns whether to draw now.
    /// A scale factor below one is ignored.
    pub fn handle(&mut self, event: Event) -> (draw: bool)
        ensures
            final(self)@ == old(self)@.step(event),
            draw == old(self)@.step_draws(event),
    {
        match event {
            Event::Configure => self.configure(),
            Event::Frame => self.frame(),
            Event::ScaleChanged(f) => {
                if f >= 1 {
                    self.scale_factor_changed(f);
                }
                false
            },
            Event::Key(code) => {
                self.press_key(code);
                false
            },
            Event::Pointer(e) => {
                self.pointer_event(e);
                false
            },
            Event::Closed => {
                self.closed();
                false
            },
        }
    }
}

} // verus!
