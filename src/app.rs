//! Navigation state over the offset range of an entropy profile.
//!
//! Positions are byte offsets. A pan moves the window by a tenth of its
//! width; a zoom scales the width by nine tenths (in) or eleven tenths (out),
//! rounding down, and keeps the window's center where the edges allow.
use vstd::prelude::*;

verus! {

/// How offsets are written in axis labels.
#[derive(Clone, Copy, Debug, PartialEq, Eq, Structural)]
pub enum DisplayMode {
    Decimal,
    Hexadecimal,
}

/// One user command for the navigation state machine.
#[derive(Clone, Copy, Debug, PartialEq, Eq, Structural)]
pub enum Command {
    PanLeft,
    PanRight,
    ZoomIn,
    ZoomOut,
    ToggleHexDisplay,
    Quit,
}

/// A key press, as far as navigation tells keys apart.
#[derive(Clone, Copy, Debug, PartialEq, Eq, Structural)]
pub enum Key {
    Left,
    Right,
    Up,
    Down,
    Char(char),
    Other,
}

/// The key bindings: arrows pan and zoom, `+`/`=` zoom in, `-`/`_` zoom
/// out, `h` switches hexadecimal labels and `q` quits.
pub open spec fn key_command(key: Key) -> Option<Command> {
    match key {
        Key::Left => Some(Command::PanLeft),
        Key::Right => Some(Command::PanRight),
        Key::Up => Some(Command::ZoomIn),
        Key::Down => Some(Command::ZoomOut),
        Key::Char(c) => if c == '+' || c == '=' {
            Some(Command::ZoomIn)
        } else if c == '-' || c == '_' {
            Some(Command::ZoomOut)
        } else if c == 'h' {
            Some(Command::ToggleHexDisplay)
        } else if c == 'q' {
            Some(Command::Quit)
        } else {
            None
        },
        Key::Other => None,
    }
}

/// The command bound to `key`, if any.
pub fn command_for_key(key: Key) -> (r: Option<Command>)
    ensures
        r == key_command(key),
{
    match key {
        Key::Left => Some(Command::PanLeft),
        Key::Right => Some(Command::PanRight),
        Key::Up => Some(Command::ZoomIn),
        Key::Down => Some(Command::ZoomOut),
        Key::Char(c) => {
            if c == '+' || c == '=' {
                Some(Command::ZoomIn)
            } else if c == '-' || c == '_' {
                Some(Command::ZoomOut)
            } else if c == 'h' {
                Some(Command::ToggleHexDisplay)
            } else if c == 'q' {
                Some(Command::Quit)
            } else {
                None
            }
        },
        Key::Other => None,
    }
}

/// Why a viewport could not be set up.
#[derive(Clone, Copy, Debug, PartialEq, Eq, Structural)]
pub enum AppError {
    /// The block size is zero.
    ZeroBlockSize,
    /// The total size or the minimum window width does not fit in a `u64`.
    SizeOverflow,
}

/// The navigable window over `[0, total_size)`.
#[derive(Clone, Copy, Debug, PartialEq, Eq, Structural)]
pub struct App {
    pub window_start: u64,
    pub window_width: u64,
    pub block_size: usize,
    pub should_quit: bool,
    pub total_size: u64,
    pub display_mode: DisplayMode,
}

/// Smallest width a zoom-in leaves: ten blocks.
pub open spec fn min_width_of(block_size: int) -> int {
    block_size * 10
}

/// The total size `last_offset + block_size` and ten blocks fit in a `u64`.
pub open spec fn sizes_fit(last_offset: Option<u64>, block_size: int) -> bool {
    &&& min_width_of(block_size) <= u64::MAX
    &&& match last_offset {
        Some(o) => o + block_size <= u64::MAX,
        None => block_size <= u64::MAX,
    }
}

/// `max(0, start - width / 10)`.
pub open spec fn pan_left_start(start: int, width: int) -> int {
    if start >= width / 10 {
        start - width / 10
    } else {
        0
    }
}

/// The largest start that keeps the window inside the data, or 0 where the
/// window is wider than the data.
pub open spec fn right_limit(width: int, total: int) -> int {
    if width <= total {
        total - width
    } else {
        0
    }
}

/// `min(start + width / 10, right_limit)`.
pub open spec fn pan_right_start(start: int, width: int, total: int) -> int {
    if start + width / 10 <= right_limit(width, total) {
        start + width / 10
    } else {
        right_limit(width, total)
    }
}

/// `max(width * 9 / 10, min_width)`.
pub open spec fn zoom_in_width(width: int, min_width: int) -> int {
    if width * 9 / 10 >= min_width {
        width * 9 / 10
    } else {
        min_width
    }
}

/// `min(width * 11 / 10, total)`.
pub open spec fn zoom_out_width(width: int, total: int) -> int {
    if width * 11 / 10 <= total {
        width * 11 / 10
    } else {
        total
    }
}

pub open spec fn center_of(start: int, width: int) -> int {
    start + width / 2
}

/// `max(0, center - new_width / 2)`.
pub open spec fn zoom_in_start(start: int, width: int, new_width: int) -> int {
    if center_of(start, width) >= new_width / 2 {
        center_of(start, width) - new_width / 2
    } else {
        0
    }
}

/// `min(max(0, center - new_width / 2), total - new_width)`.
pub open spec fn zoom_out_start(start: int, width: int, new_width: int, total: int) -> int {
    let s = if center_of(start, width) >= new_width / 2 {
        center_of(start, width) - new_width / 2
    } else {
        0
    };
    if s <= total - new_width {
        s
    } else {
        total - new_width
    }
}

impl App {
    pub open spec fn min_window_width(self) -> int {
        min_width_of(self.block_size as int)
    }

    /// The window lies inside the data and is at least the minimum width.
    pub open spec fn in_bounds(self) -> bool {
        &&& 0 <= self.window_start
        &&& self.window_start + self.window_width <= self.total_size
        &&& self.window_width >= self.min_window_width()
    }

    /// What every reachable state satisfies. Where the data is narrower
    /// than the minimum width, the window starts at 0 and is either the
    /// whole data or the minimum width.
    pub open spec fn wf(self) -> bool {
        &&& 0 < self.block_size
        &&& self.min_window_width() <= u64::MAX
        &&& if self.total_size >= self.min_window_width() {
            self.in_bounds()
        } else {
            &&& self.window_start == 0
            &&& (self.window_width == self.total_size || self.window_width
                == self.min_window_width())
        }
    }

    pub open spec fn panned_left(self) -> App {
        App { window_start: pan_left_start(self.window_start as int, self.window_width as int) as u64, ..self }
    }

    pub open spec fn panned_right(self) -> App {
        App {
            window_start: pan_right_start(
                self.window_start as int,
                self.window_width as int,
                self.total_size as int,
            ) as u64,
            ..self
        }
    }

    pub open spec fn zoomed_in(self) -> App {
        let w = zoom_in_width(self.window_width as int, self.min_window_width());
        App {
            window_start: zoom_in_start(self.window_start as int, self.window_width as int, w) as u64,
            window_width: w as u64,
            ..self
        }
    }

    pub open spec fn zoomed_out(self) -> App {
        let w = zoom_out_width(self.window_width as int, self.total_size as int);
        App {
            window_start: zoom_out_start(
                self.window_start as int,
                self.window_width as int,
                w,
                self.total_size as int,
            ) as u64,
            window_width: w as u64,
            ..self
        }
    }

    pub open spec fn toggled(self) -> App {
        App {
            display_mode: match self.display_mode {
                DisplayMode::Decimal => DisplayMode::Hexadecimal,
                DisplayMode::Hexadecimal => DisplayMode::Decimal,
            },
            ..self
        }
    }

    pub open spec fn quitted(self) -> App {
        App { should_quit: true, ..self }
    }

    /// The state after `cmd`; once quit is requested nothing changes.
    pub open spec fn after(self, cmd: Command) -> App {
        if self.should_quit {
            self
        } else {
            match cmd {
                Command::PanLeft => self.panned_left(),
                Command::PanRight => self.panned_right(),
                Command::ZoomIn => self.zoomed_in(),
                Command::ZoomOut => self.zoomed_out(),
                Command::ToggleHexDisplay => self.toggled(),
                Command::Quit => self.quitted(),
            }
        }
    }

    /// The initial state: the whole range `[0, last_offset + block_size)`
    /// is visible. Fails on a zero block size, and where the total size or
    /// ten blocks do not fit in a `u64`.
    pub fn new(last_offset: Option<u64>, block_size: usize) -> (r: Result<App, AppError>)
        ensures
            block_size == 0 ==> r == Err::<App, AppError>(AppError::ZeroBlockSize),
            block_size > 0 && !sizes_fit(last_offset, block_size as int) ==> r == Err::<App, AppError>(
                AppError::SizeOverflow,
            ),
            block_size > 0 && sizes_fit(last_offset, block_size as int) ==> r is Ok,
            r is Ok ==> ({
                let a = r->Ok_0;
                &&& a.wf()
                &&& a.window_start == 0
                &&& a.window_width == a.total_size
                &&& a.total_size == match last_offset {
                    Some(o) => o + block_size,
                    None => block_size as int,
                }
                &&& a.block_size == block_size
                &&& !a.should_quit
                &&& a.display_mode == DisplayMode::Decimal
            }),
    {
        if block_size == 0 {
            return Err(AppError::ZeroBlockSize);
        }
        let bs = block_size as u64;
        if bs > u64::MAX / 10 {
            return Err(AppError::SizeOverflow);
        }
        let base: u64 = match last_offset {
            Some(o) => o,
            None => 0,
        };
        if base > u64::MAX - bs {
            return Err(AppError::SizeOverflow);
        }
        let total = base + bs;
        Ok(App {
            window_start: 0,
            window_width: total,
            block_size,
            should_quit: false,
            total_size: total,
            display_mode: DisplayMode::Decimal,
        })
    }

    /// The smallest width that a zoom-in leaves.
    pub fn min_width(&self) -> (r: u64)
        requires
            self.wf(),
        ensures
            r == self.min_window_width(),
    {
        self.block_size as u64 * 10
    }

    /// Nothing happens on an idle tick.
    pub fn on_tick(&mut self)
        ensures
            *final(self) == *old(self),
    {
    }

    pub fn on_left(&mut self)
        requires
            old(self).wf(),
        ensures
            *final(self) == old(self).panned_left(),
            final(self).wf(),
    {
        let step = self.window_width / 10;
        self.window_start = if self.window_start >= step {
            self.window_start - step
        } else {
            0
        };
    }

    pub fn on_right(&mut self)
        requires
            old(self).wf(),
        ensures
            *final(self) == old(self).panned_right(),
            final(self).wf(),
    {
        let step = self.window_width / 10;
        let limit = if self.window_width <= self.total_size {
            self.total_size - self.window_width
        } else {
            0
        };
        self.window_start = if self.window_start <= limit && step <= limit - self.window_start {
            self.window_start + step
        } else {
            limit
        };
    }

    pub fn on_zoom_in(&mut self)
        requires
            old(self).wf(),
        ensures
            *final(self) == old(self).zoomed_in(),
            final(self).wf(),
    {
        let w = self.window_width;
        let scaled = w / 10 * 9 + w % 10 * 9 / 10;
        assert(scaled == w * 9 / 10) by (nonlinear_arith)
            requires
                scaled == w / 10 * 9 + w % 10 * 9 / 10,
        ;
        let min = self.min_width();
        let new_width = if scaled >= min {
            scaled
        } else {
            min
        };
        let center = self.window_start + w / 2;
        self.window_start = if center >= new_width / 2 {
            center - new_width / 2
        } else {
            0
        };
        self.window_width = new_width;
    }

    pub fn on_zoom_out(&mut self)
        requires
            old(self).wf(),
        ensures
            *final(self) == old(self).zoomed_out(),
            final(self).wf(),
    {
        let w = self.window_width;
        let total = self.total_size;
        let grow = w / 10;
        assert(w + grow == w * 11 / 10) by (nonlinear_arith)
            requires
                grow == w / 10,
        ;
        let new_width = if w <= total && grow <= total - w {
            w + grow
        } else {
            total
        };
        let center = self.window_start + w / 2;
        let s = if center >= new_width / 2 {
            center - new_width / 2
        } else {
            0
        };
        self.window_start = if s <= total - new_width {
            s
        } else {
            total - new_width
        };
        self.window_width = new_width;
    }

    pub fn on_toggle_hex(&mut self)
        ensures
            *final(self) == old(self).toggled(),
    {
        self.display_mode = match self.display_mode {
            DisplayMode::Decimal => DisplayMode::Hexadecimal,
            DisplayMode::Hexadecimal => DisplayMode::Decimal,
        };
    }

    pub fn on_quit(&mut self)
        ensures
            *final(self) == old(self).quitted(),
    {
        self.should_quit = true;
    }

    /// Applies one command; after a quit no command changes the state.
    pub fn apply(&mut self, cmd: Command)
        requires
            old(self).wf(),
        ensures
            *final(self) == old(self).after(cmd),
            final(self).wf(),
    {
        if self.should_quit {
            return;
        }
        match cmd {
            Command::PanLeft => self.on_left(),
            Command::PanRight => self.on_right(),
            Command::ZoomIn => self.on_zoom_in(),
            Command::ZoomOut => self.on_zoom_out(),
            Command::ToggleHexDisplay => self.on_toggle_hex(),
            Command::Quit => self.on_quit(),
        }
    }

    /// Applies the command bound to `key`; an unbound key changes nothing.
    pub fn handle_key(&mut self, key: Key)
        requires
            old(self).wf(),
        ensures
            *final(self) == match key_command(key) {
                Some(cmd) => old(self).after(cmd),
                None => *old(self),
            },
            final(self).wf(),
    {
        match command_for_key(key) {
            Some(cmd) => self.apply(cmd),
            None => {},
        }
    }
}

/// A window that lies inside the data and is at least the minimum width
/// still does after any transition.
pub proof fn lemma_transition_keeps_bounds(a: App, cmd: Command)
    requires
        a.wf(),
        a.in_bounds(),
    ensures
        a.after(cmd).in_bounds(),
        a.after(cmd).wf(),
{
}

/// A pan that ended at an edge does nothing when repeated: twice is once.
pub proof fn lemma_pan_at_edge_idempotent(a: App)
    requires
        a.wf(),
    ensures
        a.panned_left().window_start == 0 ==> a.panned_left().panned_left() == a.panned_left(),
        a.panned_right().window_start == right_limit(a.window_width as int, a.total_size as int)
            ==> a.panned_right().panned_right() == a.panned_right(),
{
}

/// Zooming in and then out, from a window inside the data whose zoom-in is
/// not held up by the minimum width, keeps the center exactly and gives
/// back the width scaled by 99/100, rounded down by less than two bytes.
pub proof fn lemma_zoom_round_trip(a: App)
    requires
        a.wf(),
        a.in_bounds(),
        a.window_width * 9 / 10 >= a.min_window_width(),
    ensures
        ({
            let b = a.zoomed_in().zoomed_out();
            &&& b.window_width <= a.window_width
            &&& 100 * b.window_width <= 99 * a.window_width
            &&& 100 * b.window_width + 190 >= 99 * a.window_width
            &&& center_of(b.window_start as int, b.window_width as int) == center_of(
                a.window_start as int,
                a.window_width as int,
            )
            &&& b.total_size == a.total_size
            &&& b.display_mode == a.display_mode
        }),
{
    let w = a.window_width as int;
    let n1 = w * 9 / 10;
    let n2 = n1 * 11 / 10;
    assert(0 <= n1 <= w && 10 * n1 <= 9 * w && 10 * n1 + 9 >= 9 * w) by (nonlinear_arith)
        requires
            n1 == w * 9 / 10,
            w >= 0,
    ;
    assert(10 * n2 <= 11 * n1 && 10 * n2 + 9 >= 11 * n1 && n2 >= 0) by (nonlinear_arith)
        requires
            n2 == n1 * 11 / 10,
            n1 >= 0,
    ;
    assert(n2 <= w);
    assert(n2 <= a.total_size);
    assert(zoom_out_width(n1, a.total_size as int) == n2);
}

/// Once quit is requested no command changes the state, and a quit
/// command always requests it.
pub proof fn lemma_quit_is_terminal(a: App, cmd: Command)
    ensures
        a.after(Command::Quit).should_quit,
        a.should_quit ==> a.after(cmd) == a,
{
}

} // verus!
