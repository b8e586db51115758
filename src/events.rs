use crate::ratio::{divides_common_multiples, Rational};
use crate::scheduler::{due_widgets, interval_ok, lemma_divisor_le, Clock, MAX_TERM, WRAP_SECONDS};
use vstd::prelude::*;

verus! {

/// A key of the keyboard, as far as the dashboard tells keys apart.
#[derive(Clone, Copy, Debug, PartialEq, Eq, Structural)]
pub enum KeyCode {
    Char(char),
    Up,
    Down,
    Home,
    End,
    Esc,
    Tab,
    Other,
}

/// The modifier keys held with a key: none, Control alone, or any other combination.
#[derive(Clone, Copy, Debug, PartialEq, Eq, Structural)]
pub enum Modifiers {
    Plain,
    Control,
    Other,
}

/// A key press.
#[derive(Clone, Copy, Debug, PartialEq, Eq, Structural)]
pub struct Key {
    pub code: KeyCode,
    pub modifiers: Modifiers,
}

/// An input to the main loop.
#[derive(Clone, Copy, Debug, PartialEq, Eq, Structural)]
pub enum Event {
    /// The periodic tick.
    Tick,
    /// A termination signal.
    Terminate,
    Key(Key),
    MouseScrollUp,
    MouseScrollDown,
    /// Any other mouse event.
    Mouse,
    Resize,
}

/// What an input asks of the process table, the graphs or the loop itself.
#[derive(Clone, Copy, Debug, PartialEq, Eq, Structural)]
pub enum Command {
    Nothing,
    Quit,
    ToggleHelp,
    TogglePause,
    DismissHelp,
    ScrollUp,
    ScrollDown,
    ScrollTop,
    ScrollBottom,
    HalfPageDown,
    HalfPageUp,
    FullPageDown,
    FullPageUp,
    KillProcess,
    ScaleIn,
    ScaleOut,
    ToggleGrouping,
    SortByNum,
    SortByCommand,
    SortByCpu,
    SortByMem,
}

/// What has to be drawn again.
#[derive(Clone, Copy, Debug, PartialEq, Eq, Structural)]
pub enum Redraw {
    Nothing,
    All,
    HelpMenu,
    Proc,
    Graphs,
}

/// The outcome of one event: the command to carry out, which widgets are due for a
/// refresh (on a tick), and what to draw afterwards.
pub struct Step {
    pub command: Command,
    pub due: Option<Vec<bool>>,
    pub redraw: Redraw,
}

/// The plain key `c`.
pub open spec fn plain(c: char) -> Key {
    Key { code: KeyCode::Char(c), modifiers: Modifiers::Plain }
}

/// What `key` asks for, given the key pressed just before it. A doubled `g` jumps to the
/// top and a doubled `d` kills the selection; a single one does nothing.
pub open spec fn key_command(previous: Option<Key>, key: Key) -> Command {
    match key.modifiers {
        Modifiers::Plain => match key.code {
            KeyCode::Char(c) => if c == 'q' {
                Command::Quit
            } else if c == '?' {
                Command::ToggleHelp
            } else if c == ' ' {
                Command::TogglePause
            } else if c == 'j' {
                Command::ScrollDown
            } else if c == 'k' {
                Command::ScrollUp
            } else if c == 'g' {
                if previous == Some(plain('g')) {
                    Command::ScrollTop
                } else {
                    Command::Nothing
                }
            } else if c == 'G' {
                Command::ScrollBottom
            } else if c == 'd' {
                if previous == Some(plain('d')) {
                    Command::KillProcess
                } else {
                    Command::Nothing
                }
            } else if c == 'h' {
                Command::ScaleIn
            } else if c == 'l' {
                Command::ScaleOut
            } else if c == 'p' {
                Command::SortByNum
            } else if c == 'n' {
                Command::SortByCommand
            } else if c == 'c' {
                Command::SortByCpu
            } else if c == 'm' {
                Command::SortByMem
            } else {
                Command::Nothing
            },
            KeyCode::Down => Command::ScrollDown,
            KeyCode::Up => Command::ScrollUp,
            KeyCode::Home => Command::ScrollTop,
            KeyCode::End => Command::ScrollBottom,
            KeyCode::Esc => Command::DismissHelp,
            KeyCode::Tab => Command::ToggleGrouping,
            KeyCode::Other => Command::Nothing,
        },
        Modifiers::Control => match key.code {
            KeyCode::Char(c) => if c == 'c' {
                Command::Quit
            } else if c == 'd' {
                Command::HalfPageDown
            } else if c == 'u' {
                Command::HalfPageUp
            } else if c == 'f' {
                Command::FullPageDown
            } else if c == 'b' {
                Command::FullPageUp
            } else {
                Command::Nothing
            },
            _ => Command::Nothing,
        },
        Modifiers::Other => Command::Nothing,
    }
}

/// The command completes a two-key sequence.
pub open spec fn is_sequence(previous: Option<Key>, key: Key) -> bool {
    key.modifiers == Modifiers::Plain && previous == Some(key) && (key.code == KeyCode::Char('g')
        || key.code == KeyCode::Char('d'))
}

/// The command changes only the process table.
pub open spec fn touches_proc(c: Command) -> bool {
    match c {
        Command::ScrollUp | Command::ScrollDown | Command::ScrollTop | Command::ScrollBottom
        | Command::HalfPageDown | Command::HalfPageUp | Command::FullPageDown
        | Command::FullPageUp | Command::ToggleGrouping | Command::SortByNum
        | Command::SortByCommand | Command::SortByCpu | Command::SortByMem => true,
        _ => false,
    }
}

/// The command changes only the graphs' scale.
pub open spec fn touches_graphs(c: Command) -> bool {
    c == Command::ScaleIn || c == Command::ScaleOut
}

/// The main loop's own state: pause, help menu, the previous key, and the clock that
/// decides which widgets are due.
pub struct EventLoop {
    pub paused: bool,
    pub show_help_menu: bool,
    pub previous_key: Option<Key>,
    pub clock: Clock,
    pub tick: Rational,
    pub intervals: Vec<Rational>,
}

impl EventLoop {
    /// The tick and the intervals are in range, and the clock stays a multiple of
    /// `1 / tick.denom` below 60 seconds.
    pub open spec fn wf(&self) -> bool {
        &&& interval_ok(self.tick)
        &&& forall|i: int| 0 <= i < self.intervals@.len() ==> interval_ok(#[trigger] self.intervals@[i])
        &&& self.clock.seconds.wf()
        &&& self.clock.seconds.below(WRAP_SECONDS as int)
        &&& (self.tick.denom as int) % (self.clock.seconds.denom as int) == 0
    }

    /// A loop at zero seconds that advances by `tick` on every tick and refreshes widgets
    /// with the given intervals.
    pub fn new(tick: Rational, intervals: Vec<Rational>) -> (r: EventLoop)
        requires
            interval_ok(tick),
            forall|i: int| 0 <= i < intervals@.len() ==> interval_ok(#[trigger] intervals@[i]),
        ensures
            r.wf(),
            !r.paused,
            !r.show_help_menu,
            r.previous_key is None,
            r.clock.seconds.numer == 0,
            r.tick == tick,
            r.intervals@ == intervals@,
    {
        EventLoop {
            paused: false,
            show_help_menu: false,
            previous_key: None,
            clock: Clock::new(),
            tick,
            intervals,
        }
    }

    /// Which widgets are due at the current clock.
    pub fn due_now(&self) -> (r: Vec<bool>)
        requires
            self.wf(),
        ensures
            r@.len() == self.intervals@.len(),
            forall|i: int|
                0 <= i < r@.len() ==> #[trigger] r@[i] == self.clock.seconds.is_multiple_of(
                    self.intervals@[i],
                ),
    {
        proof {
            lemma_divisor_le(self.clock.seconds.denom as int, self.tick.denom as int);
        }
        due_widgets(self.clock.seconds, &self.intervals)
    }

    /// Handles one event. A tick, unless paused, advances the clock by `tick` and reports
    /// the widgets due; a key is turned into a command, remembering it for two-key
    /// sequences; mouse wheel events scroll the process table.
    pub fn handle(&mut self, event: Event) -> (r: Step)
        requires
            old(self).wf(),
        ensures
            final(self).wf(),
            final(self).tick == old(self).tick,
            final(self).intervals@ == old(self).intervals@,
            match event {
                Event::Tick => {
                    &&& r.command == Command::Nothing
                    &&& final(self).paused == old(self).paused
                    &&& final(self).show_help_menu == old(self).show_help_menu
                    &&& final(self).previous_key == old(self).previous_key
                    &&& if old(self).paused {
                        &&& r.due is None
                        &&& r.redraw == Redraw::Nothing
                        &&& final(self).clock == old(self).clock
                    } else {
                        &&& crate::scheduler::advanced(old(self).clock.seconds, old(self).tick, final(self).clock.seconds)
                        &&& r.due is Some
                        &&& r.due->0@.len() == old(self).intervals@.len()
                        &&& forall|i: int| 0 <= i < old(self).intervals@.len() ==> #[trigger] r.due->0@[i]
                            == final(self).clock.seconds.is_multiple_of(old(self).intervals@[i])
                        &&& r.redraw == if old(self).show_help_menu { Redraw::Nothing } else { Redraw::All }
                    }
                },
                Event::Terminate => {
                    &&& r.command == Command::Quit
                    &&& r.due is None
                    &&& final(self).paused == old(self).paused
                    &&& final(self).show_help_menu == old(self).show_help_menu
                    &&& final(self).previous_key == old(self).previous_key
                    &&& final(self).clock == old(self).clock
                },
                Event::Key(key) => {
                    let c = key_command(old(self).previous_key, key);
                    let help = if c == Command::ToggleHelp {
                        !old(self).show_help_menu
                    } else if c == Command::DismissHelp {
                        false
                    } else {
                        old(self).show_help_menu
                    };
                    &&& r.command == c
                    &&& r.due is None
                    &&& final(self).clock == old(self).clock
                    &&& final(self).paused == (old(self).paused != (c == Command::TogglePause))
                    &&& final(self).show_help_menu == help
                    &&& final(self).previous_key == if is_sequence(old(self).previous_key, key) {
                        None
                    } else {
                        Some(key)
                    }
                    &&& r.redraw == if c == Command::ToggleHelp {
                        if help { Redraw::HelpMenu } else { Redraw::All }
                    } else if c == Command::DismissHelp && old(self).show_help_menu {
                        Redraw::All
                    } else if help {
                        Redraw::Nothing
                    } else if touches_proc(c) {
                        Redraw::Proc
                    } else if touches_graphs(c) {
                        Redraw::Graphs
                    } else {
                        Redraw::Nothing
                    }
                },
                _ => {
                    &&& r.command == match event {
                        Event::MouseScrollUp => Command::ScrollUp,
                        Event::MouseScrollDown => Command::ScrollDown,
                        _ => Command::Nothing,
                    }
                    &&& r.due is None
                    &&& final(self).clock == old(self).clock
                    &&& final(self).paused == old(self).paused
                    &&& final(self).show_help_menu == old(self).show_help_menu
                    &&& final(self).previous_key == old(self).previous_key
                    &&& r.redraw == if event == Event::Resize {
                        if old(self).show_help_menu { Redraw::HelpMenu } else { Redraw::All }
                    } else if old(self).show_help_menu || event == Event::Mouse {
                        Redraw::Nothing
                    } else {
                        Redraw::Proc
                    }
                },
            },
    {
        match event {
            Event::Tick => {
                if self.paused {
                    Step { command: Command::Nothing, due: None, redraw: Redraw::Nothing }
                } else {
                    self.advance_clock();
                    let due = self.due_now();
                    let redraw = if self.show_help_menu {
                        Redraw::Nothing
                    } else {
                        Redraw::All
                    };
                    Step { command: Command::Nothing, due: Some(due), redraw }
                }
            },
            Event::Terminate => Step { command: Command::Quit, due: None, redraw: Redraw::Nothing },
            Event::Key(key) => self.handle_key(key),
            Event::MouseScrollUp => Step {
                command: Command::ScrollUp,
                due: None,
                redraw: if self.show_help_menu { Redraw::Nothing } else { Redraw::Proc },
            },
            Event::MouseScrollDown => Step {
                command: Command::ScrollDown,
                due: None,
                redraw: if self.show_help_menu { Redraw::Nothing } else { Redraw::Proc },
            },
            Event::Mouse => Step { command: Command::Nothing, due: None, redraw: Redraw::Nothing },
            Event::Resize => Step {
                command: Command::Nothing,
                due: None,
                redraw: if self.show_help_menu { Redraw::HelpMenu } else { Redraw::All },
            },
        }
    }

    fn advance_clock(&mut self)
        requires
            old(self).wf(),
        ensures
            final(self).wf(),
            final(self).tick == old(self).tick,
            final(self).intervals@ == old(self).intervals@,
            final(self).paused == old(self).paused,
            final(self).show_help_menu == old(self).show_help_menu,
            final(self).previous_key == old(self).previous_key,
            crate::scheduler::advanced(old(self).clock.seconds, old(self).tick, final(self).clock.seconds),
    {
        let ghost s = self.clock.seconds;
        let ghost b = self.tick;
        proof {
            let sn = s.numer as int;
            let sd = s.denom as int;
            let bn = b.numer as int;
            let bd = b.denom as int;
            lemma_divisor_le(sd, bd);
            assert(sn * bd + bn * sd <= u64::MAX) by (nonlinear_arith)
                requires
                    sn < 60 * sd,
                    0 < sd <= bd,
                    bd <= MAX_TERM,
                    0 < bn <= MAX_TERM,
            ;
            assert(WRAP_SECONDS as int * (sd * bd) <= u64::MAX) by (nonlinear_arith)
                requires
                    0 < sd <= bd,
                    bd <= MAX_TERM,
            ;
        }
        self.clock.advance(self.tick);
        proof {
            let bd = b.denom as int;
            assert(bd % bd == 0);
            assert(divides_common_multiples(s.denom as int, bd, self.clock.seconds.denom as int));
            assert(bd % (self.clock.seconds.denom as int) == 0);
        }
    }

    fn handle_key(&mut self, key: Key) -> (r: Step)
        requires
            old(self).wf(),
        ensures
            final(self).wf(),
            final(self).tick == old(self).tick,
            final(self).intervals@ == old(self).intervals@,
            final(self).clock == old(self).clock,
            ({
                let c = key_command(old(self).previous_key, key);
                let help = if c == Command::ToggleHelp {
                    !old(self).show_help_menu
                } else if c == Command::DismissHelp {
                    false
                } else {
                    old(self).show_help_menu
                };
                &&& r.command == c
                &&& r.due is None
                &&& final(self).paused == (old(self).paused != (c == Command::TogglePause))
                &&& final(self).show_help_menu == help
                &&& final(self).previous_key == if is_sequence(old(self).previous_key, key) {
                    None
                } else {
                    Some(key)
                }
                &&& r.redraw == if c == Command::ToggleHelp {
                    if help { Redraw::HelpMenu } else { Redraw::All }
                } else if c == Command::DismissHelp && old(self).show_help_menu {
                    Redraw::All
                } else if help {
                    Redraw::Nothing
                } else if touches_proc(c) {
                    Redraw::Proc
                } else if touches_graphs(c) {
                    Redraw::Graphs
                } else {
                    Redraw::Nothing
                }
            }),
    {
        let repeated = match self.previous_key {
            Some(p) => p == key,
            None => false,
        };
        let command = match key.modifiers {
            Modifiers::Plain => match key.code {
                KeyCode::Char(c) => if c == 'q' {
                    Command::Quit
                } else if c == '?' {
                    Command::ToggleHelp
                } else if c == ' ' {
                    Command::TogglePause
                } else if c == 'j' {
                    Command::ScrollDown
                } else if c == 'k' {
                    Command::ScrollUp
                } else if c == 'g' {
                    if repeated {
                        Command::ScrollTop
                    } else {
                        Command::Nothing
                    }
                } else if c == 'G' {
                    Command::ScrollBottom
                } else if c == 'd' {
                    if repeated {
                        Command::KillProcess
                    } else {
                        Command::Nothing
                    }
                } else if c == 'h' {
                    Command::ScaleIn
                } else if c == 'l' {
                    Command::ScaleOut
                } else if c == 'p' {
                    Command::SortByNum
                } else if c == 'n' {
                    Command::SortByCommand
                } else if c == 'c' {
                    Command::SortByCpu
                } else if c == 'm' {
                    Command::SortByMem
                } else {
                    Command::Nothing
                },
                KeyCode::Down => Command::ScrollDown,
                KeyCode::Up => Command::ScrollUp,
                KeyCode::Home => Command::ScrollTop,
                KeyCode::End => Command::ScrollBottom,
                KeyCode::Esc => Command::DismissHelp,
                KeyCode::Tab => Command::ToggleGrouping,
                KeyCode::Other => Command::Nothing,
            },
            Modifiers::Control => match key.code {
                KeyCode::Char(c) => if c == 'c' {
                    Command::Quit
                } else if c == 'd' {
                    Command::HalfPageDown
                } else if c == 'u' {
                    Command::HalfPageUp
                } else if c == 'f' {
                    Command::FullPageDown
                } else if c == 'b' {
                    Command::FullPageUp
                } else {
                    Command::Nothing
                },
                _ => Command::Nothing,
            },
            Modifiers::Other => Command::Nothing,
        };
        let was_help = self.show_help_menu;
        let mut redraw = Redraw::Nothing;
        match command {
            Command::ToggleHelp => {
                self.show_help_menu = !self.show_help_menu;
                redraw = if self.show_help_menu {
                    Redraw::HelpMenu
                } else {
                    Redraw::All
                };
            },
            Command::DismissHelp => {
                if was_help {
                    self.show_help_menu = false;
                    redraw = Redraw::All;
                }
            },
            Command::TogglePause => {
                self.paused = !self.paused;
            },
            _ => {
                if !self.show_help_menu {
                    redraw = match command {
                        Command::ScrollUp | Command::ScrollDown | Command::ScrollTop
                        | Command::ScrollBottom | Command::HalfPageDown | Command::HalfPageUp
                        | Command::FullPageDown | Command::FullPageUp | Command::ToggleGrouping
                        | Command::SortByNum | Command::SortByCommand | Command::SortByCpu
                        | Command::SortByMem => Redraw::Proc,
                        Command::ScaleIn | Command::ScaleOut => Redraw::Graphs,
                        _ => Redraw::Nothing,
                    };
                }
            },
        }
        let sequence = repeated && key.modifiers == Modifiers::Plain && (key.code == KeyCode::Char(
            'g',
        ) || key.code == KeyCode::Char('d'));
        self.previous_key = if sequence {
            None
        } else {
            Some(key)
        };
        Step { command, due: None, redraw }
    }
}

/// `g` pressed twice in a row jumps to the top, and the sequence is then used up.
pub proof fn lemma_double_g_jumps_to_top()
    ensures
        key_command(Some(plain('g')), plain('g')) == Command::ScrollTop,
        is_sequence(Some(plain('g')), plain('g')),
{
}

/// A key other than `g` after a `g` cancels the sequence: it does what it does alone, and a
/// `g` after it does nothing.
pub proof fn lemma_other_key_cancels_g(other: Key)
    requires
        other != plain('g'),
    ensures
        key_command(Some(plain('g')), other) == key_command(None, other),
        !is_sequence(Some(plain('g')), other),
        key_command(Some(other), plain('g')) == Command::Nothing,
{
}

} // verus!
