//! What a caller asks of a session: the parameters of a run, the messages sent
//! to it while it runs, and the result it ends with.

use vstd::prelude::*;

verus! {

pub const MIN_COLS: u16 = 20;

pub const MAX_COLS: u16 = 400;

pub const MIN_ROWS: u16 = 5;

pub const MAX_ROWS: u16 = 200;

pub const DEFAULT_COLS: u16 = 120;

pub const DEFAULT_ROWS: u16 = 40;

/// `v` brought into `[lo, hi]`: the nearest bound where it lies outside.
pub open spec fn clamp(v: int, lo: int, hi: int) -> int {
    if v < lo {
        lo
    } else if v > hi {
        hi
    } else {
        v
    }
}

/// A column count brought into `[MIN_COLS, MAX_COLS]`.
pub fn clamp_cols(cols: u16) -> (r: u16)
    ensures
        r == clamp(cols as int, MIN_COLS as int, MAX_COLS as int),
{
    if cols < MIN_COLS {
        MIN_COLS
    } else if cols > MAX_COLS {
        MAX_COLS
    } else {
        cols
    }
}

/// A row count brought into `[MIN_ROWS, MAX_ROWS]`.
pub fn clamp_rows(rows: u16) -> (r: u16)
    ensures
        r == clamp(rows as int, MIN_ROWS as int, MAX_ROWS as int),
{
    if rows < MIN_ROWS {
        MIN_ROWS
    } else if rows > MAX_ROWS {
        MAX_ROWS
    } else {
        rows
    }
}

/// The size of a terminal, in character cells.
#[derive(Clone, Copy, Debug, PartialEq, Eq, Structural)]
pub struct TerminalSize {
    pub cols: u16,
    pub rows: u16,
}

impl TerminalSize {
    pub open spec fn in_bounds(&self) -> bool {
        MIN_COLS <= self.cols <= MAX_COLS && MIN_ROWS <= self.rows <= MAX_ROWS
    }

    /// The requested size, each dimension clamped to its bounds.
    pub fn clamped(cols: u16, rows: u16) -> (r: Self)
        ensures
            r.cols == clamp(cols as int, MIN_COLS as int, MAX_COLS as int),
            r.rows == clamp(rows as int, MIN_ROWS as int, MAX_ROWS as int),
            r.in_bounds(),
    {
        TerminalSize { cols: clamp_cols(cols), rows: clamp_rows(rows) }
    }

    /// The size a run starts with: the requested dimensions, or the defaults
    /// where none is given, clamped.
    pub fn requested(cols: Option<u16>, rows: Option<u16>) -> (r: Self)
        ensures
            r == Self::requested_spec(cols, rows),
            r.in_bounds(),
    {
        let c = match cols {
            Some(c) => c,
            None => DEFAULT_COLS,
        };
        let w = match rows {
            Some(w) => w,
            None => DEFAULT_ROWS,
        };
        Self::clamped(c, w)
    }
}

/// A directive from the caller to a running session.
#[derive(Debug)]
pub enum ControlMessage {
    /// Text to write to the terminal's input.
    Input(String),
    /// A new terminal size, already clamped.
    Resize { cols: u16, rows: u16 },
    /// A request to terminate the command.
    Kill,
}

impl ControlMessage {
    /// The message that carries `data` to the terminal's input.
    pub fn input(data: String) -> (r: Self)
        ensures
            r == ControlMessage::Input(data),
    {
        ControlMessage::Input(data)
    }

    /// The message that resizes the terminal. A size out of bounds is clamped
    /// to the nearest bound, never refused.
    pub fn resize(cols: u16, rows: u16) -> (r: Self)
        ensures
            r == (ControlMessage::Resize {
                cols: clamp(cols as int, MIN_COLS as int, MAX_COLS as int) as u16,
                rows: clamp(rows as int, MIN_ROWS as int, MAX_ROWS as int) as u16,
            }),
    {
        ControlMessage::Resize { cols: clamp_cols(cols), rows: clamp_rows(rows) }
    }

    /// The message that asks for the command to be terminated.
    pub fn kill() -> (r: Self)
        ensures
            r == ControlMessage::Kill,
    {
        ControlMessage::Kill
    }
}

/// What a caller gives to start a run. The cancellation signal the caller may
/// also hold is not part of it: it reaches a run as heartbeats.
pub struct PtyStartOptions {
    /// The command, handed verbatim to a shell.
    pub command: String,
    /// The working directory, if not the current one.
    pub cwd: Option<String>,
    /// Variables set over the inherited environment.
    pub env: Option<Vec<(String, String)>>,
    /// Milliseconds after which the run times out.
    pub timeout_ms: Option<u32>,
    pub cols: Option<u16>,
    pub rows: Option<u16>,
}

/// The fixed parameters of one run.
pub struct PtyRunConfig {
    pub command: String,
    pub cwd: Option<String>,
    pub env: Option<Vec<(String, String)>>,
    pub size: TerminalSize,
}

impl PtyRunConfig {
    /// The parameters of a run started with `options`: the size defaulted and
    /// clamped, the rest taken as given.
    pub fn from_options(options: PtyStartOptions) -> (r: Self)
        ensures
            r.command == options.command,
            r.cwd == options.cwd,
            r.env == options.env,
            r.size == TerminalSize::requested_spec(options.cols, options.rows),
            r.size.in_bounds(),
    {
        PtyRunConfig {
            command: options.command,
            cwd: options.cwd,
            env: options.env,
            size: TerminalSize::requested(options.cols, options.rows),
        }
    }
}

impl TerminalSize {
    pub open spec fn requested_spec(cols: Option<u16>, rows: Option<u16>) -> TerminalSize {
        TerminalSize {
            cols: clamp(
                (match cols {
                    Some(c) => c,
                    None => DEFAULT_COLS,
                }) as int,
                MIN_COLS as int,
                MAX_COLS as int,
            ) as u16,
            rows: clamp(
                (match rows {
                    Some(c) => c,
                    None => DEFAULT_ROWS,
                }) as int,
                MIN_ROWS as int,
                MAX_ROWS as int,
            ) as u16,
        }
    }
}

/// How a run ended.
#[derive(Clone, Copy, Debug, PartialEq, Eq, Structural)]
pub struct PtyRunResult {
    /// The command's exit code, when it could be waited on.
    pub exit_code: Option<i32>,
    /// Whether the run was ended by a kill or by the caller's cancellation.
    pub cancelled: bool,
    /// Whether the run was ended by its timeout.
    pub timed_out: bool,
}

} // verus!
