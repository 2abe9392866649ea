//! The state of the main window between frames: the connection status, the
//! log it shows, and what a report from the worker or a click changes.
//! The window carries out the side effects each change asks for.

use vstd::prelude::*;
use crate::events::{ConnectionStatus, LogEvent};
use crate::text::string_views;

verus! {

/// What the window knows about the connection attempt.
pub struct Session {
    /// The status shown on the connect button and in the header.
    pub status: ConnectionStatus,
    /// The log shown in the window, oldest first.
    pub log_lines: Vec<String>,
    /// The process that runs the tunnel, once it is up.
    pub connected_pid: Option<u32>,
    /// A worker is connecting or disconnecting.
    pub worker_running: bool,
    /// The "connected for" clock is running.
    pub timer_running: bool,
    /// A throughput monitor is running.
    pub monitor_running: bool,
    /// A worker channel exists, so the tunnel can be taken down.
    pub has_channel: bool,
    /// The window has shut the session down.
    pub shutdown_done: bool,
}

/// The session as values: the same fields, the log as character sequences.
pub struct SessionView {
    pub status: ConnectionStatus,
    pub lines: Seq<Seq<char>>,
    pub pid: Option<u32>,
    pub worker: bool,
    pub timer: bool,
    pub monitor: bool,
    pub channel: bool,
    pub shut_down: bool,
}

impl View for Session {
    type V = SessionView;

    open spec fn view(&self) -> SessionView {
        SessionView {
            status: self.status,
            lines: string_views(self.log_lines@),
            pid: self.connected_pid,
            worker: self.worker_running,
            timer: self.timer_running,
            monitor: self.monitor_running,
            channel: self.has_channel,
            shut_down: self.shutdown_done,
        }
    }
}

pub const ERROR_PREFIX: &'static str = "ERROR: ";

/// `ERROR: {message}`
pub open spec fn error_line(message: Seq<char>) -> Seq<char> {
    ERROR_PREFIX@ + message
}

/// The session after a report from the worker.
pub open spec fn event_step(s: SessionView, e: LogEvent) -> SessionView {
    match e {
        LogEvent::Status(st) => SessionView { status: st, ..s },
        LogEvent::Log(line) => SessionView { lines: s.lines.push(line@), ..s },
        LogEvent::Error(m) => SessionView {
            lines: s.lines.push(error_line(m@)),
            status: ConnectionStatus::Failed,
            worker: false,
            timer: false,
            monitor: false,
            ..s
        },
        LogEvent::Connected(pid) => SessionView {
            pid: Some(pid),
            status: ConnectionStatus::Connected,
            timer: true,
            monitor: s.monitor || s.channel,
            ..s
        },
        LogEvent::Disconnected => SessionView {
            pid: None,
            status: ConnectionStatus::Idle,
            worker: false,
            timer: false,
            monitor: false,
            ..s
        },
    }
}

/// The side effects a change asks the window to carry out.
pub struct Effects {
    /// A line to append to the log file.
    pub write_line: Option<String>,
    /// Tell the running throughput monitor, if any, to stop, and show zero
    /// throughput.
    pub stop_monitor: bool,
    /// Start a throughput monitor.
    pub start_monitor: bool,
    /// Start the "connected for" clock now.
    pub start_timer: bool,
}

/// Whether a report asks for the monitor to stop, to start, or the clock to
/// start; the line to write is stated beside it.
pub open spec fn event_effects(s: SessionView, e: LogEvent) -> (bool, bool, bool) {
    match e {
        LogEvent::Error(_) => (true, false, false),
        LogEvent::Disconnected => (true, false, false),
        LogEvent::Connected(_) => (false, s.channel, true),
        _ => (false, false, false),
    }
}

/// The line a report adds to the log, if any.
pub open spec fn event_line(e: LogEvent) -> Option<Seq<char>> {
    match e {
        LogEvent::Log(line) => Some(line@),
        LogEvent::Error(m) => Some(error_line(m@)),
        _ => None,
    }
}

/// `ERROR: {message}` as a string.
pub fn error_text(message: &str) -> (s: String)
    ensures
        s@ == error_line(message@),
{
    let mut s = String::from_str(ERROR_PREFIX);
    s.append(message);
    s
}

/// How a click on "Connect" went.
#[derive(Debug)]
pub enum ConnectStart {
    /// Nothing was started; this line was added to the log.
    Refused(String),
    /// The log was cleared and a worker is to be started.
    Started,
}

pub const NO_PROFILE_MESSAGE: &'static str = "No profile selected";
pub const NO_SESSION_MESSAGE: &'static str = "No active session to disconnect";
pub const QUIT_CONNECTED_LINE: &'static str = "Quitting: stopping the VPN tunnel";
pub const QUIT_LINE: &'static str = "Quitting";
pub const LOG_PATH_PREFIX: &'static str = "Logging to ";
pub const NO_LOG_PATH_LINE: &'static str = "Failed to resolve the log file path";

/// The first line of the log: where it is written to.
pub open spec fn startup_line(path: Option<Seq<char>>) -> Seq<char> {
    match path {
        Some(p) => LOG_PATH_PREFIX@ + p,
        None => NO_LOG_PATH_LINE@,
    }
}

/// The farewell line: the tunnel is named when it is up or was connected.
pub open spec fn shutdown_line(s: SessionView) -> Seq<char> {
    if s.status == ConnectionStatus::Connected || s.pid is Some {
        QUIT_CONNECTED_LINE@
    } else {
        QUIT_LINE@
    }
}

impl Session {
    /// A fresh session: idle, nothing running, with the given first log line.
    pub fn new(first_line: String) -> (s: Self)
        ensures
            s@ == (SessionView {
                status: ConnectionStatus::Idle,
                lines: seq![first_line@],
                pid: None,
                worker: false,
                timer: false,
                monitor: false,
                channel: false,
                shut_down: false,
            }),
    {
        let mut log_lines: Vec<String> = Vec::new();
        log_lines.push(first_line);
        let s = Session {
            status: ConnectionStatus::Idle,
            log_lines,
            connected_pid: None,
            worker_running: false,
            timer_running: false,
            monitor_running: false,
            has_channel: false,
            shutdown_done: false,
        };
        assert(s@.lines =~= seq![first_line@]);
        s
    }

    /// The first log line, naming the log file where it could be resolved.
    pub fn startup_line(path: Option<&str>) -> (s: String)
        ensures
            s@ == startup_line(
                match path {
                    Some(p) => Some(p@),
                    None => None,
                },
            ),
    {
        match path {
            Some(p) => {
                let mut s = String::from_str(LOG_PATH_PREFIX);
                s.append(p);
                s
            },
            None => String::from_str(NO_LOG_PATH_LINE),
        }
    }

    /// Adds a line to the log shown in the window.
    pub fn push_log(&mut self, line: String)
        ensures
            final(self)@ == (SessionView { lines: old(self)@.lines.push(line@), ..old(self)@ }),
    {
        let ghost before = self@.lines;
        self.log_lines.push(line);
        assert(self@.lines =~= before.push(line@));
    }

    /// Takes in one report from the worker.
    pub fn apply_event(&mut self, event: LogEvent) -> (fx: Effects)
        ensures
            final(self)@ == event_step(old(self)@, event),
            event matches LogEvent::Log(l) ==> final(self)@ == (SessionView {
                lines: old(self)@.lines.push(l@),
                ..old(self)@
            }),
            (fx.stop_monitor, fx.start_monitor, fx.start_timer) == event_effects(old(self)@, event),
            match (fx.write_line, event_line(event)) {
                (Some(l), Some(m)) => l@ == m,
                (None, None) => true,
                _ => false,
            },
    {
        let ghost old_view = self@;
        let ghost ev = event;
        let fx = match event {
            LogEvent::Status(st) => {
                self.status = st;
                Effects { write_line: None, stop_monitor: false, start_monitor: false, start_timer: false }
            },
            LogEvent::Log(line) => {
                let copy = line.clone();
                self.push_log(line);
                Effects { write_line: Some(copy), stop_monitor: false, start_monitor: false, start_timer: false }
            },
            LogEvent::Error(message) => {
                let line = error_text(message.as_str());
                let copy = line.clone();
                self.push_log(line);
                self.status = ConnectionStatus::Failed;
                self.worker_running = false;
                self.timer_running = false;
                self.monitor_running = false;
                Effects { write_line: Some(copy), stop_monitor: true, start_monitor: false, start_timer: false }
            },
            LogEvent::Connected(pid) => {
                self.connected_pid = Some(pid);
                self.status = ConnectionStatus::Connected;
                self.timer_running = true;
                let start = self.has_channel;
                if start {
                    self.monitor_running = true;
                }
                Effects { write_line: None, stop_monitor: false, start_monitor: start, start_timer: true }
            },
            LogEvent::Disconnected => {
                self.connected_pid = None;
                self.status = ConnectionStatus::Idle;
                self.worker_running = false;
                self.timer_running = false;
                self.monitor_running = false;
                Effects { write_line: None, stop_monitor: true, start_monitor: false, start_timer: false }
            },
        };
        assert(self@ == event_step(old_view, ev));
        fx
    }

    /// A click on "Connect". `credentials` is `None` when no profile is
    /// selected, else whether its stored secrets could be loaded (and why
    /// not). A refusal adds an error line; a start clears the log, stops
    /// the clock and the monitor, and opens a new worker channel.
    pub fn start_connect(&mut self, credentials: Option<Result<(), String>>) -> (r: ConnectStart)
        ensures
            match credentials {
                None => {
                    &&& r matches ConnectStart::Refused(l) && l@ == error_line(NO_PROFILE_MESSAGE@)
                    &&& final(self)@ == (SessionView {
                        lines: old(self)@.lines.push(error_line(NO_PROFILE_MESSAGE@)),
                        ..old(self)@
                    })
                },
                Some(Err(e)) => {
                    &&& r matches ConnectStart::Refused(l) && l@ == error_line(e@)
                    &&& final(self)@ == (SessionView {
                        lines: old(self)@.lines.push(error_line(e@)),
                        status: ConnectionStatus::Failed,
                        ..old(self)@
                    })
                },
                Some(Ok(())) => {
                    &&& r is Started
                    &&& final(self)@ == (SessionView {
                        lines: Seq::empty(),
                        status: ConnectionStatus::LoggingIn,
                        worker: true,
                        timer: false,
                        monitor: false,
                        channel: true,
                        ..old(self)@
                    })
                },
            },
    {
        match credentials {
            None => {
                let line = error_text(NO_PROFILE_MESSAGE);
                let copy = line.clone();
                self.push_log(line);
                ConnectStart::Refused(copy)
            },
            Some(Err(e)) => {
                let line = error_text(e.as_str());
                let copy = line.clone();
                self.push_log(line);
                self.status = ConnectionStatus::Failed;
                ConnectStart::Refused(copy)
            },
            Some(Ok(())) => {
                self.has_channel = true;
                self.log_lines = Vec::new();
                self.status = ConnectionStatus::LoggingIn;
                self.worker_running = true;
                self.timer_running = false;
                self.monitor_running = false;
                assert(self@.lines =~= Seq::<Seq<char>>::empty());
                ConnectStart::Started
            },
        }
    }

    /// A click on "Disconnect". Without a worker channel there is nothing
    /// to take down: an error line is added and returned. Otherwise a
    /// worker is to be started.
    pub fn start_disconnect(&mut self) -> (r: Result<(), String>)
        ensures
            old(self).has_channel ==> r is Ok && final(self)@ == (SessionView { worker: true, ..old(self)@ }),
            !old(self).has_channel ==> (r matches Err(l) && l@ == error_line(NO_SESSION_MESSAGE@)),
            !old(self).has_channel ==> final(self)@ == (SessionView {
                lines: old(self)@.lines.push(error_line(NO_SESSION_MESSAGE@)),
                ..old(self)@
            }),
    {
        if self.has_channel {
            self.worker_running = true;
            Ok(())
        } else {
            let line = error_text(NO_SESSION_MESSAGE);
            let copy = line.clone();
            self.push_log(line);
            Err(copy)
        }
    }

    /// The window is closing. The first call stops the monitor and adds a
    /// farewell line, naming the tunnel when one is up or was connected;
    /// the line is returned so that it reaches the log file. Later calls
    /// change nothing.
    pub fn shutdown(&mut self) -> (r: Option<String>)
        ensures
            old(self).shutdown_done ==> r is None && final(self)@ == old(self)@,
            !old(self).shutdown_done ==> (r matches Some(l) && l@ == shutdown_line(old(self)@)),
            !old(self).shutdown_done ==> final(self)@ == (SessionView {
                lines: old(self)@.lines.push(shutdown_line(old(self)@)),
                monitor: false,
                shut_down: true,
                ..old(self)@
            }),
    {
        if self.shutdown_done {
            return None;
        }
        self.shutdown_done = true;
        self.monitor_running = false;
        let line = if self.status == ConnectionStatus::Connected || self.connected_pid.is_some() {
            String::from_str(QUIT_CONNECTED_LINE)
        } else {
            String::from_str(QUIT_LINE)
        };
        let copy = line.clone();
        self.push_log(line);
        Some(copy)
    }

    /// The window keeps redrawing while a worker runs or the tunnel is up.
    pub fn needs_repaint(&self) -> (r: bool)
        ensures
            r == (self.worker_running || self.status == ConnectionStatus::Connected),
    {
        self.worker_running || self.status == ConnectionStatus::Connected
    }
}

/// The log shown in the window only grows under the worker's reports: each
/// report leaves the earlier lines as they were and adds at most its own.
pub proof fn lemma_reports_only_append(s: SessionView, e: LogEvent)
    ensures
        event_step(s, e).lines.len() <= s.lines.len() + 1,
        event_step(s, e).lines.subrange(0, s.lines.len() as int) == s.lines,
        match event_line(e) {
            Some(l) => event_step(s, e).lines == s.lines.push(l),
            None => event_step(s, e).lines == s.lines,
        },
{
    assert(s.lines.push(Seq::<char>::empty()).subrange(0, s.lines.len() as int) =~= s.lines);
    match e {
        LogEvent::Log(l) => assert(s.lines.push(l@).subrange(0, s.lines.len() as int) =~= s.lines),
        LogEvent::Error(m) => assert(s.lines.push(error_line(m@)).subrange(0, s.lines.len() as int) =~= s.lines),
        _ => assert(s.lines.subrange(0, s.lines.len() as int) =~= s.lines),
    }
}

/// Whatever state the session was in, a failure report leaves it failed,
/// with no worker, no clock and no monitor running.
pub proof fn lemma_error_stops_everything(s: SessionView, message: String)
    ensures
        event_step(s, LogEvent::Error(message)).status == ConnectionStatus::Failed,
        !event_step(s, LogEvent::Error(message)).worker,
        !event_step(s, LogEvent::Error(message)).timer,
        !event_step(s, LogEvent::Error(message)).monitor,
        event_step(s, LogEvent::Error(message)).pid == s.pid,
{
}

/// A disconnect report undoes a connect report: receiving one after the
/// other leaves the session as the disconnect alone would; and a second
/// disconnect changes nothing more.
pub proof fn lemma_disconnect_undoes_connect(s: SessionView, pid: u32)
    ensures
        event_step(event_step(s, LogEvent::Connected(pid)), LogEvent::Disconnected)
            == event_step(s, LogEvent::Disconnected),
        event_step(event_step(s, LogEvent::Disconnected), LogEvent::Disconnected)
            == event_step(s, LogEvent::Disconnected),
        event_step(s, LogEvent::Disconnected).status == ConnectionStatus::Idle,
        event_step(s, LogEvent::Disconnected).pid is None,
        !event_step(s, LogEvent::Disconnected).worker,
        !event_step(s, LogEvent::Disconnected).monitor,
{
}

/// A log report adds its line at the end of the log and changes nothing
/// else: the status, the tunnel's process, the worker, the clock, the
/// monitor, the channel and the shutdown mark stay as they were.
pub proof fn lemma_log_report_only_adds_its_line(s: SessionView, line: String)
    ensures
        event_step(s, LogEvent::Log(line)).lines == s.lines.push(line@),
        event_step(s, LogEvent::Log(line)).status == s.status,
        event_step(s, LogEvent::Log(line)).pid == s.pid,
        event_step(s, LogEvent::Log(line)).worker == s.worker,
        event_step(s, LogEvent::Log(line)).timer == s.timer,
        event_step(s, LogEvent::Log(line)).monitor == s.monitor,
        event_step(s, LogEvent::Log(line)).channel == s.channel,
        event_step(s, LogEvent::Log(line)).shut_down == s.shut_down,
{
}

/// A status report changes the status and nothing else.
pub proof fn lemma_status_report_changes_status_only(s: SessionView, st: ConnectionStatus)
    ensures
        event_step(s, LogEvent::Status(st)) == (SessionView { status: st, ..s }),
{
}

} // verus!
