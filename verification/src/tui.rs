//! The terminal front-end's state and how keys and backend answers
//! change it. The event loop performs the returned requests (backend
//! calls, journal reads) and hands each answer back.

use vstd::prelude::*;
use vstd::view::View as _;

use crate::backend::{Capabilities, Status, StatusView};
use crate::journal::{LogLine, LogLineView, log_unit_name, log_units_spec};
use crate::sched::{SchedMode, all_modes, all_modes_spec, mode_name_spec};
use crate::ctl::{remove_prefix_spec, remove_scx_prefix};
use crate::text::{decimal_spec, decimal_string, join, join_spec, str_eq};

verus! {

/// Which screen is shown.
#[derive(Debug, Clone, Copy, PartialEq, Eq, Structural)]
pub enum View {
    Schedulers,
    Logs,
}

/// A line for the message bar.
pub struct Message {
    pub text: String,
    pub is_error: bool,
}

/// The view of a message.
pub struct MessageView {
    pub text: Seq<char>,
    pub is_error: bool,
}

impl vstd::view::View for Message {
    type V = MessageView;

    open spec fn view(&self) -> MessageView {
        MessageView { text: self.text@, is_error: self.is_error }
    }
}

/// A key press, as far as the front-end tells keys apart.
#[derive(Debug, Clone, Copy, PartialEq, Eq, Structural)]
pub enum Key {
    Char(char),
    Esc,
    Enter,
    Up,
    Down,
    Tab,
    BackTab,
    PageUp,
    PageDown,
    Other,
}

/// A scheduler-affecting backend operation.
pub enum Action {
    Start(String, SchedMode),
    Switch(String, SchedMode),
    Stop,
    Restart,
    RestoreDefault,
}

/// The view of an action.
pub enum ActionView {
    Start(Seq<char>, SchedMode),
    Switch(Seq<char>, SchedMode),
    Stop,
    Restart,
    RestoreDefault,
}

impl vstd::view::View for Action {
    type V = ActionView;

    open spec fn view(&self) -> ActionView {
        match self {
            Action::Start(s, m) => ActionView::Start(s@, *m),
            Action::Switch(s, m) => ActionView::Switch(s@, *m),
            Action::Stop => ActionView::Stop,
            Action::Restart => ActionView::Restart,
            Action::RestoreDefault => ActionView::RestoreDefault,
        }
    }
}

/// Outside work the event loop performs, in order, handing each answer
/// back: `Perform` to `finish_action`, `QueryStatus` to `apply_status`,
/// `QueryModes` to `apply_modes`, `FetchLogs` to `apply_logs`; `Notify`
/// shows an informational message.
pub enum Request {
    Perform(Action),
    QueryStatus,
    QueryModes(String),
    FetchLogs(usize, bool),
    Notify(String),
}

/// The view of a request.
pub enum RequestView {
    Perform(ActionView),
    QueryStatus,
    QueryModes(Seq<char>),
    FetchLogs(usize, bool),
    Notify(Seq<char>),
}

impl vstd::view::View for Request {
    type V = RequestView;

    open spec fn view(&self) -> RequestView {
        match self {
            Request::Perform(a) => RequestView::Perform(a@),
            Request::QueryStatus => RequestView::QueryStatus,
            Request::QueryModes(s) => RequestView::QueryModes(s@),
            Request::FetchLogs(u, b) => RequestView::FetchLogs(*u, *b),
            Request::Notify(s) => RequestView::Notify(s@),
        }
    }
}

/// The views of a list of requests.
pub open spec fn requests_view(rs: Seq<Request>) -> Seq<RequestView> {
    rs.map_values(|r: Request| r@)
}

/// The views of display lines.
pub open spec fn log_lines_view(ls: Seq<LogLine>) -> Seq<LogLineView> {
    ls.map_values(|l: LogLine| l@)
}

/// The view of an optional status.
pub open spec fn opt_status_view(s: Option<Status>) -> Option<StatusView> {
    match s {
        Some(st) => Some(st@),
        None => None,
    }
}

/// The view of an optional message.
pub open spec fn opt_message_view(m: Option<Message>) -> Option<MessageView> {
    match m {
        Some(msg) => Some(msg@),
        None => None,
    }
}

/// The front-end's state.
pub struct App {
    label: &'static str,
    caps: Capabilities,
    schedulers: Vec<String>,
    selected: usize,
    mode_idx: usize,
    status: Option<Status>,
    /// Configured modes of the selected scheduler; empty means unknown.
    configured_modes: Vec<SchedMode>,
    message: Option<Message>,
    /// Time (ms) of the last scheduler-affecting action, for debouncing.
    last_action: Option<u64>,
    view: View,
    /// Index into the log units.
    log_unit: usize,
    /// `false` = current boot, `true` = previous boot.
    log_previous_boot: bool,
    /// Flattened journal lines, oldest first.
    log_lines: Vec<LogLine>,
    /// Scroll offset from the bottom; 0 sticks to the newest line.
    log_scroll: usize,
    /// Height of the log viewport, written back by the renderer.
    log_page: usize,
    pending_monitor: bool,
    should_quit: bool,
}

/// The view of the front-end's state.
#[verifier::ext_equal]
pub struct AppView {
    pub label: Seq<char>,
    pub caps: Capabilities,
    pub schedulers: Seq<Seq<char>>,
    pub selected: usize,
    pub mode_idx: usize,
    pub status: Option<StatusView>,
    pub configured_modes: Seq<SchedMode>,
    pub message: Option<MessageView>,
    pub last_action: Option<u64>,
    pub view: View,
    pub log_unit: usize,
    pub log_previous_boot: bool,
    pub log_lines: Seq<LogLineView>,
    pub log_scroll: usize,
    pub log_page: usize,
    pub pending_monitor: bool,
    pub should_quit: bool,
}

impl vstd::view::View for App {
    type V = AppView;

    closed spec fn view(&self) -> AppView {
        AppView {
            label: self.label@,
            caps: self.caps,
            schedulers: self.schedulers.deep_view(),
            selected: self.selected,
            mode_idx: self.mode_idx,
            status: opt_status_view(self.status),
            configured_modes: self.configured_modes@,
            message: opt_message_view(self.message),
            last_action: self.last_action,
            view: self.view,
            log_unit: self.log_unit,
            log_previous_boot: self.log_previous_boot,
            log_lines: log_lines_view(self.log_lines@),
            log_scroll: self.log_scroll,
            log_page: self.log_page,
            pending_monitor: self.pending_monitor,
            should_quit: self.should_quit,
        }
    }
}

/// What every state keeps: the mode index names a mode, the selection is
/// inside the list (or 0 for an empty list), the log unit names a unit,
/// and the scheduler list and the log fit in memory (their lengths are
/// `usize` values).
pub open spec fn app_inv(v: AppView) -> bool {
    &&& v.schedulers.len() <= usize::MAX
    &&& v.log_lines.len() <= usize::MAX
    &&& v.mode_idx < 5
    &&& (v.selected < v.schedulers.len() || (v.schedulers.len() == 0 && v.selected == 0))
    &&& v.log_unit < 2
}

/// The mode chosen in the mode selector.
pub open spec fn selected_mode_spec(v: AppView) -> SchedMode {
    all_modes_spec()[v.mode_idx as int]
}

/// The scheduler under the cursor, if the list is not empty.
pub open spec fn selected_scheduler_spec(v: AppView) -> Option<Seq<char>> {
    if v.selected < v.schedulers.len() {
        Some(v.schedulers[v.selected as int])
    } else {
        None
    }
}

/// Whether the selected mode has configured flags for the selected
/// scheduler: `Auto` always has, and an empty (unknown) list counts as
/// configured.
pub open spec fn selected_mode_configured_spec(v: AppView) -> bool {
    selected_mode_spec(v) == SchedMode::Auto || v.configured_modes.len() == 0
        || v.configured_modes.contains(selected_mode_spec(v))
}

/// Minimum spacing (ms) between two scheduler-affecting actions.
pub open spec fn action_debounce_ms() -> u64 {
    500
}

/// Whether an action at `now` passes the debounce gate.
pub open spec fn action_allowed_spec(v: AppView, now: u64) -> bool {
    !(v.last_action matches Some(last) && (if now >= last {
        now - last
    } else {
        0
    }) < action_debounce_ms())
}

/// An informational message.
pub open spec fn info_msg(text: Seq<char>) -> Option<MessageView> {
    Some(MessageView { text, is_error: false })
}

/// An error message.
pub open spec fn error_msg(text: Seq<char>) -> Option<MessageView> {
    Some(MessageView { text, is_error: true })
}

impl App {
    /// Every state keeps `app_inv`: `new` makes one, and every method keeps
    /// it.
    #[verifier::type_invariant]
    spec fn keeps_app_inv(self) -> bool {
        app_inv(self@)
    }

    /// The view-level state invariant.
    pub open spec fn inv(&self) -> bool {
        app_inv(self@)
    }

    /// The starting state for a backend named `label` with capabilities
    /// `caps` that offers `schedulers`: first scheduler and `Auto` chosen,
    /// scheduler screen, current boot of the first log unit, and the
    /// requests that load the status and the modes of the selection.
    pub fn new(label: &'static str, caps: Capabilities, schedulers: Vec<String>) -> (res: (App, Vec<Request>))
        ensures
            res.0.inv(),
            res.0@ == (AppView {
                label: label@,
                caps,
                schedulers: schedulers.deep_view(),
                selected: 0,
                mode_idx: 0,
                status: None,
                configured_modes: refresh_modes_spec(new_view_spec(label@, caps, schedulers.deep_view())).0.configured_modes,
                message: None,
                last_action: None,
                view: View::Schedulers,
                log_unit: 0,
                log_previous_boot: false,
                log_lines: Seq::empty(),
                log_scroll: 0,
                log_page: 20,
                pending_monitor: false,
                should_quit: false,
            }),
            requests_view(res.1@) == seq![RequestView::QueryStatus] + refresh_modes_spec(
                new_view_spec(label@, caps, schedulers.deep_view()),
            ).1,
    {
        assert(schedulers.deep_view().len() == schedulers.len());
        let mut app = App {
            label,
            caps,
            schedulers,
            selected: 0,
            mode_idx: 0,
            status: None,
            configured_modes: Vec::new(),
            message: None,
            last_action: None,
            view: View::Schedulers,
            log_unit: 0,
            log_previous_boot: false,
            log_lines: Vec::new(),
            log_scroll: 0,
            log_page: 20,
            pending_monitor: false,
            should_quit: false,
        };
        assert(app@ =~= new_view_spec(label@, caps, app.schedulers.deep_view()));
        assert(app.schedulers.deep_view().len() == app.schedulers.len());
        let mut reqs: Vec<Request> = vec![Request::QueryStatus];
        let mut more = app.refresh_modes();
        let ghost more_s = more@;
        let ghost first = reqs@;
        reqs.append(&mut more);
        assert(reqs@ =~= first + more_s);
        assert(first[0]@ == RequestView::QueryStatus);
        assert(requests_view(reqs@) =~= seq![RequestView::QueryStatus] + requests_view(more_s));
        (app, reqs)
    }

    /// The backend's short name.
    pub fn backend_label(&self) -> (res: &'static str)
        ensures
            res@ == self@.label,
    {
        self.label
    }

    /// What the backend can do.
    pub fn capabilities(&self) -> (res: Capabilities)
        ensures
            res == self@.caps,
    {
        self.caps
    }

    /// The screen shown.
    pub fn current_view(&self) -> (res: View)
        ensures
            res == self@.view,
    {
        self.view
    }

    /// The cursor's position in the scheduler list.
    pub fn selected(&self) -> (res: usize)
        ensures
            res == self@.selected,
    {
        self.selected
    }

    /// The message on the footer, if any.
    pub fn message(&self) -> (res: Option<&Message>)
        ensures
            match res {
                Some(m) => self@.message == Some(m@),
                None => self@.message is None,
            },
    {
        self.message.as_ref()
    }

    /// The flattened journal lines, oldest first.
    pub fn log_lines(&self) -> (res: &Vec<LogLine>)
        ensures
            log_lines_view(res@) == self@.log_lines,
    {
        &self.log_lines
    }

    /// The scroll offset of the log from its newest line.
    pub fn log_scroll(&self) -> (res: usize)
        ensures
            res == self@.log_scroll,
    {
        self.log_scroll
    }

    /// The height of the log viewport.
    pub fn log_page(&self) -> (res: usize)
        ensures
            res == self@.log_page,
    {
        self.log_page
    }

    /// The log unit shown.
    pub fn log_unit(&self) -> (res: usize)
        ensures
            res == self@.log_unit,
    {
        self.log_unit
    }

    /// Whether the log shows the previous boot.
    pub fn log_previous_boot(&self) -> (res: bool)
        ensures
            res == self@.log_previous_boot,
    {
        self.log_previous_boot
    }

    /// Whether the user asked to quit.
    pub fn should_quit(&self) -> (res: bool)
        ensures
            res == self@.should_quit,
    {
        self.should_quit
    }

    /// The scheduler under the cursor, if any.
    pub fn selected_scheduler(&self) -> (res: Option<&str>)
        ensures
            match res {
                Some(s) => selected_scheduler_spec(self@) == Some(s@),
                None => selected_scheduler_spec(self@) is None,
            },
    {
        if self.selected < self.schedulers.len() {
            Some(self.schedulers[self.selected].as_str())
        } else {
            None
        }
    }

    /// The mode chosen in the mode selector.
    pub fn selected_mode(&self) -> (res: SchedMode)
        ensures
            res == selected_mode_spec(self@),
    {
        proof {
            use_type_invariant(&*self);
        }
        let modes = all_modes();
        modes[self.mode_idx]
    }

    /// Whether the selected mode has configured flags for the selected
    /// scheduler. `Auto` always counts, and an empty list (unknown, for
    /// instance after a failed query) counts too, so a transient failure
    /// never shows a warning.
    pub fn selected_mode_configured(&self) -> (res: bool)
        ensures
            res == selected_mode_configured_spec(self@),
    {
        proof {
            use_type_invariant(&*self);
        }
        let mode = self.selected_mode();
        mode == SchedMode::Auto || self.configured_modes.len() == 0 || crate::ctl::modes_contain(
            &self.configured_modes,
            mode,
        )
    }

    /// Shows an informational message.
    pub fn info(&mut self, text: &str)
        ensures
            final(self)@ == (AppView { message: info_msg(text@), ..old(self)@ }),
    {
        proof {
            use_type_invariant(&*self);
        }
        self.message = Some(Message { text: text.to_owned(), is_error: false });
    }

    /// Shows an error message.
    pub fn error(&mut self, text: &str)
        ensures
            final(self)@ == (AppView { message: error_msg(text@), ..old(self)@ }),
    {
        proof {
            use_type_invariant(&*self);
        }
        self.message = Some(Message { text: text.to_owned(), is_error: true });
    }

    /// Re-reads the configured modes of the selection: a query when there
    /// is a selection and the backend has modes, otherwise the list is
    /// cleared at once.
    fn refresh_modes(&mut self) -> (res: Vec<Request>)
        ensures
            (final(self)@, requests_view(res@)) == refresh_modes_spec(old(self)@),
    {
        proof {
            use_type_invariant(&*self);
        }
        let caps = self.caps;
        match self.selected_scheduler() {
            Some(sched) if caps.modes => {
                let r = vec![Request::QueryModes(sched.to_owned())];
                assert(requests_view(r@) =~= seq![RequestView::QueryModes(sched@)]);
                r
            },
            _ => {
                self.configured_modes = Vec::new();
                assert(self@ =~= (AppView { configured_modes: Seq::empty(), ..old(self)@ }));
                let r: Vec<Request> = Vec::new();
                assert(requests_view(r@) =~= Seq::empty());
                r
            },
        }
    }
}

/// The starting state before the modes are loaded.
pub open spec fn new_view_spec(label: Seq<char>, caps: Capabilities, schedulers: Seq<Seq<char>>) -> AppView {
    AppView {
        label,
        caps,
        schedulers,
        selected: 0,
        mode_idx: 0,
        status: None,
        configured_modes: Seq::empty(),
        message: None,
        last_action: None,
        view: View::Schedulers,
        log_unit: 0,
        log_previous_boot: false,
        log_lines: Seq::empty(),
        log_scroll: 0,
        log_page: 20,
        pending_monitor: false,
        should_quit: false,
    }
}

/// Re-reading the configured modes of the selection.
pub open spec fn refresh_modes_spec(v: AppView) -> (AppView, Seq<RequestView>) {
    match selected_scheduler_spec(v) {
        Some(s) => if v.caps.modes {
            (v, seq![RequestView::QueryModes(s)])
        } else {
            (AppView { configured_modes: Seq::empty(), ..v }, Seq::empty())
        },
        None => (AppView { configured_modes: Seq::empty(), ..v }, Seq::empty()),
    }
}


/// `scroll` moved by `delta`, saturating at both ends.
pub open spec fn scroll_by_spec(scroll: usize, delta: int) -> usize {
    let t = scroll + delta;
    if t < 0 {
        0
    } else if t > usize::MAX {
        usize::MAX
    } else {
        t as usize
    }
}

/// The mode index moved by `dir` steps around the five modes.
pub open spec fn cycle_spec(idx: usize, dir: int) -> usize {
    ((idx + dir) % 5) as usize
}

/// Moving the cursor down, wrapping to the top, then re-reading modes.
pub open spec fn select_next_spec(v: AppView) -> (AppView, Seq<RequestView>) {
    if v.schedulers.len() > 0 {
        refresh_modes_spec(
            AppView { selected: ((v.selected + 1) % (v.schedulers.len() as int)) as usize, ..v },
        )
    } else {
        (v, Seq::empty())
    }
}

/// Moving the cursor up, wrapping to the bottom, then re-reading modes.
pub open spec fn select_prev_spec(v: AppView) -> (AppView, Seq<RequestView>) {
    if v.schedulers.len() > 0 {
        refresh_modes_spec(
            AppView {
                selected: ((v.selected + v.schedulers.len() - 1) % (v.schedulers.len() as int)) as usize,
                ..v
            },
        )
    } else {
        (v, Seq::empty())
    }
}

/// The state after an action passed the debounce gate at `now`.
pub open spec fn armed(v: AppView, now: u64) -> AppView {
    AppView { last_action: Some(now), ..v }
}

/// `Enter`: start the selection in the selected mode when nothing runs,
/// switch to it otherwise; then re-read the status.
pub open spec fn start_or_switch_spec(v: AppView) -> (AppView, Seq<RequestView>) {
    match selected_scheduler_spec(v) {
        None => (v, Seq::empty()),
        Some(s) => {
            let mode = selected_mode_spec(v);
            let running = v.status matches Some(st) && st.current is Some;
            let a = if running {
                ActionView::Switch(s, mode)
            } else {
                ActionView::Start(s, mode)
            };
            (v, seq![RequestView::Perform(a), RequestView::QueryStatus])
        },
    }
}

/// A plain action (stop, restart, restore), then re-reading the status.
pub open spec fn act_spec(v: AppView, a: ActionView) -> (AppView, Seq<RequestView>) {
    (v, seq![RequestView::Perform(a), RequestView::QueryStatus])
}

/// The request that reloads the log view.
pub open spec fn fetch_logs_spec(v: AppView) -> RequestView {
    RequestView::FetchLogs(v.log_unit, v.log_previous_boot)
}

/// A key on the scheduler screen.
pub open spec fn on_key_schedulers_spec(v: AppView, key: Key, now: u64) -> (AppView, Seq<RequestView>) {
    match key {
        Key::Char('q') | Key::Esc => (AppView { should_quit: true, ..v }, Seq::empty()),
        Key::Char('l') => {
            let w = AppView { view: View::Logs, ..v };
            (w, seq![fetch_logs_spec(w)])
        },
        Key::Char('t') => (AppView { pending_monitor: true, ..v }, Seq::empty()),
        Key::Down | Key::Char('j') => select_next_spec(v),
        Key::Up | Key::Char('k') => select_prev_spec(v),
        Key::Tab | Key::Char('m') => (AppView { mode_idx: cycle_spec(v.mode_idx, 1), ..v }, Seq::empty()),
        Key::BackTab | Key::Char('M') => (
            AppView { mode_idx: cycle_spec(v.mode_idx, -1), ..v },
            Seq::empty(),
        ),
        Key::Enter => if action_allowed_spec(v, now) {
            start_or_switch_spec(armed(v, now))
        } else {
            (v, Seq::empty())
        },
        Key::Char('s') => if action_allowed_spec(v, now) {
            act_spec(armed(v, now), ActionView::Stop)
        } else {
            (v, Seq::empty())
        },
        Key::Char('r') => if action_allowed_spec(v, now) {
            act_spec(armed(v, now), ActionView::Restart)
        } else {
            (v, Seq::empty())
        },
        Key::Char('d') => if v.caps.restore_default && action_allowed_spec(v, now) {
            act_spec(armed(v, now), ActionView::RestoreDefault)
        } else {
            (v, Seq::empty())
        },
        Key::Char('R') => {
            let (w, modes) = refresh_modes_spec(v);
            (w, seq![RequestView::QueryStatus] + modes + seq![RequestView::Notify("refreshed"@)])
        },
        _ => (v, Seq::empty()),
    }
}

/// A key on the log screen.
pub open spec fn on_key_logs_spec(v: AppView, key: Key) -> (AppView, Seq<RequestView>) {
    match key {
        Key::Char('q') => (AppView { should_quit: true, ..v }, Seq::empty()),
        Key::Esc | Key::Char('l') => (AppView { view: View::Schedulers, ..v }, Seq::empty()),
        Key::Up | Key::Char('k') => (
            AppView { log_scroll: scroll_by_spec(v.log_scroll, 1), ..v },
            Seq::empty(),
        ),
        Key::Down | Key::Char('j') => (
            AppView { log_scroll: scroll_by_spec(v.log_scroll, -1), ..v },
            Seq::empty(),
        ),
        Key::PageUp => (
            AppView { log_scroll: scroll_by_spec(v.log_scroll, (v.log_page as isize) as int), ..v },
            Seq::empty(),
        ),
        Key::PageDown => (
            AppView { log_scroll: scroll_by_spec(v.log_scroll, -((v.log_page as isize) as int)), ..v },
            Seq::empty(),
        ),
        Key::Char('g') => (AppView { log_scroll: usize::MAX, ..v }, Seq::empty()),
        Key::Char('G') => (AppView { log_scroll: 0, ..v }, Seq::empty()),
        Key::Char('b') => {
            let w = AppView { log_previous_boot: !v.log_previous_boot, ..v };
            (w, seq![fetch_logs_spec(w)])
        },
        Key::Char('u') => {
            let w = AppView { log_unit: ((v.log_unit + 1) % 2) as usize, ..v };
            (w, seq![fetch_logs_spec(w)])
        },
        Key::Char('R') => (v, seq![fetch_logs_spec(v)]),
        _ => (v, Seq::empty()),
    }
}

/// A key press on whichever screen is shown.
pub open spec fn on_key_spec(v: AppView, key: Key, now: u64) -> (AppView, Seq<RequestView>) {
    match v.view {
        View::Schedulers => on_key_schedulers_spec(v, key, now),
        View::Logs => on_key_logs_spec(v, key),
    }
}

/// What a key needs to be handled without overflow: paging down negates
/// the page height, which must not be the most negative `isize`.
pub open spec fn key_ok(v: AppView, key: Key) -> bool {
    v.view == View::Logs && key == Key::PageDown ==> (v.log_page as isize) != isize::MIN
}

/// A request list with one element.
fn one_request(r: Request) -> (res: Vec<Request>)
    ensures
        requests_view(res@) == seq![r@],
{
    let ghost rv = r@;
    let v = vec![r];
    assert(requests_view(v@) =~= seq![rv]);
    v
}

/// No requests.
fn no_requests() -> (res: Vec<Request>)
    ensures
        requests_view(res@) == Seq::<RequestView>::empty(),
{
    let v: Vec<Request> = Vec::new();
    assert(requests_view(v@) =~= Seq::<RequestView>::empty());
    v
}

/// A request list with two elements.
fn two_requests(a: Request, b: Request) -> (res: Vec<Request>)
    ensures
        requests_view(res@) == seq![a@, b@],
{
    let ghost av = a@;
    let ghost bv = b@;
    let v = vec![a, b];
    assert(requests_view(v@) =~= seq![av, bv]);
    v
}

impl App {
    /// Moves the log view by `delta` lines, saturating at both ends (the
    /// renderer clamps the upper end to the content).
    pub fn log_scroll_by(&mut self, delta: isize)
        ensures
            final(self)@ == (AppView {
                log_scroll: scroll_by_spec(old(self)@.log_scroll, delta as int),
                ..old(self)@
            }),
    {
        proof {
            use_type_invariant(&*self);
        }
        if delta >= 0 {
            let d = delta as usize;
            if self.log_scroll > usize::MAX - d {
                self.log_scroll = usize::MAX;
            } else {
                self.log_scroll = self.log_scroll + d;
            }
        } else {
            let d: usize = ((-(delta + 1)) as usize) + 1;
            if self.log_scroll < d {
                self.log_scroll = 0;
            } else {
                self.log_scroll = self.log_scroll - d;
            }
        }
    }

    /// Moves the mode selector by `dir` steps, wrapping around.
    pub fn cycle_mode(&mut self, dir: isize)
        ensures
            final(self).inv(),
            final(self)@ == (AppView {
                mode_idx: cycle_spec(old(self)@.mode_idx, dir as int),
                ..old(self)@
            }),
    {
        proof {
            use_type_invariant(&*self);
        }
        let idx = self.mode_idx;
        if dir >= 0 {
            let d = (dir as usize) % 5;
            proof {
                assert(((idx + dir) % 5) == ((idx + d) % 5)) by (nonlinear_arith)
                    requires
                        d == (dir as int) % 5,
                        dir >= 0,
                        idx >= 0,
                ;
            }
            self.mode_idx = (idx + d) % 5;
        } else {
            let a: usize = ((-(dir + 1)) as usize) + 1;
            let d = a % 5;
            proof {
                assert(((idx + dir) % 5) == ((idx + 5 - d) % 5)) by (nonlinear_arith)
                    requires
                        a == -(dir as int),
                        d == a % 5,
                        idx >= 0,
                ;
            }
            self.mode_idx = (idx + 5 - d) % 5;
        }
    }

    /// Debounce gate for scheduler-affecting actions: passes, and arms the
    /// timer with `now`, when at least 500 ms passed since the last action.
    pub fn action_allowed(&mut self, now: u64) -> (res: bool)
        ensures
            res == action_allowed_spec(old(self)@, now),
            final(self)@ == if res {
                armed(old(self)@, now)
            } else {
                old(self)@
            },
    {
        proof {
            use_type_invariant(&*self);
        }
        if let Some(last) = self.last_action {
            let elapsed = if now >= last {
                now - last
            } else {
                0
            };
            if elapsed < 500 {
                return false;
            }
        }
        self.last_action = Some(now);
        true
    }

    fn select_next(&mut self) -> (res: Vec<Request>)
        ensures
            final(self).inv(),
            (final(self)@, requests_view(res@)) == select_next_spec(old(self)@),
    {
        proof {
            use_type_invariant(&*self);
        }
        if self.schedulers.len() > 0 {
            self.selected = (self.selected + 1) % self.schedulers.len();
            self.refresh_modes()
        } else {
            no_requests()
        }
    }

    fn select_prev(&mut self) -> (res: Vec<Request>)
        ensures
            final(self).inv(),
            (final(self)@, requests_view(res@)) == select_prev_spec(old(self)@),
    {
        proof {
            use_type_invariant(&*self);
        }
        let n = self.schedulers.len();
        if n > 0 {
            let prev = if self.selected == 0 {
                n - 1
            } else {
                self.selected - 1
            };
            proof {
                let s = self.selected as int;
                let m = n as int;
                if s == 0 {
                    assert((s + m - 1) % m == m - 1) by (nonlinear_arith)
                        requires
                            s == 0,
                            m > 0,
                    ;
                } else {
                    assert((s + m - 1) % m == s - 1) by (nonlinear_arith)
                        requires
                            0 < s < m,
                    ;
                }
            }
            self.selected = prev;
            self.refresh_modes()
        } else {
            no_requests()
        }
    }

    fn open_logs(&mut self) -> (res: Vec<Request>)
        ensures
            final(self)@ == (AppView { view: View::Logs, ..old(self)@ }),
            requests_view(res@) == seq![fetch_logs_spec(final(self)@)],
    {
        proof {
            use_type_invariant(&*self);
        }
        self.view = View::Logs;
        one_request(Request::FetchLogs(self.log_unit, self.log_previous_boot))
    }

    fn start_or_switch(&mut self) -> (res: Vec<Request>)
        ensures
            final(self)@ == old(self)@,
            requests_view(res@) == start_or_switch_spec(old(self)@).1,
    {
        proof {
            use_type_invariant(&*self);
        }
        let sched = match self.selected_scheduler() {
            Some(s) => s.to_owned(),
            None => {
                return no_requests();
            },
        };
        let mode = self.selected_mode();
        let running = match &self.status {
            Some(st) => st.current.is_some(),
            None => false,
        };
        let action = if running {
            Action::Switch(sched, mode)
        } else {
            Action::Start(sched, mode)
        };
        two_requests(Request::Perform(action), Request::QueryStatus)
    }

    fn on_key_schedulers(&mut self, key: Key, now: u64) -> (res: Vec<Request>)
        ensures
            final(self).inv(),
            (final(self)@, requests_view(res@)) == on_key_schedulers_spec(old(self)@, key, now),
    {
        proof {
            use_type_invariant(&*self);
        }
        match key {
            Key::Char('q') | Key::Esc => {
                self.should_quit = true;
                no_requests()
            },
            Key::Char('l') => self.open_logs(),
            Key::Char('t') => {
                self.pending_monitor = true;
                no_requests()
            },
            Key::Down | Key::Char('j') => self.select_next(),
            Key::Up | Key::Char('k') => self.select_prev(),
            Key::Tab | Key::Char('m') => {
                self.cycle_mode(1);
                no_requests()
            },
            Key::BackTab | Key::Char('M') => {
                self.cycle_mode(-1);
                no_requests()
            },
            Key::Enter => {
                if self.action_allowed(now) {
                    self.start_or_switch()
                } else {
                    no_requests()
                }
            },
            Key::Char('s') => {
                if self.action_allowed(now) {
                    two_requests(Request::Perform(Action::Stop), Request::QueryStatus)
                } else {
                    no_requests()
                }
            },
            Key::Char('r') => {
                if self.action_allowed(now) {
                    two_requests(Request::Perform(Action::Restart), Request::QueryStatus)
                } else {
                    no_requests()
                }
            },
            Key::Char('d') => {
                if self.caps.restore_default && self.action_allowed(now) {
                    two_requests(Request::Perform(Action::RestoreDefault), Request::QueryStatus)
                } else {
                    no_requests()
                }
            },
            Key::Char('R') => {
                let mut reqs = one_request(Request::QueryStatus);
                let mut modes = self.refresh_modes();
                let ghost a = reqs@;
                let ghost b = modes@;
                reqs.append(&mut modes);
                let ghost c = reqs@;
                let mut tail = one_request(Request::Notify("refreshed".to_owned()));
                let ghost d = tail@;
                reqs.append(&mut tail);
                proof {
                    assert(c =~= a + b);
                    assert(reqs@ =~= c + d);
                    assert(requests_view(reqs@) =~= requests_view(a) + requests_view(b)
                        + requests_view(d));
                }
                reqs
            },
            _ => no_requests(),
        }
    }

    fn on_key_logs(&mut self, key: Key) -> (res: Vec<Request>)
        requires
            key_ok(old(self)@, key),
            old(self)@.view == View::Logs,
        ensures
            final(self).inv(),
            (final(self)@, requests_view(res@)) == on_key_logs_spec(old(self)@, key),
    {
        proof {
            use_type_invariant(&*self);
        }
        match key {
            Key::Char('q') => {
                self.should_quit = true;
                no_requests()
            },
            Key::Esc | Key::Char('l') => {
                self.view = View::Schedulers;
                no_requests()
            },
            Key::Up | Key::Char('k') => {
                self.log_scroll_by(1);
                no_requests()
            },
            Key::Down | Key::Char('j') => {
                self.log_scroll_by(-1);
                no_requests()
            },
            Key::PageUp => {
                let page = self.log_page as isize;
                self.log_scroll_by(page);
                no_requests()
            },
            Key::PageDown => {
                let page = self.log_page as isize;
                self.log_scroll_by(-page);
                no_requests()
            },
            Key::Char('g') => {
                self.log_scroll = usize::MAX;
                no_requests()
            },
            Key::Char('G') => {
                self.log_scroll = 0;
                no_requests()
            },
            Key::Char('b') => {
                self.log_previous_boot = !self.log_previous_boot;
                one_request(Request::FetchLogs(self.log_unit, self.log_previous_boot))
            },
            Key::Char('u') => {
                self.log_unit = (self.log_unit + 1) % 2;
                one_request(Request::FetchLogs(self.log_unit, self.log_previous_boot))
            },
            Key::Char('R') => one_request(Request::FetchLogs(self.log_unit, self.log_previous_boot)),
            _ => no_requests(),
        }
    }

    /// Handles a key press at time `now` (ms) and returns the outside work
    /// it needs, in order.
    pub fn on_key(&mut self, key: Key, now: u64) -> (res: Vec<Request>)
        requires
            key_ok(old(self)@, key),
        ensures
            final(self).inv(),
            (final(self)@, requests_view(res@)) == on_key_spec(old(self)@, key, now),
    {
        proof {
            use_type_invariant(&*self);
        }
        match self.view {
            View::Schedulers => self.on_key_schedulers(key, now),
            View::Logs => self.on_key_logs(key),
        }
    }
}


/// The message after a status query failed with `err`.
pub open spec fn status_failed_text(err: Seq<char>) -> Seq<char> {
    "status query failed: "@ + err
}

/// The message after `n` journal lines of `unit` were loaded.
pub open spec fn logs_loaded_text(n: nat, unit: Seq<char>, previous_boot: bool) -> Seq<char> {
    "loaded "@ + decimal_spec(n) + " lines from "@ + unit + " (boot "@ + (if previous_boot {
        "-1"@
    } else {
        "0"@
    }) + ")"@
}

/// What a start or switch is called in messages.
pub open spec fn action_verb(a: ActionView) -> Seq<char> {
    match a {
        ActionView::Switch(_, _) => "switched to"@,
        _ => "started"@,
    }
}

/// The message after a stop, restart or restore succeeded.
pub open spec fn action_done_text(a: ActionView) -> Seq<char> {
    match a {
        ActionView::Stop => "stopped"@,
        ActionView::Restart => "restarted"@,
        _ => "restored default scheduler"@,
    }
}

/// The message after `a` ended with `result` (the error text on
/// failure), given whether the selected mode has configured flags.
pub open spec fn action_message(a: ActionView, result: Result<(), Seq<char>>, configured: bool) -> Option<MessageView> {
    match a {
        ActionView::Start(s, m) | ActionView::Switch(s, m) => match result {
            Ok(_) => if configured {
                info_msg(action_verb(a) + " "@ + s + " in "@ + mode_name_spec(m) + " mode"@)
            } else {
                info_msg(action_verb(a) + " "@ + s + " with its own defaults ("@ + mode_name_spec(m)
                    + " not configured)"@)
            },
            Err(e) => error_msg(action_verb(a) + " "@ + s + " failed: "@ + e),
        },
        _ => match result {
            Ok(_) => info_msg(action_done_text(a)),
            Err(e) => error_msg(e),
        },
    }
}

/// The view of an outcome with an error text.
pub open spec fn outcome_view(r: Result<(), String>) -> Result<(), Seq<char>> {
    match r {
        Ok(_) => Ok(()),
        Err(e) => Err(e@),
    }
}

/// Whether the status is due for its periodic refresh, every 5 s.
pub open spec fn refresh_due_spec(elapsed_ms: u64) -> bool {
    elapsed_ms >= 5000
}

impl App {
    /// Takes the answer to a status query: the new status, or an error
    /// message that keeps the previous status.
    pub fn apply_status(&mut self, result: Result<Status, String>)
        ensures
            final(self)@ == match result {
                Ok(st) => AppView { status: Some(st@), ..old(self)@ },
                Err(e) => AppView { message: error_msg(status_failed_text(e@)), ..old(self)@ },
            },
    {
        proof {
            use_type_invariant(&*self);
        }
        match result {
            Ok(status) => {
                self.status = Some(status);
            },
            Err(err) => {
                let mut text = "status query failed: ".to_owned();
                text.append(err.as_str());
                self.error(text.as_str());
            },
        }
    }

    /// Takes the answer to a modes query; a failed query (`None`) leaves
    /// the list empty, which reads as "unknown".
    pub fn apply_modes(&mut self, result: Option<Vec<SchedMode>>)
        ensures
            final(self)@ == (AppView {
                configured_modes: match result {
                    Some(v) => v@,
                    None => Seq::empty(),
                },
                ..old(self)@
            }),
    {
        proof {
            use_type_invariant(&*self);
        }
        self.configured_modes = match result {
            Some(v) => v,
            None => Vec::new(),
        };
    }

    /// Takes the answer to a journal read for the current unit and boot:
    /// the lines, scrolled to the newest, with a message that counts them;
    /// or no lines and the error.
    pub fn apply_logs(&mut self, result: Result<Vec<LogLine>, String>)
        ensures
            final(self).inv(),
            final(self)@ == match result {
                Ok(lines) => AppView {
                    message: info_msg(
                        logs_loaded_text(
                            lines@.len(),
                            log_units_spec()[old(self)@.log_unit as int],
                            old(self)@.log_previous_boot,
                        ),
                    ),
                    log_lines: log_lines_view(lines@),
                    log_scroll: 0,
                    ..old(self)@
                },
                Err(e) => AppView {
                    message: error_msg(e@),
                    log_lines: Seq::empty(),
                    ..old(self)@
                },
            },
    {
        proof {
            use_type_invariant(&*self);
        }
        match result {
            Ok(lines) => {
                let unit = log_unit_name(self.log_unit);
                let boot = if self.log_previous_boot {
                    "-1"
                } else {
                    "0"
                };
                let mut text = "loaded ".to_owned();
                text.append(decimal_string(lines.len()).as_str());
                text.append(" lines from ");
                text.append(unit);
                text.append(" (boot ");
                text.append(boot);
                text.append(")");
                self.info(text.as_str());
                self.log_lines = lines;
                self.log_scroll = 0;
            },
            Err(err) => {
                self.log_lines = Vec::new();
                self.error(err.as_str());
                assert(log_lines_view(self.log_lines@) =~= Seq::empty());
            },
        }
    }

    /// Takes the outcome of a scheduler-affecting action and shows what
    /// happened.
    pub fn finish_action(&mut self, action: &Action, result: Result<(), String>)
        ensures
            final(self).inv(),
            final(self)@ == (AppView {
                message: action_message(
                    action@,
                    outcome_view(result),
                    selected_mode_configured_spec(old(self)@),
                ),
                ..old(self)@
            }),
    {
        proof {
            use_type_invariant(&*self);
        }
        let configured = self.selected_mode_configured();
        match action {
            Action::Start(sched, mode) | Action::Switch(sched, mode) => {
                let verb = match action {
                    Action::Switch(_, _) => "switched to",
                    _ => "started",
                };
                let mut text = verb.to_owned();
                text.append(" ");
                text.append(sched.as_str());
                match result {
                    Ok(()) => {
                        if configured {
                            text.append(" in ");
                            text.append(mode.name());
                            text.append(" mode");
                        } else {
                            text.append(" with its own defaults (");
                            text.append(mode.name());
                            text.append(" not configured)");
                        }
                        self.info(text.as_str());
                    },
                    Err(err) => {
                        text.append(" failed: ");
                        text.append(err.as_str());
                        self.error(text.as_str());
                    },
                }
            },
            _ => {
                match result {
                    Ok(()) => {
                        let text = match action {
                            Action::Stop => "stopped",
                            Action::Restart => "restarted",
                            _ => "restored default scheduler",
                        };
                        self.info(text);
                    },
                    Err(err) => {
                        self.error(err.as_str());
                    },
                }
            },
        }
    }

    /// Whether the monitor was asked for; the request is consumed.
    pub fn take_pending_monitor(&mut self) -> (res: bool)
        ensures
            res == old(self)@.pending_monitor,
            final(self)@ == (AppView { pending_monitor: false, ..old(self)@ }),
    {
        proof {
            use_type_invariant(&*self);
        }
        let r = self.pending_monitor;
        self.pending_monitor = false;
        r
    }
}

/// Whether the status is due for its periodic refresh: the scheduler can
/// change under the front-end, so it re-reads the status every 5 s.
pub fn refresh_due(elapsed_ms: u64) -> (res: bool)
    ensures
        res == refresh_due_spec(elapsed_ms),
{
    elapsed_ms >= 5000
}


/// The key help line of the footer: the scheduler screen lists only what
/// the backend can do.
pub open spec fn key_help_spec(view: View, caps: Capabilities) -> Seq<char> {
    match view {
        View::Schedulers => " ↑/↓ select · Tab mode · Enter start"@ + (if caps.live_switch {
            "/switch"@
        } else {
            Seq::empty()
        }) + " · s stop · r restart"@ + (if caps.restore_default {
            " · d restore"@
        } else {
            Seq::empty()
        }) + " · l logs · R refresh · q quit"@,
        View::Logs => " ↑/↓ scroll · PgUp/PgDn page · g/G top/bottom · b boot · u unit · R reload · Esc back · q quit"@,
    }
}

/// The key help line of the footer.
pub fn key_help(view: View, caps: Capabilities) -> (res: String)
    ensures
        res@ == key_help_spec(view, caps),
{
    match view {
        View::Schedulers => {
            let mut help = " ↑/↓ select · Tab mode · Enter start".to_owned();
            if caps.live_switch {
                help.append("/switch");
            }
            help.append(" · s stop · r restart");
            if caps.restore_default {
                help.append(" · d restore");
            }
            help.append(" · l logs · R refresh · q quit");
            proof {
                assert(help@ =~= key_help_spec(view, caps));
            }
            help
        },
        View::Logs => " ↑/↓ scroll · PgUp/PgDn page · g/G top/bottom · b boot · u unit · R reload · Esc back · q quit".to_owned(),
    }
}

/// The visible part of the log: with `height` rows (the area minus its
/// border), the page becomes `max(height, 1)`, the scroll offset is
/// clamped to what the content allows, and the lines `start..end` show.
pub open spec fn log_window_spec(v: AppView, area_height: u16) -> (AppView, usize, usize) {
    let height: int = if area_height >= 2 {
        area_height - 2
    } else {
        0
    };
    let total: int = v.log_lines.len() as int;
    let max_scroll: int = if total >= height {
        total - height
    } else {
        0
    };
    let scroll: int = if v.log_scroll > max_scroll {
        max_scroll
    } else {
        v.log_scroll as int
    };
    let end: int = total - scroll;
    let start: int = if end >= height {
        end - height
    } else {
        0
    };
    (
        AppView {
            log_page: if height >= 1 {
                height as usize
            } else {
                1
            },
            log_scroll: scroll as usize,
            ..v
        },
        start as usize,
        end as usize,
    )
}

impl App {
    /// Fits the log view to an area `area_height` rows tall and returns
    /// the range of lines to show; the page height and the clamped scroll
    /// offset are written back, so paging and jumps settle on real bounds.
    pub fn fit_log_window(&mut self, area_height: u16) -> (res: (usize, usize))
        ensures
            final(self).inv(),
            (final(self)@, res.0, res.1) == log_window_spec(old(self)@, area_height),
            res.0 <= res.1 <= final(self)@.log_lines.len(),
    {
        proof {
            use_type_invariant(&*self);
        }
        let height: usize = if area_height >= 2 {
            (area_height - 2) as usize
        } else {
            0
        };
        self.log_page = if height >= 1 {
            height
        } else {
            1
        };
        let total = self.log_lines.len();
        let max_scroll = if total >= height {
            total - height
        } else {
            0
        };
        if self.log_scroll > max_scroll {
            self.log_scroll = max_scroll;
        }
        let end = total - self.log_scroll;
        let start = if end >= height {
            end - height
        } else {
            0
        };
        (start, end)
    }
}

/// How a value on the status panel is colored.
#[derive(Debug, Clone, Copy, PartialEq, Eq, Structural)]
pub enum Tone {
    Good,
    Plain,
    Warn,
    Bad,
}

/// One key/value row of the status panel.
pub struct Row {
    pub key: String,
    pub value: String,
    pub tone: Tone,
}

/// The view of a row.
pub struct RowView {
    pub key: Seq<char>,
    pub value: Seq<char>,
    pub tone: Tone,
}

impl vstd::view::View for Row {
    type V = RowView;

    open spec fn view(&self) -> RowView {
        RowView { key: self.key@, value: self.value@, tone: self.tone }
    }
}

/// A row from its parts.
pub open spec fn row(key: Seq<char>, value: Seq<char>, tone: Tone) -> RowView {
    RowView { key, value, tone }
}

/// The key/value rows of the status panel: the running state (scheduler
/// and its arguments, or its mode when it runs without arguments), then
/// the configured default.
pub open spec fn status_rows_spec(status: Option<StatusView>) -> Seq<RowView> {
    match status {
        None => seq![row("State"@, "unknown"@, Tone::Bad)],
        Some(st) => {
            let state = match st.current {
                Some(s) => if st.args.len() > 0 {
                    seq![
                        row("State"@, "running"@, Tone::Good),
                        row("Scheduler"@, remove_prefix_spec(s), Tone::Plain),
                        row("Arguments"@, join_spec(st.args, " "@), Tone::Plain),
                    ]
                } else {
                    seq![
                        row("State"@, "running"@, Tone::Good),
                        row("Scheduler"@, remove_prefix_spec(s), Tone::Plain),
                        row("Mode"@, mode_name_spec(st.mode), Tone::Plain),
                    ]
                },
                None => seq![row("State"@, "no scheduler running"@, Tone::Warn)],
            };
            let default = match st.default_sched {
                Some(d) => remove_prefix_spec(d) + " ("@ + mode_name_spec(st.default_mode) + ")"@,
                None => "not configured"@,
            };
            state.push(row("Default"@, default, Tone::Plain))
        },
    }
}

/// A row from its parts.
fn make_row(key: &str, value: String, tone: Tone) -> (res: Row)
    ensures
        res@ == row(key@, value@, tone),
{
    Row { key: key.to_owned(), value, tone }
}

impl App {
    /// The key/value rows of the status panel.
    pub fn status_rows(&self) -> (res: Vec<Row>)
        ensures
            res@.map_values(|r: Row| r@) == status_rows_spec(self@.status),
    {
        let mut rows: Vec<Row> = Vec::new();
        match &self.status {
            None => {
                rows.push(make_row("State", "unknown".to_owned(), Tone::Bad));
            },
            Some(st) => {
                match &st.current {
                    Some(s) => {
                        rows.push(make_row("State", "running".to_owned(), Tone::Good));
                        rows.push(make_row("Scheduler", remove_scx_prefix(s.as_str()), Tone::Plain));
                        if st.args.len() > 0 {
                            rows.push(make_row("Arguments", join(&st.args, " "), Tone::Plain));
                        } else {
                            rows.push(make_row("Mode", st.mode.name().to_owned(), Tone::Plain));
                        }
                    },
                    None => {
                        rows.push(make_row("State", "no scheduler running".to_owned(), Tone::Warn));
                    },
                }
                let default = match &st.default_sched {
                    Some(d) => {
                        let mut t = remove_scx_prefix(d.as_str());
                        t.append(" (");
                        t.append(st.default_mode.name());
                        t.append(")");
                        t
                    },
                    None => "not configured".to_owned(),
                };
                rows.push(make_row("Default", default, Tone::Plain));
            },
        }
        assert(rows@.map_values(|r: Row| r@) =~= status_rows_spec(self@.status));
        rows
    }
}

/// Whether `sched` is the scheduler that the last status reports running.
pub open spec fn runs_spec(status: Option<StatusView>, sched: Seq<char>) -> bool {
    status matches Some(st) && st.current == Some(sched)
}

/// The scheduler list as shown: each name without its `scx_` prefix, with
/// whether it is the running one.
pub open spec fn scheduler_rows_spec(v: AppView) -> Seq<(Seq<char>, bool)> {
    v.schedulers.map_values(|s: Seq<char>| (remove_prefix_spec(s), runs_spec(v.status, s)))
}

impl App {
    /// The rows of the scheduler list: shown name and running marker.
    pub fn scheduler_rows(&self) -> (res: Vec<(String, bool)>)
        ensures
            res@.map_values(|r: (String, bool)| (r.0@, r.1)) == scheduler_rows_spec(self@),
    {
        let mut rows: Vec<(String, bool)> = Vec::new();
        let mut i: usize = 0;
        while i < self.schedulers.len()
            invariant
                i <= self.schedulers.len(),
                rows@.len() == i,
                forall|j: int|
                    0 <= j < i ==> (#[trigger] rows@[j]).0@ == remove_prefix_spec(
                        self.schedulers@[j]@,
                    ) && rows@[j].1 == runs_spec(self@.status, self.schedulers@[j]@),
            decreases self.schedulers.len() - i,
        {
            let name = self.schedulers[i].as_str();
            let running = match &self.status {
                Some(st) => match &st.current {
                    Some(cur) => str_eq(cur.as_str(), name),
                    None => false,
                },
                None => false,
            };
            rows.push((remove_scx_prefix(name), running));
            i = i + 1;
        }
        assert(rows@.map_values(|r: (String, bool)| (r.0@, r.1)) =~= scheduler_rows_spec(self@));
        rows
    }
}


/// Cycling the mode forward then backward (or backward then forward)
/// returns to the same mode, and five steps forward go all the way round.
pub proof fn lemma_cycle_mode_round_trip(idx: usize)
    requires
        idx < 5,
    ensures
        cycle_spec(cycle_spec(idx, 1), -1) == idx,
        cycle_spec(cycle_spec(idx, -1), 1) == idx,
        cycle_spec(cycle_spec(cycle_spec(cycle_spec(cycle_spec(idx, 1), 1), 1), 1), 1) == idx,
{
}

/// Moving the cursor down then up (or up then down) returns to the same
/// scheduler, both as the two moves and as the keys that make them on the
/// scheduler screen.
pub proof fn lemma_select_round_trip(v: AppView, t1: u64, t2: u64)
    requires
        app_inv(v),
        v.schedulers.len() > 0,
    ensures
        select_prev_spec(select_next_spec(v).0).0.selected == v.selected,
        select_next_spec(select_prev_spec(v).0).0.selected == v.selected,
        v.view == View::Schedulers ==> on_key_spec(on_key_spec(v, Key::Down, t1).0, Key::Up, t2).0.selected
            == v.selected,
        v.view == View::Schedulers ==> on_key_spec(on_key_spec(v, Key::Up, t1).0, Key::Down, t2).0.selected
            == v.selected,
{
    let n = v.schedulers.len() as int;
    let s = v.selected as int;
    let a = (s + 1) % n;
    let b = (s + n - 1) % n;
    assert(0 <= a < n && 0 <= b < n) by (nonlinear_arith)
        requires
            n > 0,
            a == (s + 1) % n,
            b == (s + n - 1) % n,
    ;
    assert((a + n - 1) % n == s) by (nonlinear_arith)
        requires
            0 <= s < n,
            a == (s + 1) % n,
    ;
    assert((b + 1) % n == s) by (nonlinear_arith)
        requires
            0 <= s < n,
            b == (s + n - 1) % n,
    ;
    lemma_refresh_modes_keeps_cursor(AppView { selected: a as usize, ..v });
    lemma_refresh_modes_keeps_cursor(AppView { selected: b as usize, ..v });
    let w1 = select_next_spec(v).0;
    let w2 = select_prev_spec(v).0;
    lemma_refresh_modes_keeps_cursor(AppView { selected: ((w1.selected + n - 1) % n) as usize, ..w1 });
    lemma_refresh_modes_keeps_cursor(AppView { selected: ((w2.selected + 1) % n) as usize, ..w2 });
}

/// Re-reading the modes keeps the list and the cursor.
proof fn lemma_refresh_modes_keeps_cursor(v: AppView)
    ensures
        refresh_modes_spec(v).0.view == v.view,
        refresh_modes_spec(v).0.selected == v.selected,
        refresh_modes_spec(v).0.schedulers == v.schedulers,
{
}

/// Once an action passed the debounce gate at `now`, every action asked
/// for within the next 500 ms is refused.
pub proof fn lemma_debounce_refuses_repeats(v: AppView, now: u64, later: u64)
    requires
        now <= later,
        later - now < action_debounce_ms(),
    ensures
        !action_allowed_spec(armed(v, now), later),
{
}

/// A key pressed on the scheduler screen never changes the log lines or
/// the log position.
pub proof fn lemma_scheduler_keys_keep_logs(v: AppView, key: Key, now: u64)
    requires
        app_inv(v),
        v.view == View::Schedulers,
    ensures
        on_key_spec(v, key, now).0.log_scroll == v.log_scroll,
        on_key_spec(v, key, now).0.log_lines == v.log_lines,
{
}


/// How a run of the monitor ended.
pub enum MonitorOutcome {
    /// It exited successfully.
    Success,
    /// It exited unsuccessfully, with this exit status.
    Failed(String),
    /// It is not installed.
    NotFound,
    /// It could not be launched, for this reason.
    LaunchError(String),
}

/// The message after a run of the monitor.
pub open spec fn monitor_message(outcome: MonitorOutcome) -> Option<MessageView> {
    match outcome {
        MonitorOutcome::Success => info_msg("scxtop exited"@),
        MonitorOutcome::Failed(st) => error_msg(
            "scxtop exited with "@ + st@
                + " — it needs root/CAP_BPF; try running scxtui as root or granting scxtop capabilities"@,
        ),
        MonitorOutcome::NotFound => error_msg(
            "scxtop not found in PATH — install it (cargo install scxtop, or your distro's scx tools package)"@,
        ),
        MonitorOutcome::LaunchError(e) => error_msg("failed to launch scxtop: "@ + e@),
    }
}

impl App {
    /// Shows how the monitor's run ended.
    pub fn finish_monitor(&mut self, outcome: MonitorOutcome)
        ensures
            final(self)@ == (AppView { message: monitor_message(outcome), ..old(self)@ }),
    {
        proof {
            use_type_invariant(&*self);
        }
        match outcome {
            MonitorOutcome::Success => self.info("scxtop exited"),
            MonitorOutcome::Failed(status) => {
                let mut t = "scxtop exited with ".to_owned();
                t.append(status.as_str());
                t.append(
                    " — it needs root/CAP_BPF; try running scxtui as root or granting scxtop capabilities",
                );
                self.error(t.as_str());
            },
            MonitorOutcome::NotFound => self.error(
                "scxtop not found in PATH — install it (cargo install scxtop, or your distro's scx tools package)",
            ),
            MonitorOutcome::LaunchError(err) => {
                let mut t = "failed to launch scxtop: ".to_owned();
                t.append(err.as_str());
                self.error(t.as_str());
            },
        }
    }
}

/// On the log screen, Down (or `j`) moves the view one line toward the
/// newest (the scroll offset drops by one, never below 0) and Up (or `k`)
/// one line away from it (the offset grows by one, up to its largest
/// value); both keep the log screen, so Up then Down, and Down then Up,
/// come back to the same offset away from those bounds.
pub proof fn lemma_log_keys_scroll(v: AppView, t1: u64, t2: u64)
    requires
        v.view == View::Logs,
    ensures
        on_key_spec(v, Key::Down, t1).0.log_scroll == if v.log_scroll > 0 {
            v.log_scroll - 1
        } else {
            0
        },
        on_key_spec(v, Key::Char('j'), t1).0.log_scroll == on_key_spec(v, Key::Down, t1).0.log_scroll,
        on_key_spec(v, Key::Up, t1).0.log_scroll == if v.log_scroll < usize::MAX {
            v.log_scroll + 1
        } else {
            usize::MAX as int
        },
        on_key_spec(v, Key::Char('k'), t1).0.log_scroll == on_key_spec(v, Key::Up, t1).0.log_scroll,
        on_key_spec(v, Key::Down, t1).0.log_scroll <= v.log_scroll,
        on_key_spec(v, Key::Up, t1).0.log_scroll >= v.log_scroll,
        on_key_spec(v, Key::Down, t1).0.view == View::Logs,
        on_key_spec(v, Key::Up, t1).0.view == View::Logs,
        v.log_scroll < usize::MAX ==> on_key_spec(on_key_spec(v, Key::Up, t1).0, Key::Down, t2).0.log_scroll
            == v.log_scroll,
        v.log_scroll > 0 ==> on_key_spec(on_key_spec(v, Key::Down, t1).0, Key::Up, t2).0.log_scroll
            == v.log_scroll,
{
}

/// The first row of the status panel says whether a scheduler runs: it is
/// the `State` row, reading `running` (in the good tone) exactly when the
/// status names a current scheduler, `no scheduler running` (a warning)
/// when it names none, and `unknown` (bad) when there is no status. A
/// running scheduler's name follows without its `scx_` prefix, and the
/// last row always gives the default.
pub proof fn lemma_status_state_row(status: Option<StatusView>)
    ensures
        status_rows_spec(status).len() >= 1,
        status_rows_spec(status)[0].key == "State"@,
        status is None ==> status_rows_spec(status) == seq![row("State"@, "unknown"@, Tone::Bad)],
        status matches Some(st) ==> (status_rows_spec(status)[0].value == "running"@ <==> st.current is Some),
        status matches Some(st) ==> (status_rows_spec(status)[0].tone == Tone::Good <==> st.current is Some),
        status matches Some(st) ==> (st.current is None ==> status_rows_spec(status)[0] == row(
            "State"@,
            "no scheduler running"@,
            Tone::Warn,
        )),
        status matches Some(st) ==> (st.current is Some ==> status_rows_spec(status).len() == 4),
        status matches Some(st) ==> (st.current matches Some(name) ==> status_rows_spec(status)[1] == row(
            "Scheduler"@,
            remove_prefix_spec(name),
            Tone::Plain,
        )),
        status matches Some(st) ==> status_rows_spec(status).last().key == "Default"@,
{
    reveal_strlit("running");
    reveal_strlit("no scheduler running");
    assert("running"@.len() != "no scheduler running"@.len());
    if let Some(st) = status {
        if let Some(name) = st.current {
            let third = if st.args.len() > 0 {
                row("Arguments"@, join_spec(st.args, " "@), Tone::Plain)
            } else {
                row("Mode"@, mode_name_spec(st.mode), Tone::Plain)
            };
            let state = seq![
                row("State"@, "running"@, Tone::Good),
                row("Scheduler"@, remove_prefix_spec(name), Tone::Plain),
                third,
            ];
            assert(status_rows_spec(status).drop_last() =~= state);
        }
    }
}

} // verus!
