//! Application state and the decisions taken on user input.
//!
//! The application alternates decisions with work outside the library (running
//! `sv`, creating or removing links, scanning the service directories). A key
//! press starts a step: [`App::handle_key`] returns the [`Request`] for the work to
//! do next, and the caller hands what that work returned to [`App::resume`], which
//! returns the next request, until [`Request::Done`] (the step is over),
//! [`Request::Failed`] (the step is over and an operation of it failed) or
//! [`Request::Quit`] (the application ends).
use vstd::prelude::*;
use vstd::string::*;
use crate::listing::{
    lemma_listing_from_inputs, lemma_listing_sorted_permutation, lemma_listing_unique, listing,
    names_unique, sorted_by_name,
};
use crate::text::chars_le;
use crate::runit::{
    after_status, command_outcome, joined_path, sv_reply_view, Runit, RunitView, SvOutput,
    SvOutputView, SvVerb, default_runit,
};
use crate::scan::{all_status_consistent, status_consistent, AvailableScan, EnabledScan};
use crate::service::{Service, ServiceView};

verus! {

/// A key the user pressed.
#[derive(Clone, Copy, Debug, PartialEq, Eq, Structural)]
pub enum Key {
    /// A character key
    Char(char),
    /// The up arrow
    Up,
    /// The down arrow
    Down,
    /// Any other key
    Other,
}

/// An operation on the selected service.
#[derive(Clone, Copy, Debug, PartialEq, Eq, Structural)]
pub enum Operation {
    Start,
    Stop,
    Restart,
    Enable,
    Disable,
}

/// What the application waits for.
#[derive(Clone, Copy, Debug, PartialEq, Eq, Structural)]
pub enum Pending {
    /// Nothing: the next key may come
    Idle,
    /// The `sv` command of `op` on the service at `index`
    Command { op: Operation, index: usize },
    /// The `sv status` of the service at `index`, as part of `op`
    Status { op: Operation, index: usize },
    /// The link that enables the service at `index`
    Link { index: usize },
    /// The removal of the link of the service at `index`
    Unlink { index: usize },
    /// A new scan of the service directories
    Rescan,
}

/// Work the caller is to do next.
#[derive(Debug)]
pub enum Request {
    /// Run `sv <verb> <name>`; answer with [`Reply::Command`].
    Command { verb: SvVerb, name: String },
    /// Run `sv status <name>`; answer with [`Reply::Status`].
    Status { name: String },
    /// Create the link `link` to `target` unless `link` exists; answer with
    /// [`Reply::Link`].
    Link { link: String, target: String },
    /// Remove `link` if it exists; answer with [`Reply::Unlink`].
    Unlink { link: String },
    /// Scan the service directories; answer with [`Reply::Scan`].
    Rescan,
    /// End the application.
    Quit,
    /// Nothing more to do for this key.
    Done,
    /// Nothing more to do for this key, whose operation failed with `error` (the
    /// message shows it too).
    Failed { error: String },
}

/// A [`Request`] with its texts as character sequences.
pub enum RequestView {
    Command { verb: SvVerb, name: Seq<char> },
    Status { name: Seq<char> },
    Link { link: Seq<char>, target: Seq<char> },
    Unlink { link: Seq<char> },
    Rescan,
    Quit,
    Done,
    Failed { error: Seq<char> },
}

impl View for Request {
    type V = RequestView;

    open spec fn view(&self) -> RequestView {
        match self {
            Request::Command { verb, name } => RequestView::Command { verb: *verb, name: name@ },
            Request::Status { name } => RequestView::Status { name: name@ },
            Request::Link { link, target } => RequestView::Link { link: link@, target: target@ },
            Request::Unlink { link } => RequestView::Unlink { link: link@ },
            Request::Rescan => RequestView::Rescan,
            Request::Quit => RequestView::Quit,
            Request::Done => RequestView::Done,
            Request::Failed { error } => RequestView::Failed { error: error@ },
        }
    }
}

/// What the work of a [`Request`] returned.
#[derive(Debug)]
pub enum Reply {
    /// What `sv <verb>` returned, or the error of running it
    Command(Result<SvOutput, String>),
    /// What `sv status` returned, or `None` when it could not be run
    Status(Option<SvOutput>),
    /// `Ok(true)` when the link was created, `Ok(false)` when it existed, or the
    /// error of creating it
    Link(Result<bool, String>),
    /// `Ok(())` when the link is gone, or the error of removing it
    Unlink(Result<(), String>),
    /// The enabled and the available services found (`None` when they could not be
    /// listed)
    Scan { enabled: Option<EnabledScan>, available: Option<AvailableScan> },
}

/// A [`Reply`] with its texts and services as views.
pub enum ReplyView {
    Command(Result<SvOutputView, Seq<char>>),
    Status(Option<SvOutputView>),
    Link(Result<bool, Seq<char>>),
    Unlink(Result<(), Seq<char>>),
    Scan { enabled: Option<Seq<ServiceView>>, available: Option<Seq<ServiceView>> },
}

impl View for Reply {
    type V = ReplyView;

    open spec fn view(&self) -> ReplyView {
        match self {
            Reply::Command(r) => ReplyView::Command(sv_reply_view(*r)),
            Reply::Status(o) => ReplyView::Status(o.deep_view()),
            Reply::Link(r) => ReplyView::Link(
                match r {
                    Ok(b) => Ok(*b),
                    Err(e) => Err(e@),
                },
            ),
            Reply::Unlink(r) => ReplyView::Unlink(
                match r {
                    Ok(()) => Ok(()),
                    Err(e) => Err(e@),
                },
            ),
            Reply::Scan { enabled, available } => ReplyView::Scan {
                enabled: match enabled {
                    Some(e) => Some(e@),
                    None => None,
                },
                available: match available {
                    Some(v) => Some(v@),
                    None => None,
                },
            },
        }
    }
}

/// Main application state: the services, the selection, the status message.
pub struct App {
    services: Vec<Service>,
    selected_index: usize,
    message: String,
    runit: Runit,
    pending: Pending,
    failure: Option<String>,
}

/// What an [`App`] holds, as views.
#[verifier::ext_equal]
pub struct AppView {
    pub services: Seq<ServiceView>,
    pub selected: usize,
    pub message: Seq<char>,
    pub runit: RunitView,
    pub pending: Pending,
    /// The error of the operation of the current step, if it failed
    pub failure: Option<Seq<char>>,
}

impl View for App {
    type V = AppView;

    closed spec fn view(&self) -> AppView {
        AppView {
            services: self.services.deep_view(),
            selected: self.selected_index,
            message: self.message@,
            runit: self.runit@,
            pending: self.pending,
            failure: self.failure.deep_view(),
        }
    }
}

/// The message shown when the application starts.
pub open spec fn ready_message() -> Seq<char> {
    "Ready. Use arrow keys to navigate, keys below to act."@
}

/// The message shown when an operation failed with `e`.
pub open spec fn error_message(e: Seq<char>) -> Seq<char> {
    "Error: "@ + e
}

/// The message shown when `op` succeeded on the service `name`.
pub open spec fn done_message(op: Operation, name: Seq<char>) -> Seq<char> {
    match op {
        Operation::Start => "Started service: "@ + name,
        Operation::Stop => "Stopped service: "@ + name,
        Operation::Restart => "Restarted service: "@ + name,
        Operation::Enable => "Enabled and started service: "@ + name,
        Operation::Disable => "Disabled and stopped service: "@ + name,
    }
}

/// The `sv` command that `op` runs first (enabling starts, disabling stops).
pub open spec fn op_verb(op: Operation) -> SvVerb {
    match op {
        Operation::Start | Operation::Enable => SvVerb::Start,
        Operation::Stop | Operation::Disable => SvVerb::Stop,
        Operation::Restart => SvVerb::Restart,
    }
}

/// The operation a character key stands for.
pub open spec fn key_operation(c: char) -> Option<Operation> {
    if c == 's' {
        Some(Operation::Start)
    } else if c == 'x' {
        Some(Operation::Stop)
    } else if c == 'r' {
        Some(Operation::Restart)
    } else if c == 'e' {
        Some(Operation::Enable)
    } else if c == 'd' {
        Some(Operation::Disable)
    } else {
        None
    }
}

/// The selection after the up arrow: one higher, unless at the top or the list is
/// empty.
pub open spec fn select_up(a: AppView) -> usize {
    if a.services.len() > 0 && a.selected > 0 {
        (a.selected - 1) as usize
    } else {
        a.selected
    }
}

/// The selection after the down arrow: one lower, unless at the bottom or the list
/// is empty.
pub open spec fn select_down(a: AppView) -> usize {
    if a.services.len() > 0 && a.selected + 1 < a.services.len() {
        (a.selected + 1) as usize
    } else {
        a.selected
    }
}

/// The selection after the list became `services`: the last service when the old
/// selection is past the end of a non-empty list, otherwise unchanged.
pub open spec fn clamp_selection(selected: usize, services: Seq<ServiceView>) -> usize {
    if selected >= services.len() && services.len() > 0 {
        (services.len() - 1) as usize
    } else {
        selected
    }
}

/// Ask for a new scan next.
pub open spec fn rescan(a: AppView) -> (AppView, RequestView) {
    (AppView { pending: Pending::Rescan, ..a }, RequestView::Rescan)
}

/// Show the error `e`, record it as the failure of the step, then ask for a new
/// scan.
pub open spec fn fail(a: AppView, e: Seq<char>) -> (AppView, RequestView) {
    rescan(AppView { message: error_message(e), failure: Some(e), ..a })
}

/// The state at the start of a step: no failure yet.
pub open spec fn start_step(a: AppView) -> AppView {
    AppView { failure: None, ..a }
}

/// The request that ends a step: its failure if there was one.
pub open spec fn step_end(failure: Option<Seq<char>>) -> RequestView {
    match failure {
        Some(e) => RequestView::Failed { error: e },
        None => RequestView::Done,
    }
}

/// Begin `op` on the selected service: enabling first asks for the link, the other
/// operations for their `sv` command; with no service selected, ask for a new scan.
pub open spec fn begin(a: AppView, op: Operation) -> (AppView, RequestView) {
    if a.selected < a.services.len() {
        let s = a.services[a.selected as int];
        if op == Operation::Enable {
            (
                AppView { pending: Pending::Link { index: a.selected }, ..a },
                RequestView::Link { link: joined_path(a.runit.service_dir, s.name), target: s.path },
            )
        } else {
            (
                AppView { pending: Pending::Command { op, index: a.selected }, ..a },
                RequestView::Command { verb: op_verb(op), name: s.name },
            )
        }
    } else {
        rescan(a)
    }
}

/// The state and the next request after the key `key`, which starts a new step.
pub open spec fn on_key(a0: AppView, key: Key) -> (AppView, RequestView) {
    let a = start_step(a0);
    match key {
        Key::Char(c) => if c == 'q' {
            (AppView { pending: Pending::Idle, ..a }, RequestView::Quit)
        } else {
            match key_operation(c) {
                Some(op) => begin(a, op),
                None => rescan(a),
            }
        },
        Key::Up => rescan(AppView { selected: select_up(a), ..a }),
        Key::Down => rescan(AppView { selected: select_down(a), ..a }),
        Key::Other => rescan(a),
    }
}

/// The state and the next request after the reply `r`. A reply that does not
/// answer what the application waits for changes nothing.
pub open spec fn on_reply(a: AppView, r: ReplyView) -> (AppView, RequestView) {
    match a.pending {
        Pending::Command { op, index } => match r {
            ReplyView::Command(c) => if index < a.services.len() {
                match command_outcome(op_verb(op), c) {
                    Err(e) => fail(a, e),
                    Ok(()) => (
                        AppView { pending: Pending::Status { op, index }, ..a },
                        RequestView::Status { name: a.services[index as int].name },
                    ),
                }
            } else {
                (a, RequestView::Done)
            },
            _ => (a, RequestView::Done),
        },
        Pending::Status { op, index } => match r {
            ReplyView::Status(o) => if index < a.services.len() {
                let s = after_status(a.services[index as int], o);
                let b = AppView { services: a.services.update(index as int, s), ..a };
                if op == Operation::Disable {
                    (
                        AppView { pending: Pending::Unlink { index }, ..b },
                        RequestView::Unlink { link: joined_path(a.runit.service_dir, s.name) },
                    )
                } else {
                    rescan(AppView { message: done_message(op, s.name), ..b })
                }
            } else {
                (a, RequestView::Done)
            },
            _ => (a, RequestView::Done),
        },
        Pending::Link { index } => match r {
            ReplyView::Link(l) => if index < a.services.len() {
                match l {
                    Err(e) => fail(a, e),
                    Ok(_) => {
                        let s = ServiceView { enabled: true, ..a.services[index as int] };
                        (
                            AppView {
                                services: a.services.update(index as int, s),
                                pending: Pending::Command { op: Operation::Enable, index },
                                ..a
                            },
                            RequestView::Command { verb: SvVerb::Start, name: s.name },
                        )
                    },
                }
            } else {
                (a, RequestView::Done)
            },
            _ => (a, RequestView::Done),
        },
        Pending::Unlink { index } => match r {
            ReplyView::Unlink(u) => if index < a.services.len() {
                match u {
                    Err(e) => fail(a, e),
                    Ok(()) => {
                        let s = ServiceView { enabled: false, ..a.services[index as int] };
                        rescan(
                            AppView {
                                services: a.services.update(index as int, s),
                                message: done_message(Operation::Disable, s.name),
                                ..a
                            },
                        )
                    },
                }
            } else {
                (a, RequestView::Done)
            },
            _ => (a, RequestView::Done),
        },
        Pending::Rescan => match r {
            ReplyView::Scan { enabled, available } => {
                let l = listing(enabled, available);
                (
                    AppView {
                        services: l,
                        selected: clamp_selection(a.selected, l),
                        pending: Pending::Idle,
                        ..a
                    },
                    step_end(a.failure),
                )
            },
            _ => (a, RequestView::Done),
        },
        Pending::Idle => (a, RequestView::Done),
    }
}

/// The selection is on a service whenever there is one.
pub open spec fn selection_valid(a: AppView) -> bool {
    a.services.len() > 0 ==> a.selected < a.services.len()
}

/// Every key and every reply keeps the selection on a service whenever there is
/// one; after a scan it is so whatever it was before.
pub proof fn lemma_selection_stays_valid(a: AppView, key: Key, r: ReplyView)
    ensures
        selection_valid(a) ==> selection_valid(on_key(a, key).0),
        selection_valid(a) ==> selection_valid(on_reply(a, r).0),
        (a.pending == Pending::Rescan && r is Scan) ==> selection_valid(on_reply(a, r).0),
{
}

/// A key changes neither the services nor the message; only the arrows move the
/// selection.
pub proof fn lemma_key_keeps_services(a: AppView, key: Key)
    ensures
        on_key(a, key).0.services == a.services,
        on_key(a, key).0.message == a.message,
        on_key(a, key).0.runit == a.runit,
        !(key is Up || key is Down) ==> on_key(a, key).0.selected == a.selected,
{
}

/// Moving down and back up returns to the same service when there is one below;
/// moving up and back down does when there is one above.
pub proof fn lemma_arrows_undo(a: AppView)
    requires
        a.services.len() <= usize::MAX,
    ensures
        a.selected + 1 < a.services.len() ==> on_key(on_key(a, Key::Down).0, Key::Up).0.selected
            == a.selected,
        0 < a.selected < a.services.len() ==> on_key(on_key(a, Key::Up).0, Key::Down).0.selected
            == a.selected,
{
}

/// The arrows stop at the ends of the list.
pub proof fn lemma_arrows_stop_at_ends(a: AppView)
    ensures
        a.selected == 0 ==> on_key(a, Key::Up).0.selected == 0,
        a.services.len() > 0 && a.selected == a.services.len() - 1 ==> on_key(a, Key::Down).0.selected
            == a.selected,
{
}

/// `q` asks to quit and changes nothing else but what the application waits for.
pub proof fn lemma_quit(a: AppView)
    ensures
        on_key(a, Key::Char('q')).1 == RequestView::Quit,
        on_key(a, Key::Char('q')).0 == (AppView { pending: Pending::Idle, failure: None, ..a }),
{
}

/// A reply that does not answer what the application waits for changes nothing.
pub proof fn lemma_unexpected_reply(a: AppView, r: ReplyView)
    requires
        !(match (a.pending, r) {
            (Pending::Command { .. }, ReplyView::Command(_)) => true,
            (Pending::Status { .. }, ReplyView::Status(_)) => true,
            (Pending::Link { .. }, ReplyView::Link(_)) => true,
            (Pending::Unlink { .. }, ReplyView::Unlink(_)) => true,
            (Pending::Rescan, ReplyView::Scan { .. }) => true,
            _ => false,
        }),
    ensures
        on_reply(a, r) == (a, RequestView::Done),
{
}

/// Each action key acts on the selected service: `s` asks `sv start`, `x` asks
/// `sv stop`, `r` asks `sv restart`, `d` asks `sv stop` (then removes the link),
/// and `e` asks for the link of the service to its directory (then starts it).
/// With no service selected they only ask for a new scan.
pub proof fn lemma_action_keys(a: AppView)
    ensures
        a.selected < a.services.len() ==> ({
            let s = a.services[a.selected as int];
            &&& on_key(a, Key::Char('s')).1 == RequestView::Command { verb: SvVerb::Start, name: s.name }
            &&& on_key(a, Key::Char('x')).1 == RequestView::Command { verb: SvVerb::Stop, name: s.name }
            &&& on_key(a, Key::Char('r')).1 == RequestView::Command {
                verb: SvVerb::Restart,
                name: s.name,
            }
            &&& on_key(a, Key::Char('d')).1 == RequestView::Command { verb: SvVerb::Stop, name: s.name }
            &&& on_key(a, Key::Char('e')).1 == RequestView::Link {
                link: joined_path(a.runit.service_dir, s.name),
                target: s.path,
            }
        }),
        a.selected >= a.services.len() ==> on_key(a, Key::Char('s')).1 == RequestView::Rescan
            && on_key(a, Key::Char('x')).1 == RequestView::Rescan && on_key(a, Key::Char('r')).1
            == RequestView::Rescan && on_key(a, Key::Char('d')).1 == RequestView::Rescan && on_key(
            a,
            Key::Char('e'),
        ).1 == RequestView::Rescan,
        on_key(a, Key::Up).1 == RequestView::Rescan,
        on_key(a, Key::Down).1 == RequestView::Rescan,
        on_key(a, Key::Other).1 == RequestView::Rescan,
{
}

/// Once the status after a successful command came back, the message names the
/// service and what was done to it: started, stopped or restarted.
pub proof fn lemma_done_messages(a: AppView, op: Operation, index: usize, o: Option<SvOutputView>)
    requires
        a.pending == (Pending::Status { op, index }),
        index < a.services.len(),
        op != Operation::Disable,
    ensures
        ({
            let name = a.services[index as int].name;
            let m = on_reply(a, ReplyView::Status(o)).0.message;
            &&& op == Operation::Start ==> m == "Started service: "@ + name
            &&& op == Operation::Stop ==> m == "Stopped service: "@ + name
            &&& op == Operation::Restart ==> m == "Restarted service: "@ + name
            &&& op == Operation::Enable ==> m == "Enabled and started service: "@ + name
            &&& on_reply(a, ReplyView::Status(o)).1 == RequestView::Rescan
        }),
{
    crate::runit::lemma_after_status(a.services[index as int], o);
}

/// Starting the selected service when `sv` succeeds: the key asks `sv start` for it,
/// then its status is asked, then a new scan; the message says it was started, and
/// after the scan the list is the new listing and the application is idle.
pub proof fn lemma_start_sequence(
    a: AppView,
    out: SvOutputView,
    status: Option<SvOutputView>,
    enabled: Option<Seq<ServiceView>>,
    available: Option<Seq<ServiceView>>,
)
    requires
        a.selected < a.services.len(),
        out.success,
    ensures
        ({
            let name = a.services[a.selected as int].name;
            let (b, r1) = on_key(a, Key::Char('s'));
            let (c, r2) = on_reply(b, ReplyView::Command(Ok(out)));
            let (d, r3) = on_reply(c, ReplyView::Status(status));
            let (e, r4) = on_reply(d, ReplyView::Scan { enabled, available });
            &&& r1 == RequestView::Command { verb: SvVerb::Start, name }
            &&& r2 == RequestView::Status { name }
            &&& r3 == RequestView::Rescan
            &&& r4 == RequestView::Done
            &&& e.message == "Started service: "@ + name
            &&& e.services == listing(enabled, available)
            &&& e.pending == Pending::Idle
        }),
{
    let name = a.services[a.selected as int].name;
    let (b, r1) = on_key(a, Key::Char('s'));
    let (c, r2) = on_reply(b, ReplyView::Command(Ok(out)));
    let (d, r3) = on_reply(c, ReplyView::Status(status));
    crate::runit::lemma_after_status(a.services[a.selected as int], status);
    assert(d.message == "Started service: "@ + name);
}

/// Enabling the selected service when the link and `sv start` succeed: the key asks
/// for the link, then `sv start`, then the status, then a new scan; the service is
/// enabled before it is started, and the message says it was enabled and started.
pub proof fn lemma_enable_sequence(
    a: AppView,
    linked: bool,
    out: SvOutputView,
    status: Option<SvOutputView>,
)
    requires
        a.selected < a.services.len(),
        out.success,
    ensures
        ({
            let i = a.selected as int;
            let s = a.services[i];
            let (b, r1) = on_key(a, Key::Char('e'));
            let (c, r2) = on_reply(b, ReplyView::Link(Ok(linked)));
            let (d, r3) = on_reply(c, ReplyView::Command(Ok(out)));
            let (e, r4) = on_reply(d, ReplyView::Status(status));
            &&& r1 == RequestView::Link {
                link: joined_path(a.runit.service_dir, s.name),
                target: s.path,
            }
            &&& c.services[i].enabled
            &&& r2 == RequestView::Command { verb: SvVerb::Start, name: s.name }
            &&& r3 == RequestView::Status { name: s.name }
            &&& r4 == RequestView::Rescan
            &&& e.services[i].enabled
            &&& e.message == "Enabled and started service: "@ + s.name
        }),
{
    let i = a.selected as int;
    let (b, r1) = on_key(a, Key::Char('e'));
    let (c, r2) = on_reply(b, ReplyView::Link(Ok(linked)));
    let (d, r3) = on_reply(c, ReplyView::Command(Ok(out)));
    crate::runit::lemma_after_status(d.services[i], status);
}

/// Disabling the selected service when `sv stop` and the removal of the link
/// succeed: the key asks `sv stop`, then the status, then the removal of the link,
/// then a new scan; the service is then disabled and the message says so.
pub proof fn lemma_disable_sequence(a: AppView, out: SvOutputView, status: Option<SvOutputView>)
    requires
        a.selected < a.services.len(),
        out.success,
    ensures
        ({
            let i = a.selected as int;
            let s = a.services[i];
            let (b, r1) = on_key(a, Key::Char('d'));
            let (c, r2) = on_reply(b, ReplyView::Command(Ok(out)));
            let (d, r3) = on_reply(c, ReplyView::Status(status));
            let (e, r4) = on_reply(d, ReplyView::Unlink(Ok(())));
            &&& r1 == RequestView::Command { verb: SvVerb::Stop, name: s.name }
            &&& r2 == RequestView::Status { name: s.name }
            &&& r3 == RequestView::Unlink { link: joined_path(a.runit.service_dir, s.name) }
            &&& r4 == RequestView::Rescan
            &&& !e.services[i].enabled
            &&& e.message == "Disabled and stopped service: "@ + s.name
        }),
{
    let i = a.selected as int;
    let (b, r1) = on_key(a, Key::Char('d'));
    let (c, r2) = on_reply(b, ReplyView::Command(Ok(out)));
    crate::runit::lemma_after_status(c.services[i], status);
}

/// When `sv` cannot carry out the operation, the message shows its error output,
/// the services stay as they were until the new scan, and the step ends by
/// reporting the failure.
pub proof fn lemma_command_failure(
    a: AppView,
    c: char,
    stderr: Seq<char>,
    enabled: Option<Seq<ServiceView>>,
    available: Option<Seq<ServiceView>>,
)
    requires
        a.selected < a.services.len(),
        c == 's' || c == 'x' || c == 'r' || c == 'd',
    ensures
        ({
            let (b, _) = on_key(a, Key::Char(c));
            let out = SvOutputView { success: false, stdout: Seq::empty(), stderr };
            let (d, r) = on_reply(b, ReplyView::Command(Ok(out)));
            let (e, r2) = on_reply(d, ReplyView::Scan { enabled, available });
            let verb = op_verb(key_operation(c)->0);
            &&& r == RequestView::Rescan
            &&& d.services == a.services
            &&& d.message == "Error: "@ + crate::runit::failure_text(verb, stderr)
            &&& r2 == RequestView::Failed { error: crate::runit::failure_text(verb, stderr) }
            &&& e.message == d.message
        }),
{
}

/// A step ends with a failure exactly when one of its operations failed: the
/// reply to the scan reports the failure recorded in the step, if any.
pub proof fn lemma_step_end(a: AppView, enabled: Option<Seq<ServiceView>>, available: Option<Seq<ServiceView>>)
    requires
        a.pending == Pending::Rescan,
    ensures
        on_reply(a, ReplyView::Scan { enabled, available }).1 == step_end(a.failure),
        on_reply(a, ReplyView::Scan { enabled, available }).0.pending == Pending::Idle,
{
}

/// The services are in order of their names, each name once.
pub open spec fn services_ordered(a: AppView) -> bool {
    sorted_by_name(a.services) && names_unique(a.services)
}

/// Replacing a service by one with the same name keeps the list ordered.
proof fn lemma_update_same_name(s: Seq<ServiceView>, i: int, x: ServiceView)
    requires
        sorted_by_name(s) && names_unique(s),
        0 <= i < s.len(),
        x.name == s[i].name,
    ensures
        sorted_by_name(s.update(i, x)) && names_unique(s.update(i, x)),
{
    let t = s.update(i, x);
    assert forall|j: int, k: int| 0 <= j < k < t.len() implies chars_le(t[j].name, t[k].name) by {
        assert(t[j].name == s[j].name);
        assert(t[k].name == s[k].name);
    }
    assert forall|j: int, k: int| 0 <= j < t.len() && 0 <= k < t.len() && j != k implies t[j].name
        != t[k].name by {
        assert(t[j].name == s[j].name);
        assert(t[k].name == s[k].name);
    }
}

/// The services shown stay in order of their names, each name once, through every
/// key and every reply, as long as each scan lists its enabled services once each
/// (as the scan of the supervised directories does); after such a scan they are in
/// order whatever they were before. A new application over such a scan starts in
/// order too.
pub proof fn lemma_services_stay_ordered(a: AppView, key: Key, r: ReplyView)
    requires
        r matches ReplyView::Scan { enabled: Some(e), .. } ==> names_unique(e),
    ensures
        services_ordered(a) ==> services_ordered(on_key(a, key).0),
        services_ordered(a) ==> services_ordered(on_reply(a, r).0),
        (a.pending == Pending::Rescan && r is Scan) ==> services_ordered(on_reply(a, r).0),
        forall|en: Seq<ServiceView>, av: Seq<ServiceView>|
            names_unique(en) ==> #[trigger] services_ordered(
                AppView { services: listing(Some(en), Some(av)), ..a },
            ),
{
    assert forall|en: Seq<ServiceView>, av: Seq<ServiceView>| names_unique(en) implies #[trigger] services_ordered(
        AppView { services: listing(Some(en), Some(av)), ..a },
    ) by {
        lemma_listing_unique(Some(en), Some(av));
        lemma_listing_sorted_permutation(Some(en), Some(av));
    }
    match r {
        ReplyView::Scan { enabled, available } => {
            lemma_listing_unique(enabled, available);
            lemma_listing_sorted_permutation(enabled, available);
        },
        _ => {},
    }
    if services_ordered(a) {
        match (a.pending, r) {
            (Pending::Status { op, index }, ReplyView::Status(o)) => {
                if index < a.services.len() {
                    crate::runit::lemma_after_status(a.services[index as int], o);
                    lemma_update_same_name(
                        a.services,
                        index as int,
                        after_status(a.services[index as int], o),
                    );
                }
            },
            (Pending::Link { index }, ReplyView::Link(_)) => {
                if index < a.services.len() {
                    lemma_update_same_name(
                        a.services,
                        index as int,
                        ServiceView { enabled: true, ..a.services[index as int] },
                    );
                }
            },
            (Pending::Unlink { index }, ReplyView::Unlink(_)) => {
                if index < a.services.len() {
                    lemma_update_same_name(
                        a.services,
                        index as int,
                        ServiceView { enabled: false, ..a.services[index as int] },
                    );
                }
            },
            _ => {},
        }
    }
}

/// Every service shown keeps showing one of the four statuses, with a process id
/// only while running, through every key and every reply, as long as each scan's
/// services do (as the scans built from `sv status` do); after such a scan it holds
/// whatever held before.
pub proof fn lemma_statuses_stay_consistent(a: AppView, key: Key, r: ReplyView)
    requires
        r matches ReplyView::Scan { enabled, available } ==> (enabled matches Some(e)
            ==> all_status_consistent(e)) && (available matches Some(v) ==> all_status_consistent(
            v,
        )),
    ensures
        all_status_consistent(a.services) ==> all_status_consistent(on_key(a, key).0.services),
        all_status_consistent(a.services) ==> all_status_consistent(on_reply(a, r).0.services),
        (a.pending == Pending::Rescan && r is Scan) ==> all_status_consistent(
            on_reply(a, r).0.services,
        ),
{
    match r {
        ReplyView::Scan { enabled, available } => {
            let l = listing(enabled, available);
            assert forall|i: int| 0 <= i < l.len() implies #[trigger] status_consistent(l[i]) by {
                assert(l.contains(l[i]));
                lemma_listing_from_inputs(enabled, available, l[i]);
                if let Some(e) = enabled {
                    if e.contains(l[i]) {
                        let k = choose|k: int| 0 <= k < e.len() && e[k] == l[i];
                        assert(status_consistent(e[k]));
                    }
                }
                if let Some(v) = available {
                    if v.contains(l[i]) {
                        let k = choose|k: int| 0 <= k < v.len() && v[k] == l[i];
                        assert(status_consistent(v[k]));
                    }
                }
            }
        },
        _ => {},
    }
    if all_status_consistent(a.services) {
        match (a.pending, r) {
            (Pending::Status { op, index }, ReplyView::Status(o)) => {
                if index < a.services.len() {
                    let s = a.services[index as int];
                    crate::runit::lemma_after_status(s, o);
                    assert(status_consistent(s));
                    let t = a.services.update(index as int, after_status(s, o));
                    assert forall|i: int| 0 <= i < t.len() implies #[trigger] status_consistent(t[i]) by {
                        if i != index {
                            assert(status_consistent(a.services[i]));
                        }
                    }
                }
            },
            (Pending::Link { index }, ReplyView::Link(_)) => {
                if index < a.services.len() {
                    let t = a.services.update(
                        index as int,
                        ServiceView { enabled: true, ..a.services[index as int] },
                    );
                    assert forall|i: int| 0 <= i < t.len() implies #[trigger] status_consistent(t[i]) by {
                        assert(status_consistent(a.services[i]));
                    }
                }
            },
            (Pending::Unlink { index }, ReplyView::Unlink(_)) => {
                if index < a.services.len() {
                    let t = a.services.update(
                        index as int,
                        ServiceView { enabled: false, ..a.services[index as int] },
                    );
                    assert forall|i: int| 0 <= i < t.len() implies #[trigger] status_consistent(t[i]) by {
                        assert(status_consistent(a.services[i]));
                    }
                }
            },
            _ => {},
        }
    }
}

/// The `sv` command that `op` runs first.
fn verb_of(op: Operation) -> (v: SvVerb)
    ensures
        v == op_verb(op),
{
    match op {
        Operation::Start | Operation::Enable => SvVerb::Start,
        Operation::Stop | Operation::Disable => SvVerb::Stop,
        Operation::Restart => SvVerb::Restart,
    }
}

/// The message shown when `op` succeeded on the service `name`.
fn done_text(op: Operation, name: &String) -> (m: String)
    ensures
        m@ == done_message(op, name@),
{
    let prefix = match op {
        Operation::Start => String::from_str("Started service: "),
        Operation::Stop => String::from_str("Stopped service: "),
        Operation::Restart => String::from_str("Restarted service: "),
        Operation::Enable => String::from_str("Enabled and started service: "),
        Operation::Disable => String::from_str("Disabled and stopped service: "),
    };
    prefix.concat(name.as_str())
}

impl App {
    /// Creates the application over the services found: the enabled ones and the
    /// available ones. When either could not be listed, service discovery failed and
    /// its error is returned (the enabled services' first). Otherwise the services
    /// are listed, the first one is selected and the ready message shown.
    pub fn new(enabled: Result<EnabledScan, String>, available: Result<AvailableScan, String>) -> (r:
        Result<App, String>)
        ensures
            r matches Ok(app) ==> services_ordered(app@) && all_status_consistent(app@.services),
            match (enabled, available) {
                (Err(e), _) => r matches Err(m) && m@ == e@,
                (Ok(_), Err(e)) => r matches Err(m) && m@ == e@,
                (Ok(en), Ok(av)) => r matches Ok(app) && app@ == (AppView {
                    services: listing(Some(en@), Some(av@)),
                    selected: 0,
                    message: ready_message(),
                    runit: default_runit(),
                    pending: Pending::Idle,
                    failure: None,
                }),
            },
    {
        let en = match enabled {
            Err(e) => return Err(e),
            Ok(en) => en,
        };
        let av = match available {
            Err(e) => return Err(e),
            Ok(av) => av,
        };
        let runit = Runit::new();
        let en = en.into_services();
        let av = av.into_services();
        let ghost (env, avv) = (en.deep_view(), av.deep_view());
        let services = runit.list_services(Some(en), Some(av));
        proof {
            let a0 = AppView {
                services: Seq::empty(),
                selected: 0,
                message: Seq::empty(),
                runit: default_runit(),
                pending: Pending::Rescan,
                failure: None,
            };
            let r0 = ReplyView::Scan { enabled: Some(env), available: Some(avv) };
            lemma_services_stay_ordered(a0, Key::Other, r0);
            lemma_statuses_stay_consistent(a0, Key::Other, r0);
        }
        Ok(
            App {
                services,
                selected_index: 0,
                message: String::from_str("Ready. Use arrow keys to navigate, keys below to act."),
                runit,
                pending: Pending::Idle,
                failure: None,
            },
        )
    }

    /// Shows the error `e`, records it as the failure of the step and asks for a new
    /// scan.
    fn fail(&mut self, e: String) -> (req: Request)
        ensures
            (final(self)@, req@) == fail(old(self)@, e@),
    {
        self.message = String::from_str("Error: ").concat(e.as_str());
        self.failure = Some(e);
        self.pending = Pending::Rescan;
        Request::Rescan
    }

    /// Asks for a new scan.
    fn rescan(&mut self) -> (req: Request)
        ensures
            (final(self)@, req@) == rescan(old(self)@),
    {
        self.pending = Pending::Rescan;
        Request::Rescan
    }

    /// Begins `op` on the selected service.
    fn begin(&mut self, op: Operation) -> (req: Request)
        ensures
            (final(self)@, req@) == begin(old(self)@, op),
    {
        if self.selected_index < self.services.len() {
            let i = self.selected_index;
            assert(self@.services[i as int] == self.services@[i as int]@);
            if op == Operation::Enable {
                let link = self.runit.link_path(self.services[i].name.as_str());
                let target = self.services[i].path.clone();
                self.pending = Pending::Link { index: i };
                Request::Link { link, target }
            } else {
                let name = self.services[i].name.clone();
                self.pending = Pending::Command { op, index: i };
                Request::Command { verb: verb_of(op), name }
            }
        } else {
            self.rescan()
        }
    }

    /// Handles a key from the user and returns the first piece of work it needs.
    ///
    /// `s`, `x`, `r`, `e` and `d` start, stop, restart, enable (link, then start) and
    /// disable (stop, then unlink) the selected service; `q` quits; the arrows move
    /// the selection. Every key but `q` ends with a new scan of the services.
    pub fn handle_key(&mut self, key: Key) -> (req: Request)
        ensures
            (final(self)@, req@) == on_key(old(self)@, key),
            final(self)@.services == old(self)@.services,
    {
        self.failure = None;
        match key {
            Key::Char(c) => {
                if c == 'q' {
                    self.pending = Pending::Idle;
                    Request::Quit
                } else if c == 's' {
                    self.begin(Operation::Start)
                } else if c == 'x' {
                    self.begin(Operation::Stop)
                } else if c == 'r' {
                    self.begin(Operation::Restart)
                } else if c == 'e' {
                    self.begin(Operation::Enable)
                } else if c == 'd' {
                    self.begin(Operation::Disable)
                } else {
                    self.rescan()
                }
            },
            Key::Up => {
                if self.services.len() > 0 && self.selected_index > 0 {
                    self.selected_index = self.selected_index - 1;
                }
                self.rescan()
            },
            Key::Down => {
                if self.services.len() > 0 && self.selected_index < self.services.len() - 1 {
                    self.selected_index = self.selected_index + 1;
                }
                self.rescan()
            },
            Key::Other => self.rescan(),
        }
    }

    /// Takes what the requested work returned and returns the next piece of work.
    ///
    /// The services stay in order of their names, each name once, and each shows
    /// its state consistently; after a scan this holds whatever held before.
    pub fn resume(&mut self, reply: Reply) -> (req: Request)
        ensures
            (final(self)@, req@) == on_reply(old(self)@, reply@),
            services_ordered(old(self)@) ==> services_ordered(final(self)@),
            all_status_consistent(old(self)@.services) ==> all_status_consistent(
                final(self)@.services,
            ),
            (old(self)@.pending == Pending::Rescan && reply is Scan) ==> services_ordered(
                final(self)@,
            ) && all_status_consistent(final(self)@.services),
    {
        let ghost a = self@;
        let ghost r = reply@;
        match (self.pending, reply) {
            (Pending::Command { op, index }, Reply::Command(c)) => {
                proof {
                    lemma_services_stay_ordered(a, Key::Other, r);
                    lemma_statuses_stay_consistent(a, Key::Other, r);
                }
                self.command_done(op, index, c)
            },
            (Pending::Status { op, index }, Reply::Status(o)) => {
                proof {
                    lemma_services_stay_ordered(a, Key::Other, r);
                    lemma_statuses_stay_consistent(a, Key::Other, r);
                }
                self.status_done(op, index, o)
            },
            (Pending::Link { index }, Reply::Link(l)) => {
                proof {
                    lemma_services_stay_ordered(a, Key::Other, r);
                    lemma_statuses_stay_consistent(a, Key::Other, r);
                }
                self.link_done(index, l)
            },
            (Pending::Unlink { index }, Reply::Unlink(u)) => {
                proof {
                    lemma_services_stay_ordered(a, Key::Other, r);
                    lemma_statuses_stay_consistent(a, Key::Other, r);
                }
                self.unlink_done(index, u)
            },
            (Pending::Rescan, Reply::Scan { enabled, available }) => {
                let en = match enabled {
                    Some(e) => Some(e.into_services()),
                    None => None,
                };
                let av = match available {
                    Some(v) => Some(v.into_services()),
                    None => None,
                };
                proof {
                    lemma_services_stay_ordered(a, Key::Other, r);
                    lemma_statuses_stay_consistent(a, Key::Other, r);
                }
                self.scan_done(en, av)
            },
            _ => Request::Done,
        }
    }

    /// The `sv` command of `op` on the service at `index` returned `c`.
    fn command_done(&mut self, op: Operation, index: usize, c: Result<SvOutput, String>) -> (req:
        Request)
        requires
            old(self)@.pending == (Pending::Command { op, index }),
        ensures
            (final(self)@, req@) == on_reply(old(self)@, ReplyView::Command(sv_reply_view(c))),
    {
        if index < self.services.len() {
            match self.runit.command_result(verb_of(op), &c) {
                Err(e) => self.fail(e),
                Ok(()) => {
                    assert(self@.services[index as int] == self.services@[index as int]@);
                    let name = self.services[index].name.clone();
                    self.pending = Pending::Status { op, index };
                    Request::Status { name }
                },
            }
        } else {
            Request::Done
        }
    }

    /// `sv status` of the service at `index`, run as part of `op`, returned `o`.
    fn status_done(&mut self, op: Operation, index: usize, o: Option<SvOutput>) -> (req: Request)
        requires
            old(self)@.pending == (Pending::Status { op, index }),
        ensures
            (final(self)@, req@) == on_reply(old(self)@, ReplyView::Status(o.deep_view())),
    {
        let ghost before = self.services@;
        if index < self.services.len() {
            let mut s = self.services.remove(index);
            assert(s@ == old(self)@.services[index as int]);
            self.runit.update_service_status(&mut s, o);
            let ghost updated = s@;
            if op == Operation::Disable {
                let link = self.runit.link_path(s.name.as_str());
                self.services.insert(index, s);
                proof {
                    self.lemma_replaced(before, index, updated);
                }
                self.pending = Pending::Unlink { index };
                Request::Unlink { link }
            } else {
                let m = done_text(op, &s.name);
                self.services.insert(index, s);
                proof {
                    self.lemma_replaced(before, index, updated);
                }
                self.message = m;
                self.rescan()
            }
        } else {
            Request::Done
        }
    }

    /// The link of the service at `index` was dealt with: `l`.
    fn link_done(&mut self, index: usize, l: Result<bool, String>) -> (req: Request)
        requires
            old(self)@.pending == (Pending::Link { index }),
        ensures
            (final(self)@, req@) == on_reply(
                old(self)@,
                ReplyView::Link(
                    match l {
                        Ok(b) => Ok(b),
                        Err(e) => Err(e@),
                    },
                ),
            ),
    {
        let ghost before = self.services@;
        if index < self.services.len() {
            let mut s = self.services.remove(index);
            assert(s@ == old(self)@.services[index as int]);
            match self.runit.enable(&mut s, l) {
                Err(e) => {
                    self.services.insert(index, s);
                    proof {
                        self.lemma_replaced(before, index, before[index as int]@);
                        assert(self.services.deep_view() =~= old(self).services.deep_view());
                    }
                    self.fail(e)
                },
                Ok(()) => {
                    s.enabled = true;
                    let ghost updated = s@;
                    let name = s.name.clone();
                    self.services.insert(index, s);
                    proof {
                        self.lemma_replaced(before, index, updated);
                    }
                    self.pending = Pending::Command { op: Operation::Enable, index };
                    Request::Command { verb: SvVerb::Start, name }
                },
            }
        } else {
            Request::Done
        }
    }

    /// The link of the service at `index` was to be removed: `u`.
    fn unlink_done(&mut self, index: usize, u: Result<(), String>) -> (req: Request)
        requires
            old(self)@.pending == (Pending::Unlink { index }),
        ensures
            (final(self)@, req@) == on_reply(
                old(self)@,
                ReplyView::Unlink(
                    match u {
                        Ok(()) => Ok(()),
                        Err(e) => Err(e@),
                    },
                ),
            ),
    {
        let ghost before = self.services@;
        if index < self.services.len() {
            let mut s = self.services.remove(index);
            assert(s@ == old(self)@.services[index as int]);
            match self.runit.disable(&mut s, u) {
                Err(e) => {
                    self.services.insert(index, s);
                    proof {
                        self.lemma_replaced(before, index, before[index as int]@);
                        assert(self.services.deep_view() =~= old(self).services.deep_view());
                    }
                    self.fail(e)
                },
                Ok(()) => {
                    s.enabled = false;
                    let ghost updated = s@;
                    let m = done_text(Operation::Disable, &s.name);
                    self.services.insert(index, s);
                    proof {
                        self.lemma_replaced(before, index, updated);
                    }
                    self.message = m;
                    self.rescan()
                },
            }
        } else {
            Request::Done
        }
    }

    /// The scan found `enabled` and `available`.
    fn scan_done(&mut self, enabled: Option<Vec<Service>>, available: Option<Vec<Service>>) -> (req:
        Request)
        requires
            old(self)@.pending == Pending::Rescan,
        ensures
            (final(self)@, req@) == on_reply(
                old(self)@,
                ReplyView::Scan { enabled: enabled.deep_view(), available: available.deep_view() },
            ),
    {
        let l = self.runit.list_services(enabled, available);
        let n = l.len();
        if self.selected_index >= n && n > 0 {
            self.selected_index = n - 1;
        }
        self.services = l;
        self.pending = Pending::Idle;
        match &self.failure {
            Some(e) => Request::Failed { error: e.clone() },
            None => Request::Done,
        }
    }

    /// After a service was taken out at `index` and put back changed, the list is the
    /// old one with that service replaced.
    proof fn lemma_replaced(&self, before: Seq<Service>, index: usize, updated: ServiceView)
        requires
            index < before.len(),
            self.services@ == before.remove(index as int).insert(index as int, self.services@[index as int]),
            self.services@[index as int]@ == updated,
        ensures
            self.services.deep_view() == Seq::new(before.len(), |i: int| before[i]@).update(
                index as int,
                updated,
            ),
    {
        assert(self.services.deep_view() =~= Seq::new(before.len(), |i: int| before[i]@).update(
            index as int,
            updated,
        ));
    }

    /// The services, in the order shown.
    pub fn services(&self) -> (s: &[Service])
        ensures
            s@.len() == self@.services.len(),
            forall|i: int| 0 <= i < s@.len() ==> #[trigger] s@[i]@ == self@.services[i],
    {
        self.services.as_slice()
    }

    /// The index of the selected service.
    pub fn selected_index(&self) -> (i: usize)
        ensures
            i == self@.selected,
    {
        self.selected_index
    }

    /// The current status message.
    pub fn message(&self) -> (m: &str)
        ensures
            m@ == self@.message,
    {
        self.message.as_str()
    }
}

} // verus!
