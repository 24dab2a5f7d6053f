//! The service table as it is shown: one row per service.
use vstd::prelude::*;
use vstd::string::*;
use crate::listing::is_named;
use crate::service::{status_down, status_finish, status_run, Service, ServiceView};

verus! {

/// The colour a status is shown in.
#[derive(Clone, Copy, Debug, PartialEq, Eq, Structural)]
pub enum StatusTone {
    /// A running service
    Green,
    /// A service that is down
    Red,
    /// A service whose finish script runs
    Yellow,
    /// Any other status
    Gray,
}

/// One row of the service table.
#[derive(Debug)]
pub struct ServiceRow {
    /// The service name
    pub name: String,
    /// The status text
    pub status: String,
    /// The colour of the status
    pub tone: StatusTone,
    /// A filled circle for an enabled service, a hollow one otherwise
    pub enabled_mark: String,
    /// The process id, or `-` when there is none
    pub pid: String,
    /// Whether this row is the selected one
    pub selected: bool,
}

/// What a [`ServiceRow`] holds, as character sequences.
#[verifier::ext_equal]
pub struct ServiceRowView {
    pub name: Seq<char>,
    pub status: Seq<char>,
    pub tone: StatusTone,
    pub enabled_mark: Seq<char>,
    pub pid: Seq<char>,
    pub selected: bool,
}

impl View for ServiceRow {
    type V = ServiceRowView;

    open spec fn view(&self) -> ServiceRowView {
        ServiceRowView {
            name: self.name@,
            status: self.status@,
            tone: self.tone,
            enabled_mark: self.enabled_mark@,
            pid: self.pid@,
            selected: self.selected,
        }
    }
}

/// The colour of a status: green for running, red for down, yellow for finishing,
/// gray otherwise.
pub open spec fn tone_of(status: Seq<char>) -> StatusTone {
    if status == status_run() {
        StatusTone::Green
    } else if status == status_down() {
        StatusTone::Red
    } else if status == status_finish() {
        StatusTone::Yellow
    } else {
        StatusTone::Gray
    }
}

/// The mark of the enabled column: a filled circle when enabled, a hollow one
/// otherwise.
pub open spec fn enabled_mark(enabled: bool) -> Seq<char> {
    if enabled {
        "\u{25cf}"@
    } else {
        "\u{25cb}"@
    }
}

/// The text of the process id column.
pub open spec fn pid_text(pid: Option<Seq<char>>) -> Seq<char> {
    match pid {
        Some(p) => p,
        None => "-"@,
    }
}

/// The row that shows `s`.
pub open spec fn row_of(s: ServiceView, selected: bool) -> ServiceRowView {
    ServiceRowView {
        name: s.name,
        status: s.status,
        tone: tone_of(s.status),
        enabled_mark: enabled_mark(s.enabled),
        pid: pid_text(s.pid),
        selected,
    }
}

/// A row shows the service's name and status as they are, the filled circle
/// exactly when the service is enabled (whatever its status; the two circles
/// differ), its process id or `-`, the colour of its status, and whether it is
/// selected.
pub proof fn lemma_row_shows_service(s: ServiceView, selected: bool)
    ensures
        row_of(s, selected).name == s.name,
        row_of(s, selected).status == s.status,
        row_of(s, selected).selected == selected,
        row_of(s, selected).enabled_mark == (if s.enabled {
            "\u{25cf}"@
        } else {
            "\u{25cb}"@
        }),
        "\u{25cf}"@ != "\u{25cb}"@,
        row_of(s, selected).pid == (match s.pid {
            Some(p) => p,
            None => "-"@,
        }),
        s.status == "run"@ ==> row_of(s, selected).tone == StatusTone::Green,
        s.status == "down"@ ==> row_of(s, selected).tone == StatusTone::Red,
        s.status == "finish"@ ==> row_of(s, selected).tone == StatusTone::Yellow,
        s.status != "run"@ && s.status != "down"@ && s.status != "finish"@ ==> row_of(
            s,
            selected,
        ).tone == StatusTone::Gray,
{
    reveal_strlit("\u{25cf}");
    reveal_strlit("\u{25cb}");
    assert("\u{25cf}"@[0] != "\u{25cb}"@[0]);
    reveal_strlit("run");
    reveal_strlit("down");
    reveal_strlit("finish");
    assert("run"@.len() != "down"@.len());
    assert("run"@.len() != "finish"@.len());
    assert("down"@.len() != "finish"@.len());
}

/// The colour of `status`.
pub fn status_tone(status: &String) -> (t: StatusTone)
    ensures
        t == tone_of(status@),
{
    if is_named(status, "run") {
        StatusTone::Green
    } else if is_named(status, "down") {
        StatusTone::Red
    } else if is_named(status, "finish") {
        StatusTone::Yellow
    } else {
        StatusTone::Gray
    }
}

/// The row that shows `s`.
pub fn service_row(s: &Service, selected: bool) -> (r: ServiceRow)
    ensures
        r@ == row_of(s@, selected),
{
    let mark = if s.enabled {
        String::from_str("\u{25cf}")
    } else {
        String::from_str("\u{25cb}")
    };
    let pid = match &s.pid {
        Some(p) => p.clone(),
        None => String::from_str("-"),
    };
    ServiceRow {
        name: s.name.clone(),
        status: s.status.clone(),
        tone: status_tone(&s.status),
        enabled_mark: mark,
        pid,
        selected,
    }
}

/// The rows of the service table, in order; the row at `selected` is marked.
pub fn service_rows(services: &[Service], selected: usize) -> (rows: Vec<ServiceRow>)
    ensures
        rows@.len() == services@.len(),
        forall|i: int|
            0 <= i < rows@.len() ==> #[trigger] rows@[i]@ == row_of(services@[i]@, i == selected),
{
    let mut rows: Vec<ServiceRow> = Vec::new();
    let mut i: usize = 0;
    while i < services.len()
        invariant
            i <= services@.len(),
            rows@.len() == i,
            forall|k: int| 0 <= k < i ==> #[trigger] rows@[k]@ == row_of(services@[k]@, k == selected),
        decreases services@.len() - i,
    {
        let row = service_row(&services[i], i == selected);
        rows.push(row);
        i = i + 1;
    }
    rows
}

} // verus!
