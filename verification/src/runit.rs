//! The runit supervisor: where services live, what `sv` reports, and the decisions
//! taken on its answers.
//!
//! Running `sv` and touching the file system is left to the caller; the functions
//! here take what those calls returned and decide what it means for the services.
use vstd::prelude::*;
use vstd::string::*;
use crate::listing::{
    available_from, enabled_from, has_service_named, is_named, listing, merge_services,
    sort_services_by_name, DirEntry,
};
use crate::service::{
    fresh_service, is_known_status, status_down, status_finish, status_run, status_unknown, Service,
    ServiceView,
};
use crate::text::{
    chars_of, contains, find, first_occurrence, has_substring, is_first_occurrence,
    lemma_first_occurrence_unique, occurs_at,
};

verus! {

/// The directory whose links make runit supervise a service.
pub open spec fn default_service_dir() -> Seq<char> {
    "/run/runit/service"@
}

/// The directory of additional runit configurations.
pub open spec fn default_runit_dir() -> Seq<char> {
    "/etc/runit"@
}

/// The default runsvdir, whose services are supervised too.
pub open spec fn default_runsvdir_dir() -> Seq<char> {
    "/etc/runit/runsvdir/default"@
}

/// The directory of service definitions.
pub open spec fn default_sv_dir() -> Seq<char> {
    "/etc/runit/sv"@
}

/// Wrapper for the runit `sv` commands and service directories.
pub struct Runit {
    service_dir: String,
    runit_dir: String,
    runsvdir_dir: String,
    runsvdir_sv_dir: String,
}

/// The directories a [`Runit`] looks in.
pub struct RunitView {
    pub service_dir: Seq<char>,
    pub runit_dir: Seq<char>,
    pub runsvdir_dir: Seq<char>,
    pub runsvdir_sv_dir: Seq<char>,
}

impl View for Runit {
    type V = RunitView;

    closed spec fn view(&self) -> RunitView {
        RunitView {
            service_dir: self.service_dir@,
            runit_dir: self.runit_dir@,
            runsvdir_dir: self.runsvdir_dir@,
            runsvdir_sv_dir: self.runsvdir_sv_dir@,
        }
    }
}

/// The directories runit uses by default.
pub open spec fn default_runit() -> RunitView {
    RunitView {
        service_dir: default_service_dir(),
        runit_dir: default_runit_dir(),
        runsvdir_dir: default_runsvdir_dir(),
        runsvdir_sv_dir: default_sv_dir(),
    }
}

/// What running an `sv` command returned: whether it exited successfully, and its
/// standard output and standard error as text.
#[derive(Debug)]
pub struct SvOutput {
    pub success: bool,
    pub stdout: String,
    pub stderr: String,
}

/// What an [`SvOutput`] holds, as character sequences.
pub struct SvOutputView {
    pub success: bool,
    pub stdout: Seq<char>,
    pub stderr: Seq<char>,
}

impl View for SvOutput {
    type V = SvOutputView;

    open spec fn view(&self) -> SvOutputView {
        SvOutputView { success: self.success, stdout: self.stdout@, stderr: self.stderr@ }
    }
}

impl DeepView for SvOutput {
    type V = SvOutputView;

    open spec fn deep_view(&self) -> SvOutputView {
        self@
    }
}

/// The `sv` commands that change a service's state.
#[derive(Clone, Copy, Debug, PartialEq, Eq, Structural)]
pub enum SvVerb {
    Start,
    Stop,
    Restart,
}

/// A reply text as characters; an error keeps its message.
pub open spec fn outcome_view(r: Result<(), String>) -> Result<(), Seq<char>> {
    match r {
        Ok(()) => Ok(()),
        Err(e) => Err(e@),
    }
}

/// What running a command returned, as character sequences; a failure to run it
/// keeps its message.
pub open spec fn sv_reply_view(r: Result<SvOutput, String>) -> Result<SvOutputView, Seq<char>> {
    match r {
        Ok(o) => Ok(o@),
        Err(e) => Err(e@),
    }
}

/// The error text when `sv` reports that it could not carry out `verb`.
pub open spec fn failure_text(verb: SvVerb, stderr: Seq<char>) -> Seq<char> {
    match verb {
        SvVerb::Start => "Failed to start service: "@ + stderr,
        SvVerb::Stop => "Failed to stop service: "@ + stderr,
        SvVerb::Restart => "Failed to restart service: "@ + stderr,
    }
}

/// The outcome of an `sv` command: the error of running it, the failure it
/// reported, or success.
pub open spec fn command_outcome(verb: SvVerb, reply: Result<SvOutputView, Seq<char>>) -> Result<
    (),
    Seq<char>,
> {
    match reply {
        Err(e) => Err(e),
        Ok(o) => if o.success {
            Ok(())
        } else {
            Err(failure_text(verb, o.stderr))
        },
    }
}

/// The process id that `sv status` reports: the text between the first `(pid ` and
/// the first `)` after it.
pub open spec fn pid_in(text: Seq<char>) -> Option<Seq<char>> {
    let marker = "(pid "@;
    if has_substring(text, marker) {
        let rest = text.skip(first_occurrence(text, marker) + marker.len());
        if has_substring(rest, ")"@) {
            Some(rest.take(first_occurrence(rest, ")"@)))
        } else {
            None
        }
    } else {
        None
    }
}

/// The service after reading what `sv status` reported (`None` when it could not be
/// run). The combined output decides, first match wins: `run:` means running, with
/// the reported process id when there is one (otherwise the previous one is kept);
/// `down:` means down; `finish:` means finishing; a `warning:` means running when
/// the command succeeded and down when it failed; anything else is unknown.
pub open spec fn after_status(s: ServiceView, output: Option<SvOutputView>) -> ServiceView {
    match output {
        None => ServiceView { status: status_unknown(), pid: None, ..s },
        Some(o) => {
            let text = o.stdout + o.stderr;
            if has_substring(text, "run:"@) {
                ServiceView {
                    status: status_run(),
                    pid: if pid_in(text) is Some {
                        pid_in(text)
                    } else {
                        s.pid
                    },
                    ..s
                }
            } else if has_substring(text, "down:"@) {
                ServiceView { status: status_down(), pid: None, ..s }
            } else if has_substring(text, "finish:"@) {
                ServiceView { status: status_finish(), pid: None, ..s }
            } else if has_substring(text, "warning:"@) && o.success {
                ServiceView { status: status_run(), pid: None, ..s }
            } else if has_substring(text, "warning:"@) {
                ServiceView { status: status_down(), pid: None, ..s }
            } else {
                ServiceView { status: status_unknown(), pid: None, ..s }
            }
        },
    }
}

/// The service after `sv <verb>` returned `reply`: refreshed from `status` when the
/// command succeeded, unchanged otherwise.
pub open spec fn after_command(
    s: ServiceView,
    verb: SvVerb,
    reply: Result<SvOutputView, Seq<char>>,
    status: Option<SvOutputView>,
) -> ServiceView {
    match command_outcome(verb, reply) {
        Ok(()) => after_status(s, status),
        Err(_) => s,
    }
}

/// The path of `name` inside `dir`, as joining paths gives it: an absolute `name`
/// stands for itself, any other is placed under `dir`.
pub open spec fn joined_path(dir: Seq<char>, name: Seq<char>) -> Seq<char> {
    if name.len() > 0 && name[0] == '/' {
        name
    } else {
        dir + "/"@ + name
    }
}

/// Reading `sv status` shows one of the four statuses, keeps the service's name,
/// path and enabled state, and never shows a process id on a service that is not
/// running (when that held before).
pub proof fn lemma_after_status(s: ServiceView, output: Option<SvOutputView>)
    ensures
        is_known_status(after_status(s, output).status),
        after_status(s, output).name == s.name,
        after_status(s, output).path == s.path,
        after_status(s, output).enabled == s.enabled,
        (s.pid is Some ==> s.status == status_run()) ==> (after_status(s, output).pid is Some
            ==> after_status(s, output).status == status_run()),
{
}

/// The process id that `sv status` reports between `(pid ` and `)` is found, when
/// the text before it has no `(` and the id has no `)`.
pub proof fn lemma_pid_in_reported(prefix: Seq<char>, pid: Seq<char>, suffix: Seq<char>)
    requires
        !prefix.contains('('),
        !pid.contains(')'),
    ensures
        pid_in(prefix + "(pid "@ + pid + ")"@ + suffix) == Some(pid),
{
    reveal_strlit("(pid ");
    reveal_strlit(")");
    let m = "(pid "@;
    let c = ")"@;
    let text = prefix + m + pid + c + suffix;
    let p = prefix.len() as int;
    assert(m.len() == 5 && m[0] == '(');
    assert(c.len() == 1 && c[0] == ')');
    assert(text.subrange(p, p + m.len()) =~= m);
    assert forall|j: int| 0 <= j < p implies !occurs_at(text, m, j) by {
        if occurs_at(text, m, j) {
            assert(text.subrange(j, j + m.len())[0] == m[0]);
            assert(text[j] == prefix[j]);
            assert(prefix.contains(prefix[j]));
        }
    }
    assert(is_first_occurrence(text, m, p));
    lemma_first_occurrence_unique(text, m, p);
    let rest = text.skip(p + m.len());
    assert(rest =~= pid + c + suffix);
    let q = pid.len() as int;
    assert(rest.subrange(q, q + 1) =~= c);
    assert forall|j: int| 0 <= j < q implies !occurs_at(rest, c, j) by {
        if occurs_at(rest, c, j) {
            assert(rest.subrange(j, j + 1)[0] == c[0]);
            assert(rest[j] == pid[j]);
            assert(pid.contains(pid[j]));
        }
    }
    assert(is_first_occurrence(rest, c, q));
    lemma_first_occurrence_unique(rest, c, q);
    assert(rest.take(q) =~= pid);
}

/// When `sv status` reports `run:` together with a process id, the refreshed
/// service is running with exactly that process id, whatever process id it showed
/// before.
pub proof fn lemma_status_takes_reported_pid(s: ServiceView, o: SvOutputView)
    requires
        has_substring(o.stdout + o.stderr, "run:"@),
        pid_in(o.stdout + o.stderr) is Some,
    ensures
        after_status(s, Some(o)).status == "run"@,
        after_status(s, Some(o)).pid == pid_in(o.stdout + o.stderr),
        forall|t: ServiceView| #[trigger] after_status(t, Some(o)).pid == after_status(s, Some(o)).pid,
{
}

/// For output of the form `<prefix>(pid N)<suffix>` that reports `run:`, where the
/// prefix has no `(` and N has no `)`, the refreshed service is running with
/// process id N, whatever process id it showed before.
pub proof fn lemma_status_reports_pid(
    s: ServiceView,
    o: SvOutputView,
    prefix: Seq<char>,
    pid: Seq<char>,
    suffix: Seq<char>,
)
    requires
        o.stdout + o.stderr == prefix + "(pid "@ + pid + ")"@ + suffix,
        has_substring(o.stdout + o.stderr, "run:"@),
        !prefix.contains('('),
        !pid.contains(')'),
    ensures
        after_status(s, Some(o)).status == "run"@,
        after_status(s, Some(o)).pid == Some(pid),
{
    lemma_pid_in_reported(prefix, pid, suffix);
}

/// The status shown follows the markers of the `sv status` output, in this order of
/// precedence: `run:` means running; otherwise `down:` means down and `finish:`
/// finishing, both without a process id; otherwise a `warning:` means running
/// (without a process id) when the command succeeded and down when it failed;
/// otherwise, and when the command could not be run, the status is unknown. Name,
/// path and enabled state never change.
pub proof fn lemma_status_markers(s: ServiceView, o: SvOutputView)
    ensures
        ({
            let t = o.stdout + o.stderr;
            let r = after_status(s, Some(o));
            &&& has_substring(t, "run:"@) ==> r.status == "run"@
            &&& !has_substring(t, "run:"@) && has_substring(t, "down:"@) ==> r.status == "down"@
                && r.pid is None
            &&& !has_substring(t, "run:"@) && !has_substring(t, "down:"@) && has_substring(
                t,
                "finish:"@,
            ) ==> r.status == "finish"@ && r.pid is None
            &&& !has_substring(t, "run:"@) && !has_substring(t, "down:"@) && !has_substring(
                t,
                "finish:"@,
            ) && has_substring(t, "warning:"@) ==> r.pid is None && r.status == (if o.success {
                "run"@
            } else {
                "down"@
            })
            &&& !has_substring(t, "run:"@) && !has_substring(t, "down:"@) && !has_substring(
                t,
                "finish:"@,
            ) && !has_substring(t, "warning:"@) ==> r.status == "unknown"@ && r.pid is None
            &&& r.name == s.name && r.path == s.path && r.enabled == s.enabled
        }),
        after_status(s, None).status == "unknown"@,
        after_status(s, None).pid is None,
{
}

/// The outcome of an `sv` command follows its exit status alone: success gives
/// `Ok(())` for every verb, whatever the command printed; failure gives the
/// verb's failure message followed by the command's standard error, whatever it
/// printed on standard output; a command that could not be run gives its error.
pub proof fn lemma_command_outcome_follows_exit(verb: SvVerb, o: SvOutputView, e: Seq<char>)
    ensures
        o.success ==> command_outcome(verb, Ok(o)) == Ok::<(), Seq<char>>(()),
        !o.success ==> command_outcome(verb, Ok(o)) == Err::<(), Seq<char>>(
            match verb {
                SvVerb::Start => "Failed to start service: "@ + o.stderr,
                SvVerb::Stop => "Failed to stop service: "@ + o.stderr,
                SvVerb::Restart => "Failed to restart service: "@ + o.stderr,
            },
        ),
        forall|o2: SvOutputView|
            o2.success == o.success && o2.stderr == o.stderr ==> #[trigger] command_outcome(
                verb,
                Ok(o2),
            ) == command_outcome(verb, Ok(o)),
        command_outcome(verb, Err(e)) == Err::<(), Seq<char>>(e),
{
}

impl Runit {
    /// Creates a new Runit instance with the default directories.
    pub fn new() -> (r: Runit)
        ensures
            r@ == default_runit(),
    {
        Runit {
            service_dir: String::from_str("/run/runit/service"),
            runit_dir: String::from_str("/etc/runit"),
            runsvdir_dir: String::from_str("/etc/runit/runsvdir/default"),
            runsvdir_sv_dir: String::from_str("/etc/runit/sv"),
        }
    }

    /// The directories scanned for enabled services, in the order they are scanned.
    pub fn enabled_dirs(&self) -> (dirs: Vec<String>)
        ensures
            dirs.deep_view() == seq![self@.service_dir, self@.runsvdir_dir],
    {
        let mut dirs: Vec<String> = Vec::new();
        dirs.push(self.service_dir.clone());
        dirs.push(self.runsvdir_dir.clone());
        assert(dirs.deep_view() =~= seq![self@.service_dir, self@.runsvdir_dir]);
        dirs
    }

    /// The directories scanned for available services, in the order they are scanned.
    pub fn available_dirs(&self) -> (dirs: Vec<String>)
        ensures
            dirs.deep_view() == seq![self@.runit_dir, self@.runsvdir_sv_dir],
    {
        let mut dirs: Vec<String> = Vec::new();
        dirs.push(self.runit_dir.clone());
        dirs.push(self.runsvdir_sv_dir.clone());
        assert(dirs.deep_view() =~= seq![self@.runit_dir, self@.runsvdir_sv_dir]);
        dirs
    }

    /// The link in the service directory that enables the service `name`.
    pub fn link_path(&self, name: &str) -> (p: String)
        ensures
            p@ == joined_path(self@.service_dir, name@),
    {
        if name.unicode_len() > 0 && name.get_char(0) == '/' {
            String::from_str(name)
        } else {
            self.service_dir.clone().concat("/").concat(name)
        }
    }

    /// The enabled services that the entries of the supervised directories stand for:
    /// directories and links other than `log` and `current`, each name once, in the
    /// order found. Each is enabled, down and without a process id.
    pub fn list_enabled_services(&self, entries: &Vec<DirEntry>) -> (r: Vec<Service>)
        ensures
            r.deep_view() == enabled_from(entries.deep_view()),
    {
        let ghost all = entries.deep_view();
        let mut out: Vec<Service> = Vec::new();
        let mut i: usize = 0;
        assert(out.deep_view() =~= enabled_from(all.take(0)));
        while i < entries.len()
            invariant
                all == entries.deep_view(),
                i <= entries@.len(),
                out.deep_view() == enabled_from(all.take(i as int)),
            decreases entries@.len() - i,
        {
            let e = &entries[i];
            assert(all.take(i + 1).drop_last() =~= all.take(i as int));
            assert(all.take(i + 1).last() == e@);
            let ghost before = out.deep_view();
            let wanted = (e.is_dir || e.is_symlink) && !is_named(&e.name, "log") && !is_named(
                &e.name,
                "current",
            );
            if wanted && !has_service_named(&out, &e.name) {
                let mut s = Service::new(e.name.clone(), e.path.clone());
                s.enabled = true;
                out.push(s);
                assert(out.deep_view() =~= before.push(fresh_service(e.name@, e.path@, true)));
            }
            i = i + 1;
        }
        assert(all.take(entries@.len() as int) =~= all);
        out
    }

    /// The available services that the entries of the definition directories stand for:
    /// directories with a `run` script other than `template`, `services` and
    /// `runsvdir`, in the order found. Each is disabled, down and without a process id.
    pub fn list_available_services(&self, entries: &Vec<DirEntry>) -> (r: Vec<Service>)
        ensures
            r.deep_view() == available_from(entries.deep_view()),
    {
        let ghost all = entries.deep_view();
        let mut out: Vec<Service> = Vec::new();
        let mut i: usize = 0;
        assert(out.deep_view() =~= available_from(all.take(0)));
        while i < entries.len()
            invariant
                all == entries.deep_view(),
                i <= entries@.len(),
                out.deep_view() == available_from(all.take(i as int)),
            decreases entries@.len() - i,
        {
            let e = &entries[i];
            assert(all.take(i + 1).drop_last() =~= all.take(i as int));
            assert(all.take(i + 1).last() == e@);
            let ghost before = out.deep_view();
            if e.is_dir && !is_named(&e.name, "template") && !is_named(&e.name, "services")
                && !is_named(&e.name, "runsvdir") && e.has_run_script {
                let mut s = Service::new(e.name.clone(), e.path.clone());
                s.enabled = false;
                out.push(s);
                assert(out.deep_view() =~= before.push(fresh_service(e.name@, e.path@, false)));
            }
            i = i + 1;
        }
        assert(all.take(entries@.len() as int) =~= all);
        out
    }

    /// Lists all available and enabled services: the enabled ones (when they could
    /// be listed), then each available one whose name is not listed yet (when they
    /// could be listed), sorted by name.
    pub fn list_services(
        &self,
        enabled: Option<Vec<Service>>,
        available: Option<Vec<Service>>,
    ) -> (r: Vec<Service>)
        ensures
            r.deep_view() == listing(enabled.deep_view(), available.deep_view()),
    {
        sort_services_by_name(merge_services(enabled, available))
    }

    /// Extracts the process id from `sv status` output: the text between the first
    /// `(pid ` and the first `)` after it.
    pub fn extract_pid(&self, status_output: &str) -> (r: Option<String>)
        ensures
            r.deep_view() == pid_in(status_output@),
    {
        let text = chars_of(status_output);
        let marker = chars_of("(pid ");
        match find(&text, &marker) {
            None => None,
            Some(start) => {
                proof {
                    lemma_first_occurrence_unique(text@, marker@, start as int);
                }
                let n = text.len();
                assert(start + marker@.len() <= n);
                let from = start + marker.len();
                let rest = chars_of(status_output.substring_char(from, n));
                assert(rest@ =~= text@.skip(from as int));
                let close = chars_of(")");
                match find(&rest, &close) {
                    None => None,
                    Some(end) => {
                        proof {
                            lemma_first_occurrence_unique(rest@, close@, end as int);
                        }
                        let pid = String::from_str(status_output.substring_char(from, from + end));
                        assert(pid@ =~= rest@.take(end as int));
                        Some(pid)
                    },
                }
            },
        }
    }

    /// Updates the service from what `sv status` reported (`None` when the command
    /// could not be run).
    pub fn update_service_status(&self, service: &mut Service, output: Option<SvOutput>)
        ensures
            final(service)@ == after_status(old(service)@, output.deep_view()),
    {
        match output {
            None => {
                service.status = String::from_str("unknown");
                service.pid = None;
            },
            Some(o) => {
                let success = o.success;
                let mut combined = o.stdout;
                combined.append(o.stderr.as_str());
                let text = chars_of(combined.as_str());
                if contains(&text, &chars_of("run:")) {
                    service.status = String::from_str("run");
                    if let Some(pid) = self.extract_pid(combined.as_str()) {
                        service.pid = Some(pid);
                    }
                } else if contains(&text, &chars_of("down:")) {
                    service.status = String::from_str("down");
                    service.pid = None;
                } else if contains(&text, &chars_of("finish:")) {
                    service.status = String::from_str("finish");
                    service.pid = None;
                } else if contains(&text, &chars_of("warning:")) && success {
                    service.status = String::from_str("run");
                    service.pid = None;
                } else if contains(&text, &chars_of("warning:")) {
                    service.status = String::from_str("down");
                    service.pid = None;
                } else {
                    service.status = String::from_str("unknown");
                    service.pid = None;
                }
            },
        }
    }

    /// The outcome of an `sv` command for `verb`: the error of running it, the
    /// failure `sv` reported (with its standard error), or success.
    pub fn command_result(&self, verb: SvVerb, reply: &Result<SvOutput, String>) -> (r: Result<
        (),
        String,
    >)
        ensures
            outcome_view(r) == command_outcome(verb, sv_reply_view(*reply)),
    {
        match reply {
            Err(e) => Err(e.clone()),
            Ok(o) => {
                if o.success {
                    Ok(())
                } else {
                    let prefix = match verb {
                        SvVerb::Start => String::from_str("Failed to start service: "),
                        SvVerb::Stop => String::from_str("Failed to stop service: "),
                        SvVerb::Restart => String::from_str("Failed to restart service: "),
                    };
                    Err(prefix.concat(o.stderr.as_str()))
                }
            },
        }
    }

    /// Runs the outcome of `sv <verb>` on `service` through: when the command
    /// succeeded, the service is refreshed from what the `sv status` run after it
    /// returned (`status`, `None` when it could not be run); when running the
    /// command failed or `sv` reported a failure, the error is returned and the
    /// service is left as it was (`status` is then not used).
    pub fn run_verb(
        &self,
        verb: SvVerb,
        service: &mut Service,
        reply: &Result<SvOutput, String>,
        status: Option<SvOutput>,
    ) -> (r: Result<(), String>)
        ensures
            outcome_view(r) == command_outcome(verb, sv_reply_view(*reply)),
            final(service)@ == after_command(old(service)@, verb, sv_reply_view(*reply), status.deep_view()),
    {
        let outcome = self.command_result(verb, reply);
        match outcome {
            Ok(()) => {
                self.update_service_status(service, status);
                Ok(())
            },
            Err(e) => Err(e),
        }
    }

    /// Starts a service: the outcome of `sv start` (`reply`), and on success the
    /// service refreshed from the `sv status` that followed (`status`).
    pub fn start(&self, service: &mut Service, reply: &Result<SvOutput, String>, status: Option<SvOutput>) -> (r: Result<(), String>)
        ensures
            outcome_view(r) == command_outcome(SvVerb::Start, sv_reply_view(*reply)),
            final(service)@ == after_command(old(service)@, SvVerb::Start, sv_reply_view(*reply), status.deep_view()),
    {
        self.run_verb(SvVerb::Start, service, reply, status)
    }

    /// Stops a service: the outcome of `sv stop` (`reply`), and on success the
    /// service refreshed from the `sv status` that followed (`status`).
    pub fn stop(&self, service: &mut Service, reply: &Result<SvOutput, String>, status: Option<SvOutput>) -> (r: Result<(), String>)
        ensures
            outcome_view(r) == command_outcome(SvVerb::Stop, sv_reply_view(*reply)),
            final(service)@ == after_command(old(service)@, SvVerb::Stop, sv_reply_view(*reply), status.deep_view()),
    {
        self.run_verb(SvVerb::Stop, service, reply, status)
    }

    /// Restarts a service: the outcome of `sv restart` (`reply`), and on success the
    /// service refreshed from the `sv status` that followed (`status`).
    pub fn restart(&self, service: &mut Service, reply: &Result<SvOutput, String>, status: Option<SvOutput>) -> (r: Result<(), String>)
        ensures
            outcome_view(r) == command_outcome(SvVerb::Restart, sv_reply_view(*reply)),
            final(service)@ == after_command(old(service)@, SvVerb::Restart, sv_reply_view(*reply), status.deep_view()),
    {
        self.run_verb(SvVerb::Restart, service, reply, status)
    }

    /// Enables a service once its link in the service directory was dealt with:
    /// `Ok(true)` when the link was created, `Ok(false)` when it already existed —
    /// either way the service is linked and is then marked enabled — or the error of
    /// creating it (nothing changes).
    pub fn enable(&self, service: &mut Service, linked: Result<bool, String>) -> (r: Result<
        (),
        String,
    >)
        ensures
            outcome_view(r) == match linked {
                Ok(_) => Ok(()),
                Err(e) => Err(e@),
            },
            final(service)@ == (match linked {
                Ok(_) => ServiceView { enabled: true, ..old(service)@ },
                Err(_) => old(service)@,
            }),
    {
        match linked {
            Err(e) => Err(e),
            Ok(_) => {
                service.enabled = true;
                Ok(())
            },
        }
    }

    /// Disables a service once its link was dealt with: `Ok(())` when the link is gone
    /// (the service is then disabled), or the error of removing it (nothing changes).
    pub fn disable(&self, service: &mut Service, unlinked: Result<(), String>) -> (r: Result<
        (),
        String,
    >)
        ensures
            outcome_view(r) == outcome_view(unlinked),
            final(service)@ == (match unlinked {
                Ok(()) => ServiceView { enabled: false, ..old(service)@ },
                Err(_) => old(service)@,
            }),
    {
        match unlinked {
            Err(e) => Err(e),
            Ok(()) => {
                service.enabled = false;
                Ok(())
            },
        }
    }
}

} // verus!
