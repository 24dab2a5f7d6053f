//! The result of scanning the service directories: the services that the
//! directory entries stand for, each refreshed from its `sv status`.
//!
//! An [`EnabledScan`] or [`AvailableScan`] can only be built from directory
//! entries and status outputs, so what it holds is known to be well formed: the
//! enabled services have distinct names, and every service shows one of the four
//! statuses, with a process id only while running.
use vstd::prelude::*;
use crate::listing::{
    available_from, enabled_from, lemma_available_from, lemma_enabled_from, names_unique, DirEntry,
};
use crate::runit::{after_status, lemma_after_status, Runit, SvOutput, SvOutputView};
use crate::service::{is_known_status, status_run, Service, ServiceView};

verus! {

/// `s` shows one of the four statuses, and a process id only while running.
pub open spec fn status_consistent(s: ServiceView) -> bool {
    &&& is_known_status(s.status)
    &&& s.pid is Some ==> s.status == status_run()
}

/// Every service of `s` shows its state consistently.
pub open spec fn all_status_consistent(s: Seq<ServiceView>) -> bool {
    forall|i: int| 0 <= i < s.len() ==> #[trigger] status_consistent(s[i])
}

/// The services of `s`, each refreshed from the status output at the same position
/// of `statuses`; a service without one is refreshed as from a `sv status` that
/// could not be run.
pub open spec fn with_statuses(s: Seq<ServiceView>, statuses: Seq<Option<SvOutputView>>) -> Seq<
    ServiceView,
> {
    Seq::new(
        s.len(),
        |i: int|
            after_status(
                s[i],
                if i < statuses.len() {
                    statuses[i]
                } else {
                    None
                },
            ),
    )
}

/// Refreshing keeps names and enabled flags, and services that were down without a
/// process id come out showing their state consistently.
pub proof fn lemma_with_statuses(s: Seq<ServiceView>, statuses: Seq<Option<SvOutputView>>)
    requires
        forall|i: int| 0 <= i < s.len() ==> (#[trigger] s[i]).pid is None,
    ensures
        with_statuses(s, statuses).len() == s.len(),
        forall|i: int|
            0 <= i < s.len() ==> (#[trigger] with_statuses(s, statuses)[i]).name == s[i].name
                && with_statuses(s, statuses)[i].enabled == s[i].enabled,
        all_status_consistent(with_statuses(s, statuses)),
        names_unique(s) ==> names_unique(with_statuses(s, statuses)),
{
    let r = with_statuses(s, statuses);
    assert forall|i: int| 0 <= i < s.len() implies (#[trigger] r[i]).name == s[i].name
        && r[i].enabled == s[i].enabled && status_consistent(r[i]) by {
        lemma_after_status(
            s[i],
            if i < statuses.len() {
                statuses[i]
            } else {
                None
            },
        );
    }
    assert forall|i: int| 0 <= i < r.len() implies #[trigger] status_consistent(r[i]) by {
        assert(r[i].name == s[i].name && status_consistent(r[i]));
    }
}

/// The enabled services found in the supervised directories, with their status.
#[derive(Debug)]
pub struct EnabledScan {
    services: Vec<Service>,
}

impl View for EnabledScan {
    type V = Seq<ServiceView>;

    closed spec fn view(&self) -> Seq<ServiceView> {
        self.services.deep_view()
    }
}

impl EnabledScan {
    /// Distinct names, all enabled, each showing its state consistently.
    #[verifier::type_invariant]
    closed spec fn well_formed(self) -> bool {
        &&& names_unique(self.services.deep_view())
        &&& all_status_consistent(self.services.deep_view())
        &&& forall|i: int|
            0 <= i < self.services.deep_view().len() ==> #[trigger] self.services.deep_view()[i].enabled
    }

    /// The services found.
    pub fn into_services(self) -> (r: Vec<Service>)
        ensures
            r.deep_view() == self@,
            names_unique(self@),
            all_status_consistent(self@),
    {
        proof {
            use_type_invariant(&self);
        }
        self.services
    }
}

/// The available services found in the definition directories, with their status.
#[derive(Debug)]
pub struct AvailableScan {
    services: Vec<Service>,
}

impl View for AvailableScan {
    type V = Seq<ServiceView>;

    closed spec fn view(&self) -> Seq<ServiceView> {
        self.services.deep_view()
    }
}

impl AvailableScan {
    /// All disabled, each showing its state consistently.
    #[verifier::type_invariant]
    closed spec fn well_formed(self) -> bool {
        &&& all_status_consistent(self.services.deep_view())
        &&& forall|i: int|
            0 <= i < self.services.deep_view().len() ==> !#[trigger] self.services.deep_view()[i].enabled
    }

    /// The services found.
    pub fn into_services(self) -> (r: Vec<Service>)
        ensures
            r.deep_view() == self@,
            all_status_consistent(self@),
    {
        proof {
            use_type_invariant(&self);
        }
        self.services
    }
}

/// The services of `services`, each refreshed from the status output at the same
/// position of `statuses` (as from a `sv status` that could not be run where there
/// is none).
fn apply_statuses(runit: &Runit, services: Vec<Service>, statuses: Vec<Option<SvOutput>>) -> (r: Vec<
    Service,
>)
    ensures
        r.deep_view() == with_statuses(services.deep_view(), statuses.deep_view()),
{
    let ghost sv = services.deep_view();
    let ghost st = statuses.deep_view();
    let mut input = services;
    let mut outs = statuses;
    let mut out: Vec<Service> = Vec::new();
    let total = input.len();
    let mut k: usize = 0;
    assert(sv.skip(0) =~= sv);
    assert(st.skip(0) =~= st);
    assert(out.deep_view() =~= with_statuses(sv.take(0), st));
    while input.len() > 0
        invariant
            total == sv.len(),
            k + input@.len() == sv.len(),
            input.deep_view() == sv.skip(k as int),
            outs.deep_view() == (if k <= st.len() {
                st.skip(k as int)
            } else {
                Seq::<Option<SvOutputView>>::empty()
            }),
            out.deep_view() == with_statuses(sv.take(k as int), st),
        decreases input@.len(),
    {
        let ghost before = out.deep_view();
        let ghost rest = input.deep_view();
        let ghost old_in = input@;
        let mut s = input.remove(0);
        assert(s@ == rest[0]);
        assert(rest[0] == sv[k as int]);
        assert forall|i: int| 0 <= i < input@.len() implies input.deep_view()[i] == sv.skip(
            k + 1,
        )[i] by {
            assert(input@[i] == old_in[i + 1]);
            assert(rest[i + 1] == sv[k + 1 + i]);
        }
        assert(input.deep_view() =~= sv.skip(k + 1));
        let ghost outs_before = outs.deep_view();
        let ghost old_outs = outs@;
        let status = if outs.len() > 0 {
            outs.remove(0)
        } else {
            None
        };
        let ghost expected: Option<SvOutputView> = if k < st.len() {
            st[k as int]
        } else {
            None
        };
        proof {
            if old_outs.len() > 0 {
                assert(outs_before.len() > 0);
                assert(k < st.len());
                assert(status == old_outs[0]);
                assert(status.deep_view() == outs_before[0]);
                assert(outs_before[0] == st[k as int]);
            } else {
                assert(outs_before.len() == 0);
                if k < st.len() {
                    assert(st.skip(k as int).len() > 0);
                }
            }
        }
        assert(status.deep_view() == expected);
        proof {
            if k < st.len() {
                assert forall|i: int| 0 <= i < outs@.len() implies outs.deep_view()[i] == st.skip(
                    k + 1,
                )[i] by {
                    assert(outs@[i] == old_outs[i + 1]);
                    assert(outs_before[i + 1] == st[k + 1 + i]);
                }
                assert(outs.deep_view() =~= st.skip(k + 1));
            } else {
                assert(outs.deep_view() =~= Seq::<Option<SvOutputView>>::empty());
            }
        }
        runit.update_service_status(&mut s, status);
        out.push(s);
        assert(out.deep_view() =~= with_statuses(sv.take(k + 1), st)) by {
            assert(out.deep_view() =~= before.push(after_status(sv[k as int], expected)));
        }
        k = k + 1;
    }
    assert(sv.take(k as int) =~= sv);
    out
}

impl Runit {
    /// The enabled services that the entries of the supervised directories stand for
    /// (as [`Runit::list_enabled_services`] finds them), each refreshed from the
    /// output of its `sv status` at the same position of `statuses`.
    pub fn scan_enabled(&self, entries: &Vec<DirEntry>, statuses: Vec<Option<SvOutput>>) -> (r:
        EnabledScan)
        ensures
            r@ == with_statuses(enabled_from(entries.deep_view()), statuses.deep_view()),
    {
        let found = self.list_enabled_services(entries);
        let services = apply_statuses(self, found, statuses);
        proof {
            let e = enabled_from(entries.deep_view());
            lemma_enabled_from(entries.deep_view());
            lemma_with_statuses(e, statuses.deep_view());
        }
        EnabledScan { services }
    }

    /// The available services that the entries of the definition directories stand
    /// for (as [`Runit::list_available_services`] finds them), each refreshed from the
    /// output of its `sv status` at the same position of `statuses`.
    pub fn scan_available(&self, entries: &Vec<DirEntry>, statuses: Vec<Option<SvOutput>>) -> (r:
        AvailableScan)
        ensures
            r@ == with_statuses(available_from(entries.deep_view()), statuses.deep_view()),
    {
        let found = self.list_available_services(entries);
        let services = apply_statuses(self, found, statuses);
        proof {
            let a = available_from(entries.deep_view());
            lemma_available_from(entries.deep_view());
            lemma_with_statuses(a, statuses.deep_view());
        }
        AvailableScan { services }
    }
}

} // verus!
