//! Building the list of services from what the service directories hold.
//!
//! Enabled services come from the directories runit supervises, available ones
//! from the directories that hold service definitions. The shown list keeps each
//! enabled service, adds each available service whose name is not listed yet, and
//! sorts the result by name (stably).
use vstd::prelude::*;
use vstd::string::*;
use crate::service::{fresh_service, status_down, Service, ServiceView};
use crate::text::{
    chars_le, chars_le_exec, chars_of, lemma_chars_le_antisymmetric, lemma_chars_le_total,
    lemma_chars_le_transitive,
};

verus! {

broadcast use vstd::seq_lib::group_to_multiset_ensures;

/// One entry found in a service directory, as the file system reports it.
#[derive(Debug)]
pub struct DirEntry {
    /// The entry's file name
    pub name: String,
    /// The entry's full path
    pub path: String,
    /// Whether the path is a directory (following links)
    pub is_dir: bool,
    /// Whether the path itself is a symbolic link
    pub is_symlink: bool,
    /// Whether the directory holds a `run` script
    pub has_run_script: bool,
}

/// What a [`DirEntry`] holds, as character sequences.
pub struct DirEntryView {
    pub name: Seq<char>,
    pub path: Seq<char>,
    pub is_dir: bool,
    pub is_symlink: bool,
    pub has_run_script: bool,
}

impl View for DirEntry {
    type V = DirEntryView;

    open spec fn view(&self) -> DirEntryView {
        DirEntryView {
            name: self.name@,
            path: self.path@,
            is_dir: self.is_dir,
            is_symlink: self.is_symlink,
            has_run_script: self.has_run_script,
        }
    }
}

impl DeepView for DirEntry {
    type V = DirEntryView;

    open spec fn deep_view(&self) -> DirEntryView {
        self@
    }
}

/// Some service in `s` has the name `name`.
pub open spec fn has_name(s: Seq<ServiceView>, name: Seq<char>) -> bool {
    exists|i: int| 0 <= i < s.len() && s[i].name == name
}

/// No two services in `s` share a name.
pub open spec fn names_unique(s: Seq<ServiceView>) -> bool {
    forall|i: int, j: int| 0 <= i < s.len() && 0 <= j < s.len() && i != j ==> s[i].name != s[j].name
}

/// The services of `s` are in order of their names.
pub open spec fn sorted_by_name(s: Seq<ServiceView>) -> bool {
    forall|i: int, j: int| 0 <= i < j < s.len() ==> chars_le(s[i].name, s[j].name)
}

/// An entry of a supervised directory that stands for a service: a directory or a
/// link, other than the `log` and `current` entries.
pub open spec fn is_enabled_entry(e: DirEntryView) -> bool {
    &&& e.is_dir || e.is_symlink
    &&& e.name != "log"@
    &&& e.name != "current"@
}

/// An entry of a definition directory that stands for a service: a directory with a
/// `run` script, other than `template`, `services` and `runsvdir`.
pub open spec fn is_available_entry(e: DirEntryView) -> bool {
    &&& e.is_dir
    &&& e.name != "template"@
    &&& e.name != "services"@
    &&& e.name != "runsvdir"@
    &&& e.has_run_script
}

/// The enabled services that the entries of the supervised directories stand for,
/// in the order found, each name once (the first entry with a name wins).
pub open spec fn enabled_from(entries: Seq<DirEntryView>) -> Seq<ServiceView>
    decreases entries.len(),
{
    if entries.len() == 0 {
        Seq::empty()
    } else {
        let prev = enabled_from(entries.drop_last());
        let e = entries.last();
        if is_enabled_entry(e) && !has_name(prev, e.name) {
            prev.push(fresh_service(e.name, e.path, true))
        } else {
            prev
        }
    }
}

/// The available services that the entries of the definition directories stand for,
/// in the order found.
pub open spec fn available_from(entries: Seq<DirEntryView>) -> Seq<ServiceView>
    decreases entries.len(),
{
    if entries.len() == 0 {
        Seq::empty()
    } else {
        let prev = available_from(entries.drop_last());
        let e = entries.last();
        if is_available_entry(e) {
            prev.push(fresh_service(e.name, e.path, false))
        } else {
            prev
        }
    }
}

/// `acc` followed by each service of `extra`, in order, whose name is not listed yet.
pub open spec fn add_missing(acc: Seq<ServiceView>, extra: Seq<ServiceView>) -> Seq<ServiceView>
    decreases extra.len(),
{
    if extra.len() == 0 {
        acc
    } else {
        let prev = add_missing(acc, extra.drop_last());
        if has_name(prev, extra.last().name) {
            prev
        } else {
            prev.push(extra.last())
        }
    }
}

/// The enabled services (when they could be listed) followed by the available ones
/// not listed yet (when they could be listed).
pub open spec fn merge_listings(
    enabled: Option<Seq<ServiceView>>,
    available: Option<Seq<ServiceView>>,
) -> Seq<ServiceView> {
    let base = match enabled {
        Some(e) => e,
        None => Seq::empty(),
    };
    match available {
        Some(a) => add_missing(base, a),
        None => base,
    }
}

/// `s` with `x` placed after every service whose name is at most `x`'s, where `s`
/// is sorted.
pub open spec fn insert_by_name(s: Seq<ServiceView>, x: ServiceView) -> Seq<ServiceView>
    decreases s.len(),
{
    if s.len() == 0 {
        seq![x]
    } else if chars_le(s.last().name, x.name) {
        s.push(x)
    } else {
        insert_by_name(s.drop_last(), x).push(s.last())
    }
}

/// `s` sorted by name; services with equal names keep their order.
pub open spec fn sort_by_name(s: Seq<ServiceView>) -> Seq<ServiceView>
    decreases s.len(),
{
    if s.len() == 0 {
        s
    } else {
        insert_by_name(sort_by_name(s.drop_last()), s.last())
    }
}

/// The list of services shown: the merged listings, sorted by name.
pub open spec fn listing(
    enabled: Option<Seq<ServiceView>>,
    available: Option<Seq<ServiceView>>,
) -> Seq<ServiceView> {
    sort_by_name(merge_listings(enabled, available))
}

// ---------------------------------------------------------------------------
// Lemmas on insertion
// ---------------------------------------------------------------------------

/// Inserting `x` by name puts it at the position before the trailing services whose
/// names are greater than `x`'s.
pub proof fn lemma_insert_by_name_at(s: Seq<ServiceView>, x: ServiceView, j: int)
    requires
        0 <= j <= s.len(),
        forall|k: int| j <= k < s.len() ==> !chars_le(#[trigger] s[k].name, x.name),
        j > 0 ==> chars_le(s[j - 1].name, x.name),
    ensures
        insert_by_name(s, x) == s.insert(j, x),
    decreases s.len(),
{
    if s.len() == 0 {
        assert(s.insert(j, x) =~= seq![x]);
    } else if j == s.len() {
        assert(s.insert(j, x) =~= s.push(x));
    } else {
        assert(!chars_le(s[s.len() - 1].name, x.name));
        let d = s.drop_last();
        assert forall|k: int| j <= k < d.len() implies !chars_le(#[trigger] d[k].name, x.name) by {
            assert(d[k] == s[k]);
        }
        lemma_insert_by_name_at(d, x, j);
        assert(s.insert(j, x) =~= d.insert(j, x).push(s.last()));
    }
}

/// Inserting keeps every service and adds `x`, as a multiset.
pub proof fn lemma_insert_by_name_multiset(s: Seq<ServiceView>, x: ServiceView)
    ensures
        insert_by_name(s, x).to_multiset() =~= s.to_multiset().insert(x),
        insert_by_name(s, x).len() == s.len() + 1,
    decreases s.len(),
{
    if s.len() == 0 {
        assert(seq![x] =~= s.push(x));
    } else if chars_le(s.last().name, x.name) {
    } else {
        let d = s.drop_last();
        lemma_insert_by_name_multiset(d, x);
        assert(s =~= d.push(s.last()));
        assert(s.to_multiset() =~= d.to_multiset().insert(s.last()));
    }
}

/// Inserting `x` into a sorted sequence keeps it sorted.
pub proof fn lemma_insert_by_name_sorted(s: Seq<ServiceView>, x: ServiceView)
    requires
        sorted_by_name(s),
    ensures
        sorted_by_name(insert_by_name(s, x)),
        forall|k: int|
            0 <= k < insert_by_name(s, x).len() ==> (#[trigger] insert_by_name(s, x)[k] == x
                || s.contains(insert_by_name(s, x)[k])),
    decreases s.len(),
{
    let r = insert_by_name(s, x);
    if s.len() == 0 {
    } else if chars_le(s.last().name, x.name) {
        assert forall|i: int, j: int| 0 <= i < j < r.len() implies chars_le(r[i].name, r[j].name) by {
            if j == r.len() - 1 {
                if i < s.len() - 1 {
                    lemma_chars_le_transitive(s[i].name, s.last().name, x.name);
                }
            }
        }
        assert forall|k: int| 0 <= k < r.len() implies (#[trigger] r[k] == x || s.contains(r[k])) by {
            if k < s.len() {
                assert(r[k] == s[k]);
            }
        }
    } else {
        let d = s.drop_last();
        assert(sorted_by_name(d));
        lemma_insert_by_name_sorted(d, x);
        let m = insert_by_name(d, x);
        lemma_chars_le_total(s.last().name, x.name);
        assert forall|k: int| 0 <= k < m.len() implies chars_le(#[trigger] m[k].name, s.last().name) by {
            if m[k] != x {
                assert(d.contains(m[k]));
                let t = choose|t: int| 0 <= t < d.len() && d[t] == m[k];
                assert(s[t] == m[k]);
            }
        }
        assert forall|i: int, j: int| 0 <= i < j < r.len() implies chars_le(r[i].name, r[j].name) by {
            if j == r.len() - 1 {
                assert(r[i] == m[i]);
            } else {
                assert(r[i] == m[i]);
                assert(r[j] == m[j]);
            }
        }
        assert forall|k: int| 0 <= k < r.len() implies (#[trigger] r[k] == x || s.contains(r[k])) by {
            if k == r.len() - 1 {
                assert(s[s.len() - 1] == r[k]);
            } else {
                assert(r[k] == m[k]);
                if m[k] != x {
                    let t = choose|t: int| 0 <= t < d.len() && d[t] == m[k];
                    assert(s[t] == m[k]);
                }
            }
        }
    }
}

// ---------------------------------------------------------------------------
// Laws of sorting
// ---------------------------------------------------------------------------

/// Sorting by name is a permutation: the sorted sequence holds exactly the same
/// services, each as often as before.
pub proof fn lemma_sort_by_name_permutes(s: Seq<ServiceView>)
    ensures
        sort_by_name(s).to_multiset() =~= s.to_multiset(),
        sort_by_name(s).len() == s.len(),
    decreases s.len(),
{
    if s.len() > 0 {
        let d = s.drop_last();
        lemma_sort_by_name_permutes(d);
        lemma_insert_by_name_multiset(sort_by_name(d), s.last());
        assert(s =~= d.push(s.last()));
    }
}

/// Sorting by name yields a sequence in order of names.
pub proof fn lemma_sort_by_name_sorted(s: Seq<ServiceView>)
    ensures
        sorted_by_name(sort_by_name(s)),
    decreases s.len(),
{
    if s.len() > 0 {
        lemma_sort_by_name_sorted(s.drop_last());
        lemma_insert_by_name_sorted(sort_by_name(s.drop_last()), s.last());
    }
}

/// A sequence that is in order of names and has no name twice is strictly
/// increasing by name.
pub proof fn lemma_sorted_unique_strictly_increasing(s: Seq<ServiceView>)
    requires
        sorted_by_name(s),
        names_unique(s),
    ensures
        forall|i: int, j: int|
            0 <= i < j < s.len() ==> chars_le(s[i].name, s[j].name) && !chars_le(
                s[j].name,
                s[i].name,
            ),
{
    assert forall|i: int, j: int| 0 <= i < j < s.len() implies chars_le(s[i].name, s[j].name)
        && !chars_le(s[j].name, s[i].name) by {
        if chars_le(s[j].name, s[i].name) {
            lemma_chars_le_antisymmetric(s[i].name, s[j].name);
        }
    }
}

/// Two sequences that are the same multiset hold the same services.
pub proof fn lemma_multiset_same_contents(a: Seq<ServiceView>, b: Seq<ServiceView>, x: ServiceView)
    requires
        a.to_multiset() == b.to_multiset(),
    ensures
        a.contains(x) <==> b.contains(x),
{
    vstd::seq_lib::to_multiset_contains(a, x);
    vstd::seq_lib::to_multiset_contains(b, x);
}

/// A name is listed in a sequence exactly when it is listed in any permutation of it.
pub proof fn lemma_multiset_same_names(a: Seq<ServiceView>, b: Seq<ServiceView>, n: Seq<char>)
    requires
        a.to_multiset() == b.to_multiset(),
    ensures
        has_name(a, n) <==> has_name(b, n),
{
    if has_name(a, n) {
        let i = choose|i: int| 0 <= i < a.len() && a[i].name == n;
        lemma_multiset_same_contents(a, b, a[i]);
        assert(a.contains(a[i]));
    }
    if has_name(b, n) {
        let i = choose|i: int| 0 <= i < b.len() && b[i].name == n;
        lemma_multiset_same_contents(a, b, b[i]);
        assert(b.contains(b[i]));
    }
}

/// Inserting by name inserts at some position.
pub proof fn lemma_insert_by_name_is_insert(s: Seq<ServiceView>, x: ServiceView)
    ensures
        exists|p: int| 0 <= p <= s.len() && insert_by_name(s, x) == s.insert(p, x),
    decreases s.len(),
{
    if s.len() == 0 {
        assert(insert_by_name(s, x) == s.insert(0, x));
    } else if chars_le(s.last().name, x.name) {
        assert(insert_by_name(s, x) == s.insert(s.len() as int, x));
    } else {
        let d = s.drop_last();
        lemma_insert_by_name_is_insert(d, x);
        let p = choose|p: int| 0 <= p <= d.len() && insert_by_name(d, x) == d.insert(p, x);
        assert(s.insert(p, x) =~= d.insert(p, x).push(s.last()));
    }
}

/// Inserting a service whose name is new keeps names unique.
pub proof fn lemma_insert_by_name_unique(s: Seq<ServiceView>, x: ServiceView)
    requires
        names_unique(s),
        !has_name(s, x.name),
    ensures
        names_unique(insert_by_name(s, x)),
{
    lemma_insert_by_name_is_insert(s, x);
    let p = choose|p: int| 0 <= p <= s.len() && insert_by_name(s, x) == s.insert(p, x);
    let r = s.insert(p, x);
    assert forall|i: int, j: int| 0 <= i < r.len() && 0 <= j < r.len() && i != j implies r[i].name
        != r[j].name by {
        let si = if i < p { i } else { i - 1 };
        let sj = if j < p { j } else { j - 1 };
        if i == p {
            assert(r[j] == s[sj]);
        } else if j == p {
            assert(r[i] == s[si]);
        } else {
            assert(r[i] == s[si]);
            assert(r[j] == s[sj]);
        }
    }
}

/// Sorting keeps names unique.
pub proof fn lemma_sort_by_name_unique(s: Seq<ServiceView>)
    requires
        names_unique(s),
    ensures
        names_unique(sort_by_name(s)),
    decreases s.len(),
{
    if s.len() > 0 {
        let d = s.drop_last();
        assert(names_unique(d));
        lemma_sort_by_name_unique(d);
        lemma_sort_by_name_permutes(d);
        lemma_multiset_same_names(sort_by_name(d), d, s.last().name);
        if has_name(d, s.last().name) {
            let i = choose|i: int| 0 <= i < d.len() && d[i].name == s.last().name;
            assert(s[i].name == s[s.len() - 1].name);
        }
        lemma_insert_by_name_unique(sort_by_name(d), s.last());
    }
}

// ---------------------------------------------------------------------------
// Laws of merging
// ---------------------------------------------------------------------------

/// Adding the missing services lists a name exactly when either part lists it, and
/// leaves the services already listed in front, unchanged.
pub proof fn lemma_add_missing(acc: Seq<ServiceView>, extra: Seq<ServiceView>)
    ensures
        forall|n: Seq<char>|
            has_name(add_missing(acc, extra), n) <==> (has_name(acc, n) || has_name(extra, n)),
        add_missing(acc, extra).len() >= acc.len(),
        forall|i: int| 0 <= i < acc.len() ==> #[trigger] add_missing(acc, extra)[i] == acc[i],
        names_unique(acc) ==> names_unique(add_missing(acc, extra)),
        forall|x: ServiceView| #[trigger]
            add_missing(acc, extra).contains(x) ==> acc.contains(x) || extra.contains(x),
    decreases extra.len(),
{
    if extra.len() > 0 {
        let d = extra.drop_last();
        let y = extra.last();
        lemma_add_missing(acc, d);
        let prev = add_missing(acc, d);
        let r = add_missing(acc, extra);
        assert forall|n: Seq<char>| has_name(r, n) <==> (has_name(acc, n) || has_name(extra, n)) by {
            assert(has_name(prev, n) <==> (has_name(acc, n) || has_name(d, n)));
            if has_name(prev, n) {
                let i = choose|i: int| 0 <= i < prev.len() && prev[i].name == n;
                assert(r[i].name == n);
            }
            if has_name(d, n) {
                let i = choose|i: int| 0 <= i < d.len() && d[i].name == n;
                assert(extra[i].name == n);
            }
            if has_name(extra, n) {
                let i = choose|i: int| 0 <= i < extra.len() && extra[i].name == n;
                if i < d.len() {
                    assert(d[i].name == n);
                } else if !has_name(prev, n) {
                    assert(r[prev.len() as int].name == n);
                }
            }
            if has_name(r, n) && !has_name(prev, n) {
                let i = choose|i: int| 0 <= i < r.len() && r[i].name == n;
                if i < prev.len() {
                    assert(prev[i].name == n);
                }
            }
        }
        assert forall|x: ServiceView| #[trigger] r.contains(x) implies acc.contains(x) || extra.contains(x) by {
            let i = choose|i: int| 0 <= i < r.len() && r[i] == x;
            if i < prev.len() {
                assert(prev[i] == x);
                assert(prev.contains(x));
                if d.contains(x) {
                    let k = choose|k: int| 0 <= k < d.len() && d[k] == x;
                    assert(extra[k] == x);
                }
            } else {
                assert(extra[extra.len() - 1] == x);
            }
        }
        if names_unique(acc) && !has_name(prev, y.name) {
            assert forall|i: int, j: int| 0 <= i < r.len() && 0 <= j < r.len() && i != j implies r[i].name
                != r[j].name by {
                if i == prev.len() {
                    assert(r[j] == prev[j]);
                } else if j == prev.len() {
                    assert(r[i] == prev[i]);
                } else {
                    assert(r[i] == prev[i]);
                    assert(r[j] == prev[j]);
                }
            }
        }
    }
}

/// The services shown are sorted by name and are a permutation of the merged
/// listings.
pub proof fn lemma_listing_sorted_permutation(
    enabled: Option<Seq<ServiceView>>,
    available: Option<Seq<ServiceView>>,
)
    ensures
        sorted_by_name(listing(enabled, available)),
        listing(enabled, available).to_multiset() =~= merge_listings(enabled, available).to_multiset(),
{
    lemma_sort_by_name_sorted(merge_listings(enabled, available));
    lemma_sort_by_name_permutes(merge_listings(enabled, available));
}

/// A name is shown exactly when the enabled or the available services list it.
pub proof fn lemma_listing_names(
    enabled: Option<Seq<ServiceView>>,
    available: Option<Seq<ServiceView>>,
    name: Seq<char>,
)
    ensures
        has_name(listing(enabled, available), name) <==> ((enabled matches Some(e) && has_name(
            e,
            name,
        )) || (available matches Some(a) && has_name(a, name))),
{
    let m = merge_listings(enabled, available);
    let base = match enabled {
        Some(e) => e,
        None => Seq::<ServiceView>::empty(),
    };
    if let Some(a) = available {
        lemma_add_missing(base, a);
    }
    lemma_sort_by_name_permutes(m);
    lemma_multiset_same_names(listing(enabled, available), m, name);
}

/// When the enabled services have distinct names, no name is shown twice, and the
/// names shown are strictly increasing.
pub proof fn lemma_listing_unique(enabled: Option<Seq<ServiceView>>, available: Option<Seq<ServiceView>>)
    requires
        enabled matches Some(e) ==> names_unique(e),
    ensures
        names_unique(listing(enabled, available)),
        forall|i: int, j: int|
            0 <= i < j < listing(enabled, available).len() ==> !chars_le(
                listing(enabled, available)[j].name,
                listing(enabled, available)[i].name,
            ),
{
    let m = merge_listings(enabled, available);
    let base = match enabled {
        Some(e) => e,
        None => Seq::<ServiceView>::empty(),
    };
    if let Some(a) = available {
        lemma_add_missing(base, a);
    }
    assert(names_unique(m));
    lemma_sort_by_name_unique(m);
    lemma_sort_by_name_sorted(m);
    lemma_sorted_unique_strictly_increasing(listing(enabled, available));
}

/// Every enabled service is shown as it is; an available service with the same name
/// does not replace it.
pub proof fn lemma_listing_keeps_enabled(
    enabled: Seq<ServiceView>,
    available: Option<Seq<ServiceView>>,
    s: ServiceView,
)
    requires
        enabled.contains(s),
    ensures
        listing(Some(enabled), available).contains(s),
{
    let m = merge_listings(Some(enabled), available);
    let i = choose|i: int| 0 <= i < enabled.len() && enabled[i] == s;
    if let Some(a) = available {
        lemma_add_missing(enabled, a);
    }
    assert(m[i] == s);
    assert(m.contains(s));
    lemma_sort_by_name_permutes(m);
    lemma_multiset_same_contents(listing(Some(enabled), available), m, s);
}

/// Each shown service comes from the enabled or the available services.
pub proof fn lemma_listing_from_inputs(
    enabled: Option<Seq<ServiceView>>,
    available: Option<Seq<ServiceView>>,
    s: ServiceView,
)
    requires
        listing(enabled, available).contains(s),
    ensures
        (enabled matches Some(e) && e.contains(s)) || (available matches Some(a) && a.contains(s)),
{
    let m = merge_listings(enabled, available);
    let base = match enabled {
        Some(e) => e,
        None => Seq::<ServiceView>::empty(),
    };
    if let Some(a) = available {
        lemma_add_missing(base, a);
    }
    lemma_sort_by_name_permutes(m);
    lemma_multiset_same_contents(listing(enabled, available), m, s);
}

// ---------------------------------------------------------------------------
// Laws of the directory scans
// ---------------------------------------------------------------------------

/// The enabled services found have distinct names, none named `log` or `current`,
/// and each is enabled, down and without a process id.
pub proof fn lemma_enabled_from(entries: Seq<DirEntryView>)
    ensures
        names_unique(enabled_from(entries)),
        forall|i: int|
            0 <= i < enabled_from(entries).len() ==> {
                let s = #[trigger] enabled_from(entries)[i];
                &&& s.enabled
                &&& s.status == status_down()
                &&& s.pid is None
                &&& s.name != "log"@
                &&& s.name != "current"@
            },
    decreases entries.len(),
{
    if entries.len() > 0 {
        lemma_enabled_from(entries.drop_last());
        let prev = enabled_from(entries.drop_last());
        let r = enabled_from(entries);
        let e = entries.last();
        if is_enabled_entry(e) && !has_name(prev, e.name) {
            assert forall|i: int, j: int| 0 <= i < r.len() && 0 <= j < r.len() && i != j implies r[i].name
                != r[j].name by {
                if i < prev.len() && j < prev.len() {
                    assert(r[i] == prev[i]);
                    assert(r[j] == prev[j]);
                } else if i < prev.len() {
                    assert(r[i] == prev[i]);
                } else {
                    assert(r[j] == prev[j]);
                }
            }
            assert forall|i: int| 0 <= i < r.len() implies {
                let s = #[trigger] r[i];
                &&& s.enabled
                &&& s.status == status_down()
                &&& s.pid is None
                &&& s.name != "log"@
                &&& s.name != "current"@
            } by {
                if i < prev.len() {
                    assert(r[i] == prev[i]);
                }
            }
        }
    }
}

/// Each service listed as enabled comes from an entry of the supervised directories
/// that is a directory or a link, not named `log` or `current`, with that entry's
/// name and path.
pub proof fn lemma_enabled_from_sound(entries: Seq<DirEntryView>)
    ensures
        forall|i: int|
            0 <= i < enabled_from(entries).len() ==> exists|j: int|
                0 <= j < entries.len() && (entries[j].is_dir || entries[j].is_symlink)
                    && entries[j].name != "log"@ && entries[j].name != "current"@
                    && entries[j].name == (#[trigger] enabled_from(entries)[i]).name
                    && entries[j].path == enabled_from(entries)[i].path,
    decreases entries.len(),
{
    if entries.len() > 0 {
        let d = entries.drop_last();
        lemma_enabled_from_sound(d);
        let prev = enabled_from(d);
        let r = enabled_from(entries);
        assert forall|i: int| 0 <= i < r.len() implies exists|j: int|
            0 <= j < entries.len() && (entries[j].is_dir || entries[j].is_symlink)
                && entries[j].name != "log"@ && entries[j].name != "current"@
                && entries[j].name == (#[trigger] r[i]).name && entries[j].path == r[i].path by {
            if i < prev.len() {
                assert(r[i] == prev[i]);
                let j = choose|j: int|
                    0 <= j < d.len() && (d[j].is_dir || d[j].is_symlink) && d[j].name != "log"@
                        && d[j].name != "current"@ && d[j].name == prev[i].name && d[j].path
                        == prev[i].path;
                assert(entries[j] == d[j]);
            } else {
                let k = entries.len() - 1;
                assert(entries[k] == entries.last());
            }
        }
    }
}

/// Every entry of the supervised directories that is a directory or a link (a link
/// to a directory included), not named `log` or `current`, is listed as a service
/// of that name; the first such entry of a name gives an enabled service that is
/// down, has no process id and has that entry's path.
pub proof fn lemma_enabled_from_complete(entries: Seq<DirEntryView>)
    ensures
        forall|k: int|
            0 <= k < entries.len() && (entries[k].is_dir || entries[k].is_symlink)
                && entries[k].name != "log"@ && entries[k].name != "current"@ ==> #[trigger] has_name(
                enabled_from(entries),
                entries[k].name,
            ),
        forall|k: int|
            0 <= k < entries.len() && (entries[k].is_dir || entries[k].is_symlink)
                && entries[k].name != "log"@ && entries[k].name != "current"@ && (forall|j: int|
                0 <= j < k && (entries[j].is_dir || entries[j].is_symlink) ==> entries[j].name
                    != entries[k].name) ==> #[trigger] enabled_from(entries).contains(
                ServiceView {
                    name: entries[k].name,
                    status: "down"@,
                    pid: None,
                    enabled: true,
                    path: entries[k].path,
                },
            ),
    decreases entries.len(),
{
    if entries.len() > 0 {
        let d = entries.drop_last();
        lemma_enabled_from_complete(d);
        lemma_enabled_from_sound(d);
        let prev = enabled_from(d);
        let r = enabled_from(entries);
        let last = entries.len() - 1;
        assert(entries[last] == entries.last());
        assert forall|i: int| 0 <= i < prev.len() implies r[i] == prev[i] by {}
        assert forall|k: int|
            0 <= k < entries.len() && (entries[k].is_dir || entries[k].is_symlink)
                && entries[k].name != "log"@ && entries[k].name != "current"@ implies #[trigger] has_name(
            r,
            entries[k].name,
        ) by {
            if k < last {
                assert(entries[k] == d[k]);
                assert(has_name(prev, d[k].name));
                let i = choose|i: int| 0 <= i < prev.len() && prev[i].name == d[k].name;
                assert(r[i] == prev[i]);
            } else if has_name(prev, entries[k].name) {
                let i = choose|i: int| 0 <= i < prev.len() && prev[i].name == entries[k].name;
                assert(r[i] == prev[i]);
            } else {
                assert(r[prev.len() as int].name == entries[k].name);
            }
        }
        assert forall|k: int|
            0 <= k < entries.len() && (entries[k].is_dir || entries[k].is_symlink)
                && entries[k].name != "log"@ && entries[k].name != "current"@ && (forall|j: int|
                0 <= j < k && (entries[j].is_dir || entries[j].is_symlink) ==> entries[j].name
                    != entries[k].name) implies #[trigger] r.contains(
            ServiceView {
                name: entries[k].name,
                status: "down"@,
                pid: None,
                enabled: true,
                path: entries[k].path,
            },
        ) by {
            let x = ServiceView {
                name: entries[k].name,
                status: "down"@,
                pid: None,
                enabled: true,
                path: entries[k].path,
            };
            if k < last {
                assert(entries[k] == d[k]);
                assert forall|j: int| 0 <= j < k && (d[j].is_dir || d[j].is_symlink) implies d[j].name
                    != d[k].name by {
                    assert(d[j] == entries[j]);
                }
                assert(prev.contains(x));
                let i = choose|i: int| 0 <= i < prev.len() && prev[i] == x;
                assert(r[i] == prev[i]);
            } else {
                if has_name(prev, entries[k].name) {
                    let i = choose|i: int| 0 <= i < prev.len() && prev[i].name == entries[k].name;
                    let j = choose|j: int|
                        0 <= j < d.len() && (d[j].is_dir || d[j].is_symlink) && d[j].name != "log"@
                            && d[j].name != "current"@ && d[j].name == prev[i].name && d[j].path
                            == prev[i].path;
                    assert(entries[j] == d[j]);
                    assert(false);
                }
                assert(r[prev.len() as int] == x);
            }
        }
    }
}

/// The available services are, in order, exactly the entries of the definition
/// directories that are directories with a `run` script, other than `template`,
/// `services` and `runsvdir`: each with the entry's name and path, disabled, down
/// and without a process id.
pub proof fn lemma_available_from_exact(entries: Seq<DirEntryView>)
    ensures
        available_from(entries) == entries.filter(
            |e: DirEntryView|
                e.is_dir && e.has_run_script && e.name != "template"@ && e.name != "services"@
                    && e.name != "runsvdir"@,
        ).map_values(
            |e: DirEntryView|
                ServiceView { name: e.name, status: "down"@, pid: None, enabled: false, path: e.path },
        ),
    decreases entries.len(),
{
    let f = |e: DirEntryView|
        e.is_dir && e.has_run_script && e.name != "template"@ && e.name != "services"@ && e.name
            != "runsvdir"@;
    let m = |e: DirEntryView|
        ServiceView { name: e.name, status: "down"@, pid: None, enabled: false, path: e.path };
    reveal(Seq::filter);
    if entries.len() > 0 {
        let d = entries.drop_last();
        lemma_available_from_exact(d);
        assert(entries.filter(f) == if f(entries.last()) {
            d.filter(f).push(entries.last())
        } else {
            d.filter(f)
        });
        if f(entries.last()) {
            assert(d.filter(f).push(entries.last()).map_values(m) =~= d.filter(f).map_values(m).push(
                m(entries.last()),
            ));
        }
    } else {
        assert(entries.filter(f) =~= Seq::<DirEntryView>::empty());
        assert(entries.filter(f).map_values(m) =~= Seq::<ServiceView>::empty());
    }
}

/// The available services found are each disabled, down and without a process id,
/// none named `template`, `services` or `runsvdir`.
pub proof fn lemma_available_from(entries: Seq<DirEntryView>)
    ensures
        forall|i: int|
            0 <= i < available_from(entries).len() ==> {
                let s = #[trigger] available_from(entries)[i];
                &&& !s.enabled
                &&& s.status == status_down()
                &&& s.pid is None
                &&& s.name != "template"@
                &&& s.name != "services"@
                &&& s.name != "runsvdir"@
            },
    decreases entries.len(),
{
    if entries.len() > 0 {
        lemma_available_from(entries.drop_last());
        let prev = available_from(entries.drop_last());
        let r = available_from(entries);
        assert forall|i: int| 0 <= i < r.len() implies {
            let s = #[trigger] r[i];
            &&& !s.enabled
            &&& s.status == status_down()
            &&& s.pid is None
            &&& s.name != "template"@
            &&& s.name != "services"@
            &&& s.name != "runsvdir"@
        } by {
            if i < prev.len() {
                assert(r[i] == prev[i]);
            }
        }
    }
}

// ---------------------------------------------------------------------------
// Executable functions
// ---------------------------------------------------------------------------

/// Whether `name` is the text `lit`.
pub fn is_named(name: &String, lit: &str) -> (r: bool)
    ensures
        r == (name@ == lit@),
{
    *name == String::from_str(lit)
}

/// Whether some service in `services` is named `name`.
pub fn has_service_named(services: &Vec<Service>, name: &String) -> (r: bool)
    ensures
        r == has_name(services.deep_view(), name@),
{
    let mut i: usize = 0;
    while i < services.len()
        invariant
            i <= services@.len(),
            forall|k: int| 0 <= k < i ==> services.deep_view()[k].name != name@,
        decreases services@.len() - i,
    {
        if services[i].name == *name {
            assert(services.deep_view()[i as int].name == name@);
            return true;
        }
        i = i + 1;
    }
    false
}

/// The enabled services (when they could be listed) followed by each available
/// service whose name is not listed yet (when they could be listed).
pub fn merge_services(enabled: Option<Vec<Service>>, available: Option<Vec<Service>>) -> (r: Vec<
    Service,
>)
    ensures
        r.deep_view() == merge_listings(enabled.deep_view(), available.deep_view()),
{
    let mut out = match enabled {
        Some(e) => e,
        None => Vec::new(),
    };
    let ghost base = out.deep_view();
    assert(base == match enabled.deep_view() {
        Some(e) => e,
        None => Seq::<ServiceView>::empty(),
    }) by {
        if enabled is None {
            assert(base =~= Seq::<ServiceView>::empty());
        }
    }
    match available {
        None => out,
        Some(extra) => {
            let mut extra = extra;
            let ghost ex = extra.deep_view();
            let mut k: usize = 0;
            let total = extra.len();
            assert(ex.skip(0) =~= ex);
            assert(ex.take(0) =~= Seq::<ServiceView>::empty());
            while extra.len() > 0
                invariant
                    total == ex.len(),
                    k + extra@.len() == ex.len(),
                    extra.deep_view() == ex.skip(k as int),
                    out.deep_view() == add_missing(base, ex.take(k as int)),
                decreases extra@.len(),
            {
                let ghost before = out.deep_view();
                let ghost rest = extra.deep_view();
                let ghost old_v = extra@;
                let s = extra.remove(0);
                assert(s@ == rest[0]);
                assert(rest[0] == ex[k as int]);
                assert forall|i: int| 0 <= i < extra@.len() implies extra.deep_view()[i] == ex.skip(
                    k + 1,
                )[i] by {
                    assert(extra@[i] == old_v[i + 1]);
                    assert(rest[i + 1] == ex[k + 1 + i]);
                }
                assert(extra.deep_view() =~= ex.skip(k + 1));
                assert(ex.take(k + 1).drop_last() =~= ex.take(k as int));
                assert(ex.take(k + 1).last() == s@);
                if !has_service_named(&out, &s.name) {
                    out.push(s);
                    assert(out.deep_view() =~= before.push(s@));
                }
                k = k + 1;
            }
            assert(ex.take(k as int) =~= ex);
            out
        },
    }
}

/// Whether the name of `a` comes no later than the name of `b`.
fn name_le(a: &Service, b_chars: &Vec<char>) -> (r: bool)
    ensures
        r == chars_le(a.name@, b_chars@),
{
    let a_chars = chars_of(a.name.as_str());
    chars_le_exec(&a_chars, b_chars)
}

/// `v` sorted by name; services with equal names keep their order.
pub fn sort_services_by_name(v: Vec<Service>) -> (r: Vec<Service>)
    ensures
        r.deep_view() == sort_by_name(v.deep_view()),
{
    let ghost orig = v.deep_view();
    let mut input = v;
    let mut out: Vec<Service> = Vec::new();
    let mut done: usize = 0;
    let total = input.len();
    assert(orig.skip(0) =~= orig);
    assert(out.deep_view() =~= sort_by_name(orig.take(0)));
    while input.len() > 0
        invariant
            total == orig.len(),
            done + input@.len() == orig.len(),
            input.deep_view() == orig.skip(done as int),
            out.deep_view() == sort_by_name(orig.take(done as int)),
        decreases input@.len(),
    {
        let ghost rest = input.deep_view();
        let ghost sorted = out.deep_view();
        let ghost old_v = input@;
        let x = input.remove(0);
        assert(x@ == rest[0]);
        assert(rest[0] == orig[done as int]);
        assert forall|i: int| 0 <= i < input@.len() implies input.deep_view()[i] == orig.skip(
            done + 1,
        )[i] by {
            assert(input@[i] == old_v[i + 1]);
            assert(rest[i + 1] == orig[done + 1 + i]);
        }
        assert(input.deep_view() =~= orig.skip(done + 1));
        let x_chars = chars_of(x.name.as_str());
        let mut j: usize = out.len();
        loop
            invariant
                sorted == out.deep_view(),
                x_chars@ == x@.name,
                j <= sorted.len(),
                forall|k: int| j <= k < sorted.len() ==> !chars_le(#[trigger] sorted[k].name, x@.name),
            ensures
                j <= sorted.len(),
                forall|k: int| j <= k < sorted.len() ==> !chars_le(#[trigger] sorted[k].name, x@.name),
                j > 0 ==> chars_le(sorted[j - 1].name, x@.name),
            decreases j,
        {
            if j == 0 {
                break;
            }
            assert(sorted[j - 1] == out@[j - 1]@);
            if name_le(&out[j - 1], &x_chars) {
                break;
            }
            j = j - 1;
        }
        proof {
            lemma_insert_by_name_at(sorted, x@, j as int);
            assert(orig.take(done + 1).drop_last() =~= orig.take(done as int));
            assert(orig.take(done + 1).last() == x@);
        }
        out.insert(j, x);
        assert(out.deep_view() =~= sorted.insert(j as int, x@));
        done = done + 1;
    }
    assert(orig.take(done as int) =~= orig);
    out
}

} // verus!
