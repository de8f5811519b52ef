//! Shared registry of named boolean health conditions.
//!
//! A [`Health`] value owns a registry of named conditions behind a single
//! coarse exclusive-access boundary. [`Condition`] handles share that
//! registry; each handle reports only for its own name, and a report from any
//! clone is visible to every other holder and to [`Health::snapshot`].

use crate::kv;
use std::sync::Arc;
use vstd::prelude::*;
use vstd::rwlock::RwLock;

verus! {

/// A point-in-time aggregate over all registered conditions: `ok` is the
/// conjunction of their values, and `failing_checks` lists the names whose
/// value is `false`, in registration order.
pub struct HealthInfo {
    pub ok: bool,
    pub failing_checks: Vec<String>,
}

/// Mathematical model of a [`HealthInfo`].
pub ghost struct HealthInfoView {
    pub ok: bool,
    pub failing_checks: Seq<Seq<char>>,
}

impl View for HealthInfo {
    type V = HealthInfoView;

    open spec fn view(&self) -> HealthInfoView {
        HealthInfoView { ok: self.ok, failing_checks: self.failing_checks.deep_view() }
    }
}

/// All registered conditions hold.
pub open spec fn all_ok(s: Seq<(Seq<char>, bool)>) -> bool {
    forall|i: int| 0 <= i < s.len() ==> s[i].1
}

/// The names whose recorded value is `false`, in registration order.
pub open spec fn failing(s: Seq<(Seq<char>, bool)>) -> Seq<Seq<char>>
    decreases s.len(),
{
    if s.len() == 0 {
        Seq::empty()
    } else {
        let rest = failing(s.drop_last());
        if !s.last().1 {
            rest.push(s.last().0)
        } else {
            rest
        }
    }
}

/// The registry proper: condition names mapped to booleans, modelled as an
/// association sequence with unique names, in registration order.
pub struct Inner {
    checks: Vec<(String, bool)>,
}

impl View for Inner {
    type V = Seq<(Seq<char>, bool)>;

    closed spec fn view(&self) -> Seq<(Seq<char>, bool)> {
        self.checks.deep_view()
    }
}

impl Inner {
    /// Condition names are unique keys.
    pub open spec fn wf(&self) -> bool {
        kv::unique_keys(self@)
    }

    /// An empty registry.
    pub fn new() -> (r: Inner)
        ensures
            r@ == Seq::<(Seq<char>, bool)>::empty(),
            r.wf(),
    {
        let r = Inner { checks: Vec::new() };
        proof {
            assert(r@ =~= Seq::<(Seq<char>, bool)>::empty());
        }
        r
    }

    /// Sets `name` to `v`, overwriting an existing entry in place and
    /// appending a new name at the end.
    pub fn put(&mut self, name: &String, v: bool)
        requires
            old(self).wf(),
        ensures
            final(self).wf(),
            final(self)@ == kv::spec_insert(old(self)@, name@, v),
    {
        let ghost s = old(self)@;
        let mut i: usize = 0;
        while i < self.checks.len()
            invariant
                0 <= i <= self.checks.len(),
                s == old(self)@,
                s == self@,
                self.wf(),
                forall|j: int| 0 <= j < i ==> s[j].0 != name@,
            decreases self.checks.len() - i,
        {
            if self.checks[i].0 == *name {
                let entry_name = self.checks[i].0.clone();
                self.checks[i] = (entry_name, v);
                proof {
                    assert(self@ =~= s.update(i as int, (name@, v)));
                    kv::lemma_insert_found(s, name@, v, i as int);
                    assert forall|a: int, b: int|
                        0 <= a < b < self@.len() implies self@[a].0 != self@[b].0 by {
                        assert(s[a].0 == self@[a].0 && s[b].0 == self@[b].0);
                    }
                }
                return ;
            }
            i += 1;
        }
        let ghost before = self@;
        self.checks.push((name.clone(), v));
        proof {
            assert(self@ =~= before.push((name@, v)));
            kv::lemma_insert_absent(s, name@, v);
            kv::lemma_insert_unique_keys(s, name@, v);
        }
    }

    /// Computes the aggregate: `ok` is the conjunction of all values
    /// (vacuously true when nothing is registered), and `failing_checks`
    /// lists the names recorded as `false`, in registration order.
    pub fn describe(&self) -> (h: HealthInfo)
        ensures
            h@.ok == all_ok(self@),
            h@.failing_checks == failing(self@),
    {
        let ghost s = self@;
        let mut ok = true;
        let mut failing_checks: Vec<String> = Vec::new();
        let mut i: usize = 0;
        while i < self.checks.len()
            invariant
                0 <= i <= self.checks.len(),
                s == self@,
                ok == all_ok(s.take(i as int)),
                failing_checks.deep_view() == failing(s.take(i as int)),
            decreases self.checks.len() - i,
        {
            proof {
                assert(s.take(i + 1).drop_last() =~= s.take(i as int));
                assert(s.take(i + 1).last() == s[i as int]);
            }
            if !self.checks[i].1 {
                ok = false;
                let ghost before = failing_checks.deep_view();
                failing_checks.push(self.checks[i].0.clone());
                proof {
                    assert(failing_checks.deep_view() =~= before.push(s[i as int].0));
                }
            }
            proof {
                if ok {
                    assert forall|j: int| 0 <= j < i + 1 implies #[trigger] s.take(i + 1)[j].1 by {
                        assert(s.take(i + 1)[j] == s[j]);
                    }
                }
            }
            i += 1;
        }
        proof {
            assert(s.take(self.checks.len() as int) =~= s);
        }
        HealthInfo { ok, failing_checks }
    }
}

/// Manages one kind of health (such as readiness or liveness): a shared
/// handle to the registry, from which conditions are registered and
/// snapshots are taken.
pub struct Health {
    inner: Arc<RwLock<Inner, spec_fn(Inner) -> bool>>,
}

/// Handle for manipulating one particular health condition. Clones share the
/// same underlying registry.
pub struct Condition {
    name: String,
    inner: Arc<RwLock<Inner, spec_fn(Inner) -> bool>>,
}

/// The invariant every registry lock maintains: the stored registry is
/// well-formed.
pub open spec fn registry_lock_wf(lock: RwLock<Inner, spec_fn(Inner) -> bool>) -> bool {
    forall|v: Inner| #[trigger] lock.inv(v) <==> v.wf()
}

impl Health {
    /// The handle's lock stores well-formed registries and nothing else.
    pub closed spec fn wf(&self) -> bool {
        registry_lock_wf(*self.inner)
    }

    /// Registers `name` and returns a handle for reporting on it. The name
    /// is eagerly set to `false`, so a just-created condition is failing
    /// until explicitly reported otherwise; re-registering an existing name
    /// resets its value to `false`.
    pub fn condition(&self, name: &str) -> (c: Condition)
        requires
            self.wf(),
        ensures
            c.wf(),
            c.name_spec() == name@,
            c.reports_into(self),
    {
        let c = Condition { name: name.to_owned(), inner: Arc::clone(&self.inner) };
        c.report_failure();
        c
    }

    /// Takes the aggregate under the exclusive-access boundary. The result
    /// is the aggregate of a well-formed registry value — a duplicate-free
    /// key listing consistent with `ok` — and it is `ok` exactly when no
    /// check is listed as failing.
    pub fn snapshot(&self) -> (h: HealthInfo)
        requires
            self.wf(),
        ensures
            h@.ok <==> h@.failing_checks.len() == 0,
            exists|s: Seq<(Seq<char>, bool)>|
                kv::unique_keys(s) && h@.ok == all_ok(s) && h@.failing_checks == failing(s),
    {
        let read_handle = self.inner.acquire_read();
        let guard = read_handle.borrow();
        let h = guard.describe();
        proof {
            lemma_ok_iff_none_failing(guard@);
            assert(kv::unique_keys(guard@) && h@.ok == all_ok(guard@) && h@.failing_checks
                == failing(guard@));
        }
        read_handle.release_read();
        h
    }
}

impl Clone for Health {
    /// A clone shares the same underlying registry.
    fn clone(&self) -> (res: Self)
        ensures
            res == *self,
    {
        Health { inner: Arc::clone(&self.inner) }
    }
}

impl Condition {
    /// The condition name this handle reports for.
    pub closed spec fn name_spec(&self) -> Seq<char> {
        self.name@
    }

    /// This handle reports into the same underlying registry that `h`
    /// manages: a report through it is visible to `h`'s snapshots.
    pub closed spec fn reports_into(&self, h: &Health) -> bool {
        self.inner == h.inner
    }

    /// The handle's lock stores well-formed registries and nothing else.
    pub closed spec fn wf(&self) -> bool {
        registry_lock_wf(*self.inner)
    }

    /// Sets this handle's condition under the exclusive-access boundary.
    fn put(&self, v: bool)
        requires
            self.wf(),
    {
        let (mut inner, write_handle) = self.inner.acquire_write();
        inner.put(&self.name, v);
        write_handle.release_write(inner);
    }

    /// Reports this condition as passing. Last writer wins.
    pub fn report_ok(&self)
        requires
            self.wf(),
    {
        self.put(true);
    }

    /// Reports this condition as failing. Last writer wins.
    pub fn report_failure(&self)
        requires
            self.wf(),
    {
        self.put(false);
    }
}

impl Clone for Condition {
    /// A clone reports for the same name into the same underlying registry.
    fn clone(&self) -> (res: Self)
        ensures
            res == *self,
    {
        Condition { name: self.name.clone(), inner: Arc::clone(&self.inner) }
    }
}

/// Creates a fresh, empty health registry.
pub fn make() -> (h: Health)
    ensures
        h.wf(),
{
    let inner = Inner::new();
    let lock = RwLock::new(inner, Ghost(|v: Inner| v.wf()));
    Health { inner: Arc::new(lock) }
}

/// An entry recorded as `false` puts its name among the failing checks.
proof fn lemma_failing_contains(s: Seq<(Seq<char>, bool)>, i: int)
    requires
        0 <= i < s.len(),
        !s[i].1,
    ensures
        failing(s).contains(s[i].0),
    decreases s.len(),
{
    if i == s.len() - 1 {
        let rest = failing(s.drop_last());
        assert(failing(s)[rest.len() as int] == s[i].0);
    } else {
        assert(s.drop_last()[i] == s[i]);
        lemma_failing_contains(s.drop_last(), i);
        let rest = failing(s.drop_last());
        let j = choose|j: int| 0 <= j < rest.len() && rest[j] == s[i].0;
        assert(failing(s)[j] == s[i].0);
    }
}

/// A freshly registered condition contributes `false` to the aggregate:
/// right after registering `n`, the aggregate is not ok and `n` is listed
/// among the failing checks, whatever else is registered.
pub proof fn lemma_fresh_registration_fails(s: Seq<(Seq<char>, bool)>, n: Seq<char>)
    ensures
        !all_ok(kv::spec_insert(s, n, false)),
        failing(kv::spec_insert(s, n, false)).contains(n),
{
    let t = kv::spec_insert(s, n, false);
    if exists|j: int| 0 <= j < s.len() && s[j].0 == n {
        let i = kv::first_key_index(s, n);
        kv::lemma_insert_found(s, n, false, i);
        assert(t[i] == (n, false));
        lemma_failing_contains(t, i);
    } else {
        kv::lemma_insert_absent(s, n, false);
        assert(t[s.len() as int] == (n, false));
        lemma_failing_contains(t, s.len() as int);
    }
}

/// Registering one condition and then reporting it ok yields a clean
/// aggregate: ok, with no failing checks.
pub proof fn lemma_single_condition_reported_ok(n: Seq<char>)
    ensures
        ({
            let s = kv::spec_insert(
                kv::spec_insert(Seq::<(Seq<char>, bool)>::empty(), n, false),
                n,
                true,
            );
            all_ok(s) && failing(s) =~= Seq::<Seq<char>>::empty()
        }),
{
    let s0 = Seq::<(Seq<char>, bool)>::empty();
    let s1 = kv::spec_insert(s0, n, false);
    assert(s1 =~= seq![(n, false)]);
    let s2 = kv::spec_insert(s1, n, true);
    assert(s2 =~= seq![(n, true)] + s1.drop_first());
    assert(s2 =~= seq![(n, true)]);
    assert(s2.drop_last() =~= s0);
    assert(failing(s2) =~= failing(s0));
}

/// With one condition reported ok and another left failing, the aggregate is
/// not ok and lists exactly the failing name.
pub proof fn lemma_one_failing_condition(a: Seq<char>, b: Seq<char>)
    requires
        a != b,
    ensures
        ({
            let s = kv::spec_insert(
                kv::spec_insert(
                    kv::spec_insert(Seq::<(Seq<char>, bool)>::empty(), a, false),
                    b,
                    false,
                ),
                a,
                true,
            );
            !all_ok(s) && failing(s) =~= seq![b]
        }),
{
    let s0 = Seq::<(Seq<char>, bool)>::empty();
    let s1 = kv::spec_insert(s0, a, false);
    assert(s1 =~= seq![(a, false)]);
    let s2 = kv::spec_insert(s1, b, false);
    assert(s1.drop_first() =~= s0);
    assert(kv::spec_insert(s0, b, false) =~= seq![(b, false)]);
    assert(s2 =~= seq![(a, false), (b, false)]);
    let s3 = kv::spec_insert(s2, a, true);
    assert(s2.drop_first() =~= seq![(b, false)]);
    assert(s3 =~= seq![(a, true), (b, false)]);
    assert(!s3[1].1);
    assert(s3.drop_last() =~= seq![(a, true)]);
    assert(seq![(a, true)].drop_last() =~= s0);
    assert(failing(s0) =~= Seq::<Seq<char>>::empty());
    assert(failing(seq![(a, true)]) =~= Seq::<Seq<char>>::empty());
    assert(failing(s3) =~= failing(seq![(a, true)]).push(b));
}

/// The aggregate is `ok` exactly when no check is listed as failing.
pub proof fn lemma_ok_iff_none_failing(s: Seq<(Seq<char>, bool)>)
    ensures
        all_ok(s) <==> failing(s).len() == 0,
    decreases s.len(),
{
    if s.len() > 0 {
        lemma_ok_iff_none_failing(s.drop_last());
        assert forall|j: int| 0 <= j < s.drop_last().len() && all_ok(s) implies s.drop_last()[j].1
        by {
            assert(s.drop_last()[j] == s[j]);
        }
        if failing(s).len() == 0 {
            assert(s.last().1);
            assert forall|j: int| 0 <= j < s.len() implies s[j].1 by {
                if j < s.len() - 1 {
                    assert(s[j] == s.drop_last()[j]);
                }
            }
        }
    }
}

} // verus!
