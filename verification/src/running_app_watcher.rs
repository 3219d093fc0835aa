//! The application-lifecycle watcher's bookkeeping.
//!
//! A long-lived background task subscribes to the compositor's "running
//! applications changed" notification.  On each notification it re-fetches
//! the application-state mapping and hands the keys to [`watcher_step`],
//! which derives the current set of running application identifiers and
//! says which previously running applications have disappeared; the task
//! then calls the broker's `on_app_closed` for each of those.  When the
//! notification stream itself ends, the broker can no longer be
//! reconciled with compositor state and the process must terminate
//! abnormally (`WatcherStreamTerminated` is fatal).

use vstd::prelude::*;

verus! {

use vstd::string::StrSliceExecFns;

/// `s` without a trailing `.desktop`, or `s` itself when it has none.
pub open spec fn strip_desktop(s: Seq<char>) -> Seq<char> {
    if s.len() >= 8 && s.subrange(s.len() - 8, s.len() as int) == (".desktop")@ {
        s.take(s.len() - 8)
    } else {
        s
    }
}

/// The running application identifiers derived from the raw state-map
/// keys: each key with its `.desktop` suffix stripped, empty results
/// discarded.
pub open spec fn app_set(keys: Seq<Seq<char>>) -> Set<Seq<char>> {
    Set::new(
        |x: Seq<char>|
            x.len() > 0 && exists|k: int|
                0 <= k < keys.len() && strip_desktop(#[trigger] keys[k]) == x,
    )
}

/// `s` with a trailing `.desktop` stripped.
fn strip_desktop_exec(s: &String) -> (r: String)
    ensures
        r@ == strip_desktop(s@),
{
    let n = s.as_str().unicode_len();
    if n < 8 {
        proof {
            assert(s@.len() < 8);
        }
        return s.clone();
    }
    let suffix = s.as_str().substring_char(n - 8, n);
    proof {
        reveal_strlit(".desktop");
    }
    if suffix_matches(suffix) {
        proof {
            assert(s@.subrange(s@.len() - 8, s@.len() as int) == (".desktop")@);
        }
        let r = s.as_str().substring_char(0, n - 8).to_owned();
        proof {
            assert(r@ =~= s@.take(s@.len() - 8));
        }
        r
    } else {
        proof {
            assert(s@.subrange(s@.len() - 8, s@.len() as int) != (".desktop")@);
        }
        s.clone()
    }
}

/// Whether `suffix` is exactly `.desktop`.
fn suffix_matches(suffix: &str) -> (r: bool)
    ensures
        r == (suffix@ == (".desktop")@),
{
    let lit = ".desktop";
    let m = suffix.unicode_len();
    let n = lit.unicode_len();
    if m != n {
        proof {
            assert(suffix@.len() != lit@.len());
        }
        return false;
    }
    for k in 0..n
        invariant
            lit@ == (".desktop")@,
            m == suffix@.len(),
            n == lit@.len(),
            m == n,
            forall|j: int| 0 <= j < k ==> suffix@[j] == lit@[j],
    {
        if suffix.get_char(k) != lit.get_char(k) {
            proof {
                assert(suffix@[k as int] != lit@[k as int]);
            }
            return false;
        }
    }
    proof {
        assert(suffix@ =~= lit@);
    }
    true
}

/// Whether some string of `v` has the characters of `s`.
fn contains_string(v: &Vec<String>, s: &String) -> (r: bool)
    ensures
        r == exists|j: int| 0 <= j < v@.len() && (#[trigger] v@[j])@ == s@,
{
    let n = v.len();
    for i in 0..n
        invariant
            n == v@.len(),
            forall|j: int| 0 <= j < i ==> (#[trigger] v@[j])@ != s@,
    {
        if *&v[i] == *s {
            return true;
        }
    }
    false
}

/// Derive the set of running application identifiers from the raw keys of
/// the compositor's application-state mapping: strip the `.desktop`
/// suffix, discard empty results, and keep each identifier once.
pub fn derive_running_apps(keys: &Vec<String>) -> (r: Vec<String>)
    ensures
        forall|j1: int, j2: int|
            0 <= j1 < j2 < r@.len() ==> (#[trigger] r@[j1])@ != (#[trigger] r@[j2])@,
        forall|j: int| 0 <= j < r@.len() ==> app_set(
            keys@.map_values(|s: String| s@),
        ).contains((#[trigger] r@[j])@),
        forall|k: int|
            0 <= k < keys@.len() && strip_desktop((#[trigger] keys@[k])@).len() > 0
                ==> r@.map_values(|s: String| s@).contains(strip_desktop(keys@[k]@)),
{
    let mut r: Vec<String> = Vec::new();
    let n = keys.len();
    for i in 0..n
        invariant
            n == keys@.len(),
            forall|j1: int, j2: int|
                0 <= j1 < j2 < r@.len() ==> (#[trigger] r@[j1])@ != (#[trigger] r@[j2])@,
            forall|j: int| 0 <= j < r@.len() ==> app_set(
                keys@.map_values(|s: String| s@),
            ).contains((#[trigger] r@[j])@),
            forall|k: int|
                0 <= k < i && strip_desktop((#[trigger] keys@[k])@).len() > 0
                    ==> r@.map_values(|s: String| s@).contains(strip_desktop(keys@[k]@)),
    {
        let ghost prev = r@;
        let stripped = strip_desktop_exec(&keys[i]);
        let keep = !stripped.as_str().is_empty() && !contains_string(&r, &stripped);
        if keep {
            r.push(stripped);
        }
        proof {
            let m = |s: String| s@;
            let full = keys@.map_values(m);
            assert(full[i as int] == keys@[i as int]@);
            assert forall|k: int|
                0 <= k < i + 1 && strip_desktop((#[trigger] keys@[k])@).len() > 0 implies r@
                .map_values(m).contains(strip_desktop(keys@[k]@)) by {
                let x = strip_desktop(keys@[k]@);
                if k < i {
                    let j = choose|j: int|
                        0 <= j < prev.map_values(m).len() && prev.map_values(m)[j] == x;
                    assert(r@.map_values(m)[j] == x);
                } else {
                    assert(stripped@ == x);
                    if keep {
                        assert(r@.map_values(m)[r@.len() - 1] == x);
                    } else {
                        let j = choose|j: int|
                            0 <= j < prev.len() && (#[trigger] prev[j])@ == stripped@;
                        assert(r@.map_values(m)[j] == x);
                    }
                }
            }
            assert forall|j: int| 0 <= j < r@.len() implies app_set(full).contains(
                (#[trigger] r@[j])@,
            ) by {
                if j < prev.len() {
                    assert(prev[j]@ == r@[j]@);
                } else {
                    assert(r@[j]@ == stripped@);
                    assert(strip_desktop(full[i as int]) == stripped@);
                    assert(stripped@.len() > 0);
                }
            }
        }
    }
    proof {
        assert(keys@.take(n as int) =~= keys@);
    }
    r
}

/// The identifiers of `last` that do not stand in `current`, in order:
/// the applications that have disappeared since the last notification.
pub open spec fn gone_apps(last: Seq<Seq<char>>, current: Seq<Seq<char>>) -> Seq<Seq<char>> {
    last.filter(|x: Seq<char>| !current.contains(x))
}

/// The previously running applications that are running no longer: the
/// elements of `last_apps` that do not stand in `current`, in order.
pub fn closed_apps(last_apps: &Vec<String>, current: &Vec<String>) -> (r: Vec<String>)
    ensures
        r@.map_values(|s: String| s@) == gone_apps(
            last_apps@.map_values(|s: String| s@),
            current@.map_values(|s: String| s@),
        ),
{
    let mut r: Vec<String> = Vec::new();
    let n = last_apps.len();
    for i in 0..n
        invariant
            n == last_apps@.len(),
            r@.map_values(|s: String| s@) == gone_apps(
                last_apps@.take(i as int).map_values(|s: String| s@),
                current@.map_values(|s: String| s@),
            ),
    {
        let ghost prev = r@;
        let present = contains_string(current, &last_apps[i]);
        if !present {
            r.push(last_apps[i].clone());
        }
        proof {
            reveal(Seq::filter);
            let m = |s: String| s@;
            let cm = current@.map_values(m);
            let x = last_apps@[i as int]@;
            assert(last_apps@.take(i + 1).map_values(m).drop_last() =~= last_apps@.take(
                i as int,
            ).map_values(m));
            assert(last_apps@.take(i + 1).map_values(m).last() == x);
            if present {
                let j = choose|j: int| 0 <= j < current@.len() && (#[trigger] current@[j])@ == x;
                assert(cm[j] == x);
                assert(cm.contains(x));
                assert(r@.map_values(m) =~= prev.map_values(m));
            } else {
                assert forall|j: int| 0 <= j < cm.len() implies cm[j] != x by {
                    assert(cm[j] == (current@[j])@);
                }
                assert(!cm.contains(x));
                assert(r@.map_values(m) =~= prev.map_values(m).push(x));
            }
        }
    }
    proof {
        assert(last_apps@.take(n as int) =~= last_apps@);
    }
    r
}

/// One step of the watcher: given the remembered set of running
/// applications and the outcome of re-fetching the application-state
/// mapping (`None` when the fetch failed), yield the set to remember next
/// and the applications whose sessions are to be torn down.  A failed
/// fetch is logged by the caller and changes nothing; the next
/// notification retries.
pub fn watcher_step(last_apps: Vec<String>, fetched_keys: Option<Vec<String>>) -> (r: (
    Vec<String>,
    Vec<String>,
))
    ensures
        match fetched_keys {
            None => r.0@ == last_apps@ && r.1@.len() == 0,
            Some(keys) => {
                &&& (forall|j1: int, j2: int|
                    0 <= j1 < j2 < r.0@.len() ==> (#[trigger] r.0@[j1])@ != (#[trigger] r.0@[j2])@)
                &&& (forall|j: int| 0 <= j < r.0@.len() ==> app_set(
                    keys@.map_values(|s: String| s@),
                ).contains((#[trigger] r.0@[j])@))
                &&& (forall|k: int|
                    0 <= k < keys@.len() && strip_desktop((#[trigger] keys@[k])@).len() > 0
                        ==> r.0@.map_values(|s: String| s@).contains(strip_desktop(keys@[k]@)))
                &&& r.1@.map_values(|s: String| s@) == gone_apps(
                    last_apps@.map_values(|s: String| s@),
                    r.0@.map_values(|s: String| s@),
                )
            },
        },
{
    match fetched_keys {
        None => (last_apps, Vec::new()),
        Some(keys) => {
            let current = derive_running_apps(&keys);
            let to_close = closed_apps(&last_apps, &current);
            (current, to_close)
        },
    }
}

} // verus!
