//! The application's list of recently opened Tomes.

use vstd::prelude::*;

use crate::text::{owned, str_eq};

verus! {

/// Most Tomes the recent list keeps.
pub const MAX_RECENT_TOMES: usize = 10;

/// One Tome in the recent list.
pub struct RecentTome {
    pub path: String,
    pub name: String,
    pub description: Option<String>,
    /// RFC 3339.
    pub last_opened: String,
    /// The Tome's stable UUID, when known.
    pub tome_uuid: Option<String>,
    /// Whether the Tome has sync enabled.
    pub sync_enabled: bool,
}

/// What the application remembers between runs.
pub struct AppState {
    pub recent_tomes: Vec<RecentTome>,
}

impl AppState {
    pub fn new() -> (r: AppState)
        ensures
            r.recent_tomes@.len() == 0,
    {
        AppState { recent_tomes: Vec::new() }
    }
}

/// `s` without the entries for `path`, in order.
pub open spec fn other_paths(s: Seq<RecentTome>, path: Seq<char>) -> Seq<RecentTome>
    decreases s.len(),
{
    if s.len() == 0 {
        Seq::empty()
    } else {
        let p = other_paths(s.drop_last(), path);
        if s.last().path@ == path {
            p
        } else {
            p.push(s.last())
        }
    }
}

/// The recent list after opening `entry`: it first, then the other
/// entries in their order, at most ten in all.
pub open spec fn recent_after(list: Seq<RecentTome>, entry: RecentTome) -> Seq<RecentTome> {
    let full = seq![entry] + other_paths(list, entry.path@);
    if full.len() <= MAX_RECENT_TOMES {
        full
    } else {
        full.take(MAX_RECENT_TOMES as int)
    }
}

/// A recent-list entry.
pub fn new_recent_tome(
    path: &str,
    name: &str,
    description: Option<&str>,
    tome_uuid: Option<&str>,
    sync_enabled: bool,
    now: &str,
) -> (r: RecentTome)
    ensures
        r.path@ == path@,
        r.name@ == name@,
        crate::text::string_opt(r.description) == crate::text::str_opt(description),
        r.last_opened@ == now@,
        crate::text::string_opt(r.tome_uuid) == crate::text::str_opt(tome_uuid),
        r.sync_enabled == sync_enabled,
{
    RecentTome {
        path: owned(path),
        name: owned(name),
        description: match description {
            Some(d) => Some(owned(d)),
            None => None,
        },
        last_opened: owned(now),
        tome_uuid: match tome_uuid {
            Some(u) => Some(owned(u)),
            None => None,
        },
        sync_enabled,
    }
}

/// Put `entry` at the front of the recent list, dropping any other entry
/// for the same path and keeping at most ten.
pub fn add_recent_tome(state: &mut AppState, entry: RecentTome)
    ensures
        final(state).recent_tomes@ == recent_after(old(state).recent_tomes@, entry),
{
    let ghost old_list = state.recent_tomes@;
    let ghost path = entry.path@;
    let mut rest: Vec<RecentTome> = Vec::new();
    std::mem::swap(&mut rest, &mut state.recent_tomes);
    let mut kept: Vec<RecentTome> = Vec::new();
    let mut i: usize = 0;
    let n = rest.len();
    assert(old_list.take(0) =~= Seq::<RecentTome>::empty());
    while i < n
        invariant
            i <= n,
            n == old_list.len(),
            rest@ == old_list.skip(i as int),
            kept@ == other_paths(old_list.take(i as int), path),
            entry.path@ == path,
        decreases n - i,
    {
        let t = rest.remove(0);
        proof {
            assert(old_list.take(i + 1).drop_last() =~= old_list.take(i as int));
            assert(old_list.skip(i as int)[0] == old_list[i as int]);
            assert(old_list.skip(i as int).remove(0) =~= old_list.skip(i + 1));
        }
        if !str_eq(t.path.as_str(), entry.path.as_str()) {
            kept.push(t);
        }
        i = i + 1;
    }
    assert(old_list.take(n as int) =~= old_list);
    let mut out: Vec<RecentTome> = Vec::new();
    out.push(entry);
    let ghost first = out@;
    out.append(&mut kept);
    assert(out@ =~= first + other_paths(old_list, path));
    let ghost full = out@;
    out.truncate(MAX_RECENT_TOMES);
    proof {
        if full.len() <= MAX_RECENT_TOMES {
            assert(full.take(full.len() as int) =~= full);
        }
    }
    state.recent_tomes = out;
}

/// Set the sync flag of the entries for `path`; whether any changed.
pub fn set_sync_enabled_for_path(state: &mut AppState, path: &str, sync_enabled: bool) -> (changed: bool)
    ensures
        final(state).recent_tomes@.len() == old(state).recent_tomes@.len(),
        forall|i: int| 0 <= i < final(state).recent_tomes@.len() ==> {
            let before = #[trigger] old(state).recent_tomes@[i];
            let after = final(state).recent_tomes@[i];
            &&& after.path == before.path
            &&& after.name == before.name
            &&& after.description == before.description
            &&& after.last_opened == before.last_opened
            &&& after.tome_uuid == before.tome_uuid
            &&& after.sync_enabled == if before.path@ == path@ { sync_enabled } else { before.sync_enabled }
        },
        changed == exists|i: int| 0 <= i < old(state).recent_tomes@.len()
            && (#[trigger] old(state).recent_tomes@[i]).path@ == path@
            && old(state).recent_tomes@[i].sync_enabled != sync_enabled,
{
    let ghost orig = state.recent_tomes@;
    let mut changed = false;
    let mut i: usize = 0;
    while i < state.recent_tomes.len()
        invariant
            i <= state.recent_tomes@.len(),
            state.recent_tomes@.len() == orig.len(),
            forall|j: int| 0 <= j < orig.len() ==> {
                let before = #[trigger] orig[j];
                let after = state.recent_tomes@[j];
                &&& after.path == before.path
                &&& after.name == before.name
                &&& after.description == before.description
                &&& after.last_opened == before.last_opened
                &&& after.tome_uuid == before.tome_uuid
                &&& after.sync_enabled == if j < i && before.path@ == path@ { sync_enabled } else { before.sync_enabled }
            },
            changed == exists|j: int| 0 <= j < i && (#[trigger] orig[j]).path@ == path@ && orig[j].sync_enabled != sync_enabled,
        decreases orig.len() - i,
    {
        if str_eq(state.recent_tomes[i].path.as_str(), path) && state.recent_tomes[i].sync_enabled != sync_enabled {
            let mut t = state.recent_tomes.remove(i);
            let ghost pre = state.recent_tomes@;
            t.sync_enabled = sync_enabled;
            state.recent_tomes.insert(i, t);
            changed = true;
            proof {
                assert forall|j: int| 0 <= j < orig.len() implies {
                    let before = #[trigger] orig[j];
                    let after = state.recent_tomes@[j];
                    &&& after.path == before.path
                    &&& after.name == before.name
                    &&& after.description == before.description
                    &&& after.last_opened == before.last_opened
                    &&& after.tome_uuid == before.tome_uuid
                    &&& after.sync_enabled == if j < i + 1 && before.path@ == path@ { sync_enabled } else { before.sync_enabled }
                } by {
                    if j < i {
                        assert(state.recent_tomes@[j] == pre[j]);
                    } else if j > i {
                        assert(state.recent_tomes@[j] == pre[j - 1]);
                    }
                }
                assert(orig[i as int].path@ == path@ && orig[i as int].sync_enabled != sync_enabled);
            }
        } else {
            proof {
                assert(forall|j: int| 0 <= j < i + 1 && (#[trigger] orig[j]).path@ == path@ && orig[j].sync_enabled != sync_enabled ==> j < i);
            }
        }
        i = i + 1;
    }
    changed
}

/// No two entries share a path.
pub open spec fn distinct_paths(s: Seq<RecentTome>) -> bool {
    forall|i: int, j: int| 0 <= i < j < s.len() ==> s[i].path@ != s[j].path@
}

proof fn lemma_other_paths(s: Seq<RecentTome>, path: Seq<char>)
    ensures
        forall|i: int| 0 <= i < other_paths(s, path).len() ==> (#[trigger] other_paths(s, path)[i]).path@ != path,
        forall|i: int| 0 <= i < other_paths(s, path).len() ==> exists|j: int| 0 <= j < s.len() && s[j] == #[trigger] other_paths(s, path)[i],
        distinct_paths(s) ==> distinct_paths(other_paths(s, path)),
        other_paths(s, path).len() <= s.len(),
    decreases s.len(),
{
    if s.len() > 0 {
        let s1 = s.drop_last();
        lemma_other_paths(s1, path);
        let p = other_paths(s1, path);
        assert forall|i: int| 0 <= i < p.len() implies exists|j: int| 0 <= j < s.len() && s[j] == #[trigger] p[i] by {
            let j = choose|j: int| 0 <= j < s1.len() && s1[j] == p[i];
            assert(s[j] == s1[j]);
        }
        if s.last().path@ != path {
            let q = p.push(s.last());
            assert forall|i: int| 0 <= i < q.len() implies exists|j: int| 0 <= j < s.len() && s[j] == #[trigger] q[i] by {
                if i < p.len() {
                    assert(q[i] == p[i]);
                } else {
                    assert(s[s.len() - 1] == q[i]);
                }
            }
            if distinct_paths(s) {
                assert(distinct_paths(s1));
                assert forall|a: int, b: int| 0 <= a < b < q.len() implies q[a].path@ != q[b].path@ by {
                    if b == p.len() {
                        let j = choose|j: int| 0 <= j < s1.len() && s1[j] == p[a];
                        assert(s[j] == p[a]);
                        assert(s[s.len() - 1] == q[b]);
                    } else {
                        assert(q[a] == p[a] && q[b] == p[b]);
                    }
                }
            }
        }
    }
}

/// Opening a Tome keeps the recent list sensible: the Tome comes first,
/// no path is listed twice (if none was before), and the list holds at
/// most ten entries.
pub proof fn lemma_recent_list_distinct(list: Seq<RecentTome>, entry: RecentTome)
    requires
        distinct_paths(list),
    ensures
        recent_after(list, entry)[0] == entry,
        recent_after(list, entry).len() <= MAX_RECENT_TOMES,
        distinct_paths(recent_after(list, entry)),
{
    lemma_other_paths(list, entry.path@);
    let others = other_paths(list, entry.path@);
    let full = seq![entry] + others;
    assert forall|a: int, b: int| 0 <= a < b < full.len() implies full[a].path@ != full[b].path@ by {
        if a == 0 {
            assert(full[b] == others[b - 1]);
        } else {
            assert(full[a] == others[a - 1] && full[b] == others[b - 1]);
        }
    }
}

} // verus!
