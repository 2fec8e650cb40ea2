//! Grouping for platforms with window enumeration: one entry per
//! resolved executable, visibility merged over all its processes, a
//! display name cut from the path, and superuser processes flagged.

use vstd::prelude::*;

use vstd::string::{StrSliceExecFns, StringExecFns};

use std::collections::HashSet;

use crate::intercept_conf::PID;
use crate::processes::{lists_exe, models, ProcessInfo, ProcessList, ProcessRecord,
    WindowRecord};

verus! {

broadcast use vstd::std_specs::hash::group_hash_axioms;

/// The characters after the last path separator; the whole string when
/// there is none, and empty when the string ends in one.
pub open spec fn after_last_slash(s: Seq<char>) -> Seq<char>
    decreases s.len(),
{
    if s.len() == 0 {
        s
    } else if s[s.len() - 1] == '/' {
        seq![]
    } else {
        after_last_slash(s.drop_last()).push(s[s.len() - 1])
    }
}

/// `s` with every trailing path separator removed.
pub open spec fn strip_trailing_slashes(s: Seq<char>) -> Seq<char>
    decreases s.len(),
{
    if s.len() == 0 || s[s.len() - 1] != '/' {
        s
    } else {
        strip_trailing_slashes(s.drop_last())
    }
}

/// The display name cut from an executable path: the final path
/// component, trailing separators ignored; where that component is
/// empty or a relative entry (the current or the parent directory),
/// the whole path stands in.
pub open spec fn display_name_of(path: Seq<char>) -> Seq<char> {
    let f = after_last_slash(strip_trailing_slashes(path));
    if f.len() == 0 || f == seq!['.'] || f == seq!['.', '.'] {
        path
    } else {
        f
    }
}

/// Every entry for this executable marked visible.
pub open spec fn mark_visible(
    acc: Seq<(Seq<char>, Seq<char>, bool, bool)>,
    exe: Seq<char>,
) -> Seq<(Seq<char>, Seq<char>, bool, bool)> {
    acc.map_values(
        |m: (Seq<char>, Seq<char>, bool, bool)|
            if m.0 == exe {
                (m.0, m.1, true, m.3)
            } else {
                m
            },
    )
}

/// The grouped list the records before `procs` have produced, extended
/// by the records of `procs`.  A record without a resolved executable
/// is skipped.  A repeated executable only merges visibility: when the
/// process has a visible window, its executable's entry becomes
/// visible.  A new executable appends an entry carrying its display
/// name, the visibility of this first process, and whether it runs as
/// the superuser.
pub open spec fn group_rec(
    procs: Seq<ProcessRecord>,
    vis: Set<u32>,
    acc: Seq<(Seq<char>, Seq<char>, bool, bool)>,
) -> Seq<(Seq<char>, Seq<char>, bool, bool)>
    decreases procs.len(),
{
    if procs.len() == 0 {
        acc
    } else {
        let p = procs[0];
        let acc2 = match p.executable {
            Some(e) => {
                if lists_exe(acc, e@) {
                    if vis.contains(p.pid) {
                        mark_visible(acc, e@)
                    } else {
                        acc
                    }
                } else {
                    acc.push(
                        (e@, display_name_of(e@), vis.contains(p.pid), p.euid == Some(0u32)),
                    )
                }
            },
            None => acc,
        };
        group_rec(procs.drop_first(), vis, acc2)
    }
}

/// What grouping a whole process table yields.
pub open spec fn group(procs: Seq<ProcessRecord>, vis: Set<u32>) -> Seq<
    (Seq<char>, Seq<char>, bool, bool),
> {
    group_rec(procs, vis, seq![])
}

/// No executable is listed twice.
pub open spec fn unique_exes(acc: Seq<(Seq<char>, Seq<char>, bool, bool)>) -> bool {
    forall|a: int, b: int| 0 <= a < b < acc.len() ==> acc[a].0 != acc[b].0
}

/// Cut the display name from an executable path.
pub fn display_name(path: &String) -> (r: String)
    ensures
        r@ == display_name_of(path@),
{
    let n = path.as_str().unicode_len();
    let mut end = n;
    proof {
        assert(path@.take(n as int) =~= path@);
    }
    while end > 0 && path.as_str().get_char(end - 1) == '/'
        invariant
            end <= n,
            n == path@.len(),
            strip_trailing_slashes(path@) == strip_trailing_slashes(path@.take(end as int)),
        decreases end,
    {
        proof {
            assert(path@.take(end as int).last() == path@[end - 1]);
            assert(path@.take(end as int).drop_last() =~= path@.take(end - 1));
        }
        end = end - 1;
    }
    let ghost t = path@.take(end as int);
    proof {
        if end > 0 {
            assert(t.last() == path@[end - 1]);
        }
        assert(strip_trailing_slashes(t) == t);
    }
    let mut cut: usize = 0;
    let mut i: usize = 0;
    proof {
        assert(path@.take(0) =~= Seq::<char>::empty());
    }
    while i < end
        invariant
            cut <= i <= end <= n,
            n == path@.len(),
            after_last_slash(path@.take(i as int)) == path@.subrange(cut as int, i as int),
        decreases end - i,
    {
        let c = path.as_str().get_char(i);
        proof {
            assert(path@.take(i as int + 1).drop_last() =~= path@.take(i as int));
            assert(path@.take(i as int + 1).last() == path@[i as int]);
            if c == '/' {
                assert(after_last_slash(path@.take(i as int + 1)) =~= path@.subrange(
                    i as int + 1,
                    i as int + 1,
                ));
            } else {
                assert(after_last_slash(path@.take(i as int + 1)) =~= path@.subrange(
                    cut as int,
                    i as int + 1,
                ));
            }
        }
        if c == '/' {
            cut = i + 1;
        }
        i = i + 1;
    }
    let ghost f = path@.subrange(cut as int, end as int);
    proof {
        assert(after_last_slash(t) == f);
    }
    if end - cut == 0 {
        proof {
            assert(f.len() == 0);
        }
        return path.clone();
    }
    let is_dot = end - cut == 1 && path.as_str().get_char(cut) == '.';
    let is_dotdot = end - cut == 2 && path.as_str().get_char(cut) == '.' && path.as_str().get_char(
        cut + 1,
    ) == '.';
    proof {
        assert(f[0] == path@[cut as int]);
        if f.len() == 2 {
            assert(f[1] == path@[cut as int + 1]);
        }
        if is_dot {
            assert(f =~= seq!['.']);
        } else {
            assert(f != seq!['.']) by {
                if f == seq!['.'] {
                    assert(f.len() == 1 && f[0] == '.');
                }
            };
        }
        if is_dotdot {
            assert(f =~= seq!['.', '.']);
        } else {
            assert(f != seq!['.', '.']) by {
                if f == seq!['.', '.'] {
                    assert(f.len() == 2 && f[0] == '.' && f[1] == '.');
                }
            };
        }
    }
    if is_dot || is_dotdot {
        path.clone()
    } else {
        String::from_str(path.as_str().substring_char(cut, end))
    }
}

/// The index of the entry listing this executable, if there is one.
fn find_exe_index(out: &Vec<ProcessInfo>, exe: &String) -> (r: Option<usize>)
    ensures
        match r {
            Some(j) => j < out@.len() && models(out@)[j as int].0 == exe@,
            None => !lists_exe(models(out@), exe@),
        },
{
    let mut j: usize = 0;
    while j < out.len()
        invariant
            j <= out@.len(),
            forall|k: int| 0 <= k < j ==> models(out@)[k].0 != exe@,
        decreases out@.len() - j,
    {
        if out[j].executable == *exe {
            proof {
                assert(models(out@)[j as int].0 == exe@);
            }
            return Some(j);
        }
        j = j + 1;
    }
    None
}

/// Group a process table by executable, merging window visibility.
/// Every resolved executable is listed exactly once, in order of first
/// appearance; an entry is visible exactly when some process of that
/// executable up to now owned a visible window.
pub fn active_executables(procs: &Vec<ProcessRecord>, visible: &HashSet<PID>) -> (r: ProcessList)
    ensures
        models(r@) == group(procs@, visible@),
{
    let mut out: Vec<ProcessInfo> = Vec::new();
    let mut i: usize = 0;
    proof {
        assert(procs@.skip(0) =~= procs@);
        assert(models(out@) =~= Seq::<(Seq<char>, Seq<char>, bool, bool)>::empty());
    }
    while i < procs.len()
        invariant
            i <= procs@.len(),
            unique_exes(models(out@)),
            group(procs@, visible@) == group_rec(
                procs@.skip(i as int),
                visible@,
                models(out@),
            ),
        decreases procs@.len() - i,
    {
        let ghost pre = models(out@);
        proof {
            assert(procs@.skip(i as int)[0] == procs@[i as int]);
            assert(procs@.skip(i as int).drop_first() =~= procs@.skip(i as int + 1));
        }
        let record = &procs[i];
        match &record.executable {
            None => {},
            Some(e) => {
                match find_exe_index(&out, e) {
                    Some(j) => {
                        if visible.contains(&record.pid) {
                            let mut entry = out.remove(j);
                            entry.is_visible = true;
                            out.insert(j, entry);
                            proof {
                                assert(models(out@) =~= mark_visible(pre, e@));
                            }
                        }
                    },
                    None => {
                        let is_sys = match record.euid {
                            Some(id) => id == 0,
                            None => false,
                        };
                        let info = ProcessInfo {
                            executable: e.clone(),
                            display_name: display_name(e),
                            is_visible: visible.contains(&record.pid),
                            is_system: is_sys,
                        };
                        out.push(info);
                        proof {
                            assert(models(out@) =~= pre.push(
                                (
                                    e@,
                                    display_name_of(e@),
                                    visible@.contains(record.pid),
                                    record.euid == Some(0u32),
                                ),
                            ));
                        }
                    },
                }
            },
        }
        i = i + 1;
    }
    proof {
        assert(procs@.skip(i as int) =~= Seq::<ProcessRecord>::empty());
    }
    out
}

/// The process ids owning the enumerated windows.  The enumeration is
/// read as the platform walks it: every record but the final one is
/// consulted, and a record without an owner contributes nothing.
pub open spec fn owner_pids(ws: Seq<WindowRecord>, n: int) -> Set<u32>
    decreases n,
{
    if n <= 0 {
        Set::empty()
    } else {
        match ws[n - 1].owner_pid {
            Some(p) => owner_pids(ws, n - 1).insert(p),
            None => owner_pids(ws, n - 1),
        }
    }
}

/// The set of process ids that own a visible window, extracted from
/// the window enumeration the surrounding process read.  On platforms
/// without window enumeration the list is empty and so is the result.
pub fn visible_windows(windows: &Vec<WindowRecord>) -> (r: HashSet<PID>)
    ensures
        r@ == owner_pids(windows@, windows@.len() - 1),
{
    let mut pids: HashSet<PID> = HashSet::new();
    if windows.len() == 0 {
        return pids;
    }
    let end = windows.len() - 1;
    let mut i: usize = 0;
    while i < end
        invariant
            i <= end < windows@.len() + 1,
            end == windows@.len() - 1,
            pids@ == owner_pids(windows@, i as int),
        decreases end - i,
    {
        match windows[i].owner_pid {
            Some(p) => {
                pids.insert(p);
            },
            None => {},
        }
        i = i + 1;
    }
    pids
}

} // verus!
