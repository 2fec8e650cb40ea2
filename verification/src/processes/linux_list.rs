//! Grouping for platforms without window enumeration: one entry per
//! resolved executable, first occurrence wins, no display metadata.

use vstd::prelude::*;

use crate::processes::{lists_exe, models, ProcessInfo, ProcessList, ProcessRecord};

verus! {

/// The grouped list that the records before `procs` have produced so
/// far, extended by the records of `procs`: a record without a
/// resolved executable is skipped, a repeated executable is skipped,
/// and a new one appends an entry with empty display metadata.
pub open spec fn group_rec(
    procs: Seq<ProcessRecord>,
    acc: Seq<(Seq<char>, Seq<char>, bool, bool)>,
) -> Seq<(Seq<char>, Seq<char>, bool, bool)>
    decreases procs.len(),
{
    if procs.len() == 0 {
        acc
    } else {
        let acc2 = match procs[0].executable {
            Some(e) => {
                if lists_exe(acc, e@) {
                    acc
                } else {
                    acc.push((e@, Seq::<char>::empty(), false, false))
                }
            },
            None => acc,
        };
        group_rec(procs.drop_first(), acc2)
    }
}

/// What grouping a whole process table yields.
pub open spec fn group(procs: Seq<ProcessRecord>) -> Seq<(Seq<char>, Seq<char>, bool, bool)> {
    group_rec(procs, seq![])
}

/// Whether the list already carries an entry for this executable.
fn lists_exe_exec(out: &Vec<ProcessInfo>, exe: &String) -> (b: bool)
    ensures
        b == lists_exe(models(out@), exe@),
{
    let mut j: usize = 0;
    while j < out.len()
        invariant
            j <= out@.len(),
            forall|k: int| 0 <= k < j ==> models(out@)[k].0 != exe@,
        decreases out@.len() - j,
    {
        if out[j].executable == *exe {
            proof {
                assert(models(out@)[j as int].0 == exe@);
            }
            return true;
        }
        j = j + 1;
    }
    false
}

/// Group a process table by executable.  Every resolved executable is
/// listed exactly once, in order of first appearance; on these
/// platforms neither visibility nor display names are collected, so
/// the metadata fields stay empty.
pub fn active_executables(procs: &Vec<ProcessRecord>) -> (r: ProcessList)
    ensures
        models(r@) == group(procs@),
{
    let mut out: Vec<ProcessInfo> = Vec::new();
    let mut i: usize = 0;
    proof {
        assert(procs@.skip(0) =~= procs@);
        assert(models(out@) =~= Seq::<(Seq<char>, Seq<char>, bool, bool)>::empty());
    }
    while i < procs.len()
        invariant
            i <= procs@.len(),
            group(procs@) == group_rec(procs@.skip(i as int), models(out@)),
        decreases procs@.len() - i,
    {
        let ghost pre = models(out@);
        proof {
            assert(procs@.skip(i as int)[0] == procs@[i as int]);
            assert(procs@.skip(i as int).drop_first() =~= procs@.skip(i as int + 1));
        }
        match &procs[i].executable {
            None => {},
            Some(e) => {
                if !lists_exe_exec(&out, e) {
                    let info = ProcessInfo {
                        executable: e.clone(),
                        display_name: String::new(),
                        is_visible: false,
                        is_system: false,
                    };
                    out.push(info);
                    proof {
                        assert(models(out@) =~= pre.push(
                            (e@, Seq::<char>::empty(), false, false),
                        ));
                    }
                }
            },
        }
        i = i + 1;
    }
    proof {
        assert(procs@.skip(i as int) =~= Seq::<ProcessRecord>::empty());
    }
    out
}

} // verus!
