//! Finding the process to measure: by its number, by its name and by the window in front.

use std::collections::HashMap;

use vstd::prelude::*;

use crate::sys::from_wide;
use crate::text::contains;
use crate::text::to_lowercase;

verus! {

broadcast use vstd::std_specs::hash::group_hash_axioms;

#[derive(Debug, PartialEq)]
pub struct ProcessInfo {
    pub pid: u32,
    pub name: String,
}

#[verifier::ext_equal]
pub struct ProcessInfoView {
    pub pid: u32,
    pub name: Seq<char>,
}

impl View for ProcessInfo {
    type V = ProcessInfoView;

    open spec fn view(&self) -> ProcessInfoView {
        ProcessInfoView { pid: self.pid, name: self.name@ }
    }
}

impl Clone for ProcessInfo {
    fn clone(&self) -> (r: ProcessInfo)
        ensures
            r@ == self@,
    {
        ProcessInfo { pid: self.pid, name: self.name.clone() }
    }
}

pub open spec fn process_views(list: Seq<ProcessInfo>) -> Seq<ProcessInfoView> {
    list.map_values(|p: ProcessInfo| p@)
}

/// The name of a process as the system writes it: UTF-16 up to a zero.
pub open spec fn entry_view(entry: (u32, Vec<u16>)) -> ProcessInfoView {
    ProcessInfoView {
        pid: entry.0,
        name: crate::sys::from_utf16(crate::sys::before_zero(entry.1@)),
    }
}

/// The processes of a snapshot, in its order.
pub fn list_processes(entries: &Vec<(u32, Vec<u16>)>) -> (r: Vec<ProcessInfo>)
    ensures
        process_views(r@) == entries@.map_values(|e: (u32, Vec<u16>)| entry_view(e)),
{
    let mut result: Vec<ProcessInfo> = Vec::new();
    let mut i: usize = 0;
    while i < entries.len()
        invariant
            i <= entries.len(),
            result.len() == i,
            forall|j: int| 0 <= j < i ==> (#[trigger] result@[j])@ == entry_view(entries@[j]),
        decreases entries.len() - i,
    {
        result.push(ProcessInfo { pid: entries[i].0, name: from_wide(entries[i].1.as_slice()) });
        i += 1;
    }
    proof {
        assert(process_views(result@) =~= entries@.map_values(
            |e: (u32, Vec<u16>)| entry_view(e),
        ));
    }
    result
}

/// The name of each process: where a number occurs twice, the later name counts.
pub open spec fn names_by_pid(list: Seq<ProcessInfoView>) -> Map<u32, Seq<char>>
    decreases list.len(),
{
    if list.len() == 0 {
        Map::empty()
    } else {
        names_by_pid(list.drop_last()).insert(list.last().pid, list.last().name)
    }
}

/// The texts in a map.
pub open spec fn text_map(m: Map<u32, String>) -> Map<u32, Seq<char>> {
    m.map_values(|s: String| s@)
}

pub fn name_by_pid(processes: &Vec<ProcessInfo>) -> (r: HashMap<u32, String>)
    ensures
        text_map(r@) == names_by_pid(process_views(processes@)),
{
    let mut names: HashMap<u32, String> = HashMap::new();
    let mut i: usize = 0;
    proof {
        assert(text_map(names@) =~= names_by_pid(process_views(processes@.take(0))));
    }
    while i < processes.len()
        invariant
            i <= processes.len(),
            text_map(names@) == names_by_pid(process_views(processes@.take(i as int))),
        decreases processes.len() - i,
    {
        let ghost before = names@;
        names.insert(processes[i].pid, processes[i].name.clone());
        proof {
            let seen = process_views(processes@.take(i + 1));
            assert(seen.drop_last() =~= process_views(processes@.take(i as int)));
            assert(seen.last() == processes@[i as int]@);
            assert(text_map(names@) =~= text_map(before).insert(
                processes@[i as int].pid,
                processes@[i as int].name@,
            ));
        }
        i += 1;
    }
    proof {
        assert(processes@.take(i as int) =~= processes@);
    }
    names
}

/// The processes whose name holds a text, whatever the case of the letters.
pub open spec fn named(list: Seq<ProcessInfoView>, needle: Seq<char>) -> Seq<ProcessInfoView> {
    list.filter(
        |p: ProcessInfoView|
            crate::text::holds_text(
                crate::text::lowercase(p.name),
                crate::text::lowercase(needle),
            ),
    )
}

pub fn find_by_name(processes: &Vec<ProcessInfo>, needle: &str) -> (r: Vec<ProcessInfo>)
    ensures
        process_views(r@) == named(process_views(processes@), needle@),
{
    let wanted = to_lowercase(needle);
    let mut found: Vec<ProcessInfo> = Vec::new();
    let mut i: usize = 0;
    proof {
        reveal_with_fuel(Seq::filter, 1);
        assert(process_views(found@) =~= named(process_views(processes@.take(0)), needle@));
    }
    while i < processes.len()
        invariant
            i <= processes.len(),
            wanted@ == crate::text::lowercase(needle@),
            process_views(found@) == named(process_views(processes@.take(i as int)), needle@),
        decreases processes.len() - i,
    {
        let name = to_lowercase(processes[i].name.as_str());
        let ghost before = process_views(found@);
        let ghost seen = process_views(processes@.take(i + 1));
        proof {
            reveal_with_fuel(Seq::filter, 1);
            assert(seen.drop_last() =~= process_views(processes@.take(i as int)));
            assert(seen.last() == processes@[i as int]@);
        }
        if contains(name.as_str(), wanted.as_str()) {
            found.push(processes[i].clone());
            proof {
                assert(process_views(found@) =~= before.push(processes@[i as int]@));
            }
        }
        i += 1;
    }
    proof {
        assert(processes@.take(i as int) =~= processes@);
    }
    found
}

/// What is said of a process whose name is not known.
pub open spec fn unknown_name() -> Seq<char> {
    "?"@
}

/// A process and the title of its window.
pub open spec fn front_view(front: Option<(ProcessInfo, String)>) -> Option<
    (ProcessInfoView, Seq<char>),
> {
    match front {
        Some((process, title)) => Some((process@, title@)),
        None => None,
    }
}

/// The process of a window, with the window's title.
pub open spec fn process_of_window(
    window: Option<(u32, Seq<u16>)>,
    list: Seq<ProcessInfoView>,
) -> Option<(ProcessInfoView, Seq<char>)> {
    match window {
        Some((pid, title)) if pid != 0 => {
            let names = names_by_pid(list);
            let name = if names.contains_key(pid) {
                names[pid]
            } else {
                unknown_name()
            };
            Some(
                (
                    ProcessInfoView { pid, name },
                    crate::sys::from_utf16(crate::sys::before_zero(title)),
                ),
            )
        },
        _ => None,
    }
}

/// A window by the number of its process and its title, for contracts.
pub open spec fn window_view(window: Option<(u32, Vec<u16>)>) -> Option<(u32, Seq<u16>)> {
    match window {
        Some((pid, title)) => Some((pid, title@)),
        None => None,
    }
}

/// The process of the window in front, if there is such a window and the system knows its
/// process, with the window's title.
pub fn foreground_process(
    window: &Option<(u32, Vec<u16>)>,
    processes: &Vec<ProcessInfo>,
) -> (r: Option<(ProcessInfo, String)>)
    ensures
        front_view(r) == process_of_window(window_view(*window), process_views(processes@)),
{
    match window {
        None => None,
        Some((pid, title)) => {
            if *pid == 0 {
                return None;
            }
            let names = name_by_pid(processes);
            proof {
                assert(names@.contains_key(*pid) == text_map(names@).contains_key(*pid));
            }
            let name = match names.get(pid) {
                Some(name) => name.clone(),
                None => "?".to_string(),
            };
            Some((ProcessInfo { pid: *pid, name }, from_wide(title.as_slice())))
        },
    }
}

/// The name found for a process is one that the list gives it, and every process of the list
/// has a name.
pub proof fn law_names_come_from_the_list(list: Seq<ProcessInfoView>, pid: u32)
    ensures
        names_by_pid(list).contains_key(pid) <==> exists|i: int|
            0 <= i < list.len() && (#[trigger] list[i]).pid == pid,
        names_by_pid(list).contains_key(pid) ==> exists|i: int|
            0 <= i < list.len() && (#[trigger] list[i]).pid == pid && list[i].name
                == names_by_pid(list)[pid],
    decreases list.len(),
{
    if list.len() > 0 {
        let rest = list.drop_last();
        law_names_come_from_the_list(rest, pid);
        let last = list.len() - 1;
        if list[last].pid == pid {
            assert(names_by_pid(list)[pid] == list[last].name);
        } else if names_by_pid(rest).contains_key(pid) {
            let i = choose|i: int|
                0 <= i < rest.len() && (#[trigger] rest[i]).pid == pid && rest[i].name
                    == names_by_pid(rest)[pid];
            assert(list[i] == rest[i]);
        } else {
            assert forall|i: int| 0 <= i < list.len() implies (#[trigger] list[i]).pid != pid by {
                if i < last {
                    assert(rest[i] == list[i]);
                }
            }
        }
    }
}

/// A search by name finds exactly the processes whose name holds the words, whatever the case.
pub proof fn law_search_finds_by_name(
    list: Seq<ProcessInfoView>,
    needle: Seq<char>,
    process: ProcessInfoView,
)
    ensures
        named(list, needle).contains(process) <==> list.contains(process)
            && crate::text::holds_text(
            crate::text::lowercase(process.name),
            crate::text::lowercase(needle),
        ),
        named(list, needle).len() <= list.len(),
    decreases list.len(),
{
    reveal_with_fuel(Seq::filter, 1);
    if list.len() > 0 {
        let front = list.drop_last();
        let last = list.last();
        law_search_finds_by_name(front, needle, process);
        let kept = named(front, needle);
        let all = named(list, needle);
        assert(list[list.len() - 1] == last);
        if list.contains(process) && process != last {
            let i = choose|i: int| 0 <= i < list.len() && list[i] == process;
            assert(front[i] == process);
        }
        if front.contains(process) {
            let i = choose|i: int| 0 <= i < front.len() && front[i] == process;
            assert(list[i] == process);
        }
        if kept.contains(process) {
            let i = choose|i: int| 0 <= i < kept.len() && kept[i] == process;
            assert(all[i] == process);
        }
        if crate::text::holds_text(
            crate::text::lowercase(last.name),
            crate::text::lowercase(needle),
        ) {
            assert(all == kept.push(last));
            assert(all[kept.len() as int] == last);
        } else {
            assert(all == kept);
        }
        if all.contains(process) && !kept.contains(process) {
            let i = choose|i: int| 0 <= i < all.len() && all[i] == process;
            if i < kept.len() {
                assert(kept[i] == process);
            }
        }
    }
}

/// The process of the window in front is the one of the window's number, with the name that the
/// list has for it, or a question mark; the title is the window's own, up to its end.
pub proof fn law_front_process_is_that_of_the_window(
    pid: u32,
    title: Seq<u16>,
    list: Seq<ProcessInfoView>,
)
    requires
        pid != 0,
    ensures
        ({
            let front = process_of_window(Some((pid, title)), list);
            &&& front is Some
            &&& (front->0).0.pid == pid
            &&& (front->0).1 == crate::sys::from_utf16(crate::sys::before_zero(title))
            &&& (exists|i: int| 0 <= i < list.len() && (#[trigger] list[i]).pid == pid)
                ==> list.contains((front->0).0)
            &&& (forall|i: int| 0 <= i < list.len() ==> (#[trigger] list[i]).pid != pid)
                ==> (front->0).0.name == "?"@
        }),
        process_of_window(Some((0u32, title)), list) is None,
        process_of_window(None, list) is None,
{
    lemma_names_of(list, pid);
}

proof fn lemma_names_of(list: Seq<ProcessInfoView>, pid: u32)
    ensures
        names_by_pid(list).contains_key(pid) ==> list.contains(
            (ProcessInfoView { pid, name: names_by_pid(list)[pid] }),
        ),
        (exists|i: int| 0 <= i < list.len() && (#[trigger] list[i]).pid == pid)
            ==> names_by_pid(list).contains_key(pid),
    decreases list.len(),
{
    if list.len() > 0 {
        let front = list.drop_last();
        lemma_names_of(front, pid);
        assert(list[list.len() - 1] == list.last());
        if list.last().pid != pid {
            if names_by_pid(list).contains_key(pid) {
                let process = ProcessInfoView { pid, name: names_by_pid(front)[pid] };
                let i = choose|i: int| 0 <= i < front.len() && front[i] == process;
                assert(list[i] == process);
            }
            if exists|i: int| 0 <= i < list.len() && (#[trigger] list[i]).pid == pid {
                let i = choose|i: int| 0 <= i < list.len() && (#[trigger] list[i]).pid == pid;
                assert(front[i].pid == pid);
            }
        } else {
            assert(list.last() == (ProcessInfoView { pid, name: names_by_pid(list)[pid] }));
        }
    }
}

} // verus!
