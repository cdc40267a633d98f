//! A measurement of frames from its target to its report.

use vstd::prelude::*;

use crate::cli::Args;
use crate::cli::ProviderChoice;
use crate::cli::Target;
use crate::cli::TargetView;
use crate::cli::EXIT_ACCESS_DENIED;
use crate::cli::EXIT_ERROR;
use crate::cli::EXIT_NO_FRAMES;
use crate::cli::EXIT_SUCCESS;
use crate::cli::EXIT_USAGE;
use crate::collect::Chain;
use crate::collect::Collector;
use crate::collect::EventKey;
use crate::collect::ProviderKey;
use crate::collect::State;
use crate::etw::OrphanSweep;
use crate::etw::Provider;
use crate::etw::StartError;
use crate::etw::TraceStats;
use crate::etw::ERROR_SUCCESS;
use crate::etw::SESSION_PREFIX;
use crate::paths::text_of;
use crate::procs::find_by_name;
use crate::procs::name_by_pid;
use crate::procs::names_by_pid;
use crate::procs::process_views;
use crate::procs::ProcessInfo;
use crate::procs::ProcessInfoView;
use crate::ranking::rank;
use crate::ranking::Weighted;
use crate::stats::MIN_SAMPLES_0_1_PERCENT;
use crate::stats::MIN_SAMPLES_1_PERCENT;
use crate::sys::Win32Error;
use crate::table::Ranked;
use crate::text::decimal;
use crate::text::finishes_with;
use crate::text::is_before;
use crate::text::join;
use crate::text::pad_left;
use crate::text::pad_right;
use crate::text::padded;
use crate::text::same_text;
use crate::text::signed;
use crate::text::spaced;
use crate::text::take_chars;
use crate::text::to_decimal;
use crate::text::to_lowercase;
use crate::text::to_signed;
use crate::text::views;

verus! {

broadcast use vstd::std_specs::hash::group_hash_axioms;

/// A line to show.
#[derive(Debug, PartialEq)]
pub enum Line {
    /// On the output.
    Text(String),
    /// On the output, with a rate per second of `width` characters in its middle.
    Rate { before: String, count: u64, width: u8, after: String },
    /// Among the messages.
    Note(String),
}

pub enum LineView {
    Text(Seq<char>),
    Rate { before: Seq<char>, count: u64, width: u8, after: Seq<char> },
    Note(Seq<char>),
}

impl View for Line {
    type V = LineView;

    open spec fn view(&self) -> LineView {
        match self {
            Line::Text(text) => LineView::Text(text@),
            Line::Rate { before, count, width, after } => LineView::Rate {
                before: before@,
                count: *count,
                width: *width,
                after: after@,
            },
            Line::Note(text) => LineView::Note(text@),
        }
    }
}

pub open spec fn line_views(lines: Seq<Line>) -> Seq<LineView> {
    lines.map_values(|line: Line| line@)
}

fn show(lines: &mut Vec<Line>, line: Line)
    ensures
        line_views(final(lines)@) == line_views(old(lines)@).push(line@),
{
    lines.push(line);
    proof {
        assert(line_views(lines@) =~= line_views(old(lines)@).push(line@));
    }
}

/// The lines with one more on the output.
pub open spec fn said(lines: Seq<LineView>, text: Seq<char>) -> Seq<LineView> {
    lines.push(LineView::Text(text))
}

fn say(lines: &mut Vec<Line>, text: String)
    ensures
        line_views(final(lines)@) == said(line_views(old(lines)@), text@),
{
    show(lines, Line::Text(text));
}

/// The lines with one more among the messages.
pub open spec fn noted(lines: Seq<LineView>, text: Seq<char>) -> Seq<LineView> {
    lines.push(LineView::Note(text))
}

fn note(lines: &mut Vec<Line>, text: String)
    ensures
        line_views(final(lines)@) == noted(line_views(old(lines)@), text@),
{
    show(lines, Line::Note(text));
}

// --- the list of processes ---

/// Whether a process stands before another one or level with it: by name in lower case, then by
/// number.
pub open spec fn not_after(a: ProcessInfoView, b: ProcessInfoView) -> bool {
    let x = crate::text::lowercase(a.name);
    let y = crate::text::lowercase(b.name);
    crate::text::before(x, y) || (x == y && a.pid <= b.pid)
}

/// How many processes at the front stand before one or level with it.
pub open spec fn process_place(list: Seq<ProcessInfoView>, process: ProcessInfoView) -> int
    decreases list.len(),
{
    if list.len() > 0 && not_after(list[0], process) {
        1 + process_place(list.skip(1), process)
    } else {
        0
    }
}

/// The processes in order.
pub open spec fn in_order(list: Seq<ProcessInfoView>) -> Seq<ProcessInfoView>
    decreases list.len(),
{
    if list.len() == 0 {
        seq![]
    } else {
        let rest = in_order(list.drop_last());
        rest.insert(process_place(rest, list.last()), list.last())
    }
}

proof fn lemma_process_place(list: Seq<ProcessInfoView>, process: ProcessInfoView, at: int)
    requires
        0 <= at <= list.len(),
        forall|i: int| 0 <= i < at ==> not_after(#[trigger] list[i], process),
        at < list.len() ==> !not_after(list[at], process),
    ensures
        process_place(list, process) == at,
    decreases list.len(),
{
    if at > 0 {
        let rest = list.skip(1);
        assert forall|i: int| 0 <= i < at - 1 implies not_after(#[trigger] rest[i], process) by {
            assert(rest[i] == list[i + 1]);
        }
        assert(not_after(list[0], process));
        lemma_process_place(rest, process, at - 1);
    }
}

proof fn lemma_process_place_bounds(list: Seq<ProcessInfoView>, process: ProcessInfoView)
    ensures
        0 <= process_place(list, process) <= list.len(),
        forall|i: int|
            0 <= i < process_place(list, process) ==> not_after(#[trigger] list[i], process),
        process_place(list, process) < list.len() ==> !not_after(
            list[process_place(list, process)],
            process,
        ),
    decreases list.len(),
{
    if list.len() > 0 && not_after(list[0], process) {
        let rest = list.skip(1);
        lemma_process_place_bounds(rest, process);
        assert forall|i: int| 0 <= i < process_place(list, process) implies not_after(
            #[trigger] list[i],
            process,
        ) by {
            if i > 0 {
                assert(rest[i - 1] == list[i]);
            }
        }
    }
}

proof fn lemma_not_after_total(a: ProcessInfoView, b: ProcessInfoView)
    ensures
        not_after(a, b) || not_after(b, a),
{
    let x = crate::text::lowercase(a.name);
    let y = crate::text::lowercase(b.name);
    crate::text::lemma_before_total(x, y);
}

proof fn lemma_not_after_chains(a: ProcessInfoView, b: ProcessInfoView, c: ProcessInfoView)
    requires
        not_after(a, b),
        not_after(b, c),
    ensures
        not_after(a, c),
{
    let x = crate::text::lowercase(a.name);
    let y = crate::text::lowercase(b.name);
    let z = crate::text::lowercase(c.name);
    if crate::text::before(x, y) && crate::text::before(y, z) {
        crate::text::lemma_before_chains(x, y, z);
    }
}

/// The list of processes is in order, and holds the processes it was made of.
pub proof fn law_processes_are_in_order(list: Seq<ProcessInfoView>)
    ensures
        forall|i: int, j: int|
            0 <= i < j < list.len() ==> not_after(
                #[trigger] in_order(list)[i],
                #[trigger] in_order(list)[j],
            ),
        in_order(list).to_multiset() == list.to_multiset(),
        in_order(list).len() == list.len(),
    decreases list.len(),
{
    broadcast use vstd::seq_lib::group_to_multiset_ensures;

    let all = in_order(list);
    if list.len() > 0 {
        let rest = in_order(list.drop_last());
        let last = list.last();
        let at = process_place(rest, last);
        law_processes_are_in_order(list.drop_last());
        lemma_process_place_bounds(rest, last);
        vstd::seq_lib::to_multiset_insert(rest, at, last);
        assert(list.drop_last().push(last) =~= list);
        assert forall|i: int, j: int| 0 <= i < j < all.len() implies not_after(
            #[trigger] all[i],
            #[trigger] all[j],
        ) by {
            let a = if i < at {
                i
            } else {
                i - 1
            };
            let b = if j < at {
                j
            } else {
                j - 1
            };
            if i != at && j != at {
                assert(not_after(rest[a], rest[b]));
            } else if i == at {
                lemma_not_after_total(rest[at], last);
                if j - 1 > at {
                    assert(not_after(rest[at], rest[j - 1]));
                    lemma_not_after_chains(last, rest[at], rest[j - 1]);
                }
            }
        }
    } else {
        assert(all =~= list);
    }
}

/// A line of the list of processes.
pub open spec fn process_line(process: ProcessInfoView) -> Seq<char> {
    padded(decimal(process.pid as nat), 8, ' ') + "  "@ + process.name
}

fn line_of(process: &ProcessInfo) -> (r: String)
    ensures
        r@ == process_line(process@),
{
    let mut r = pad_left(to_decimal(process.pid as u64).as_str(), 8, ' ');
    r.append("  ");
    r.append(process.name.as_str());
    r
}

/// The list of processes, as it is shown.
pub open spec fn process_lines(list: Seq<ProcessInfoView>) -> Seq<Seq<char>> {
    list.map_values(|p: ProcessInfoView| process_line(p))
}

fn sort_processes(list: Vec<ProcessInfo>) -> (r: Vec<ProcessInfo>)
    ensures
        process_views(r@) == in_order(process_views(list@)),
{
    let ghost all = process_views(list@);
    let mut out: Vec<ProcessInfo> = Vec::new();
    let mut i: usize = 0;
    proof {
        assert(process_views(out@) =~= in_order(all.take(0)));
    }
    while i < list.len()
        invariant
            i <= list.len(),
            all == process_views(list@),
            process_views(out@) == in_order(all.take(i as int)),
        decreases list.len() - i,
    {
        let process = list[i].clone();
        let name = to_lowercase(process.name.as_str());
        let mut at: usize = 0;
        let ghost sorted = process_views(out@);
        while at < out.len()
            invariant
                at <= out.len(),
                sorted == process_views(out@),
                name@ == crate::text::lowercase(process@.name),
                forall|k: int| 0 <= k < at ==> not_after(#[trigger] sorted[k], process@),
            ensures
                at <= out.len(),
                at < out.len() ==> !not_after(sorted[at as int], process@),
                forall|k: int| 0 <= k < at ==> not_after(#[trigger] sorted[k], process@),
            decreases out.len() - at,
        {
            let other = to_lowercase(out[at].name.as_str());
            let stays = is_before(other.as_str(), name.as_str()) || (same_text(
                other.as_str(),
                name.as_str(),
            ) && out[at].pid <= process.pid);
            if !stays {
                break ;
            }
            at += 1;
        }
        proof {
            lemma_process_place(sorted, process@, at as int);
            assert(all.take(i + 1).drop_last() =~= all.take(i as int));
            assert(all.take(i + 1).last() == process@);
        }
        out.insert(at, process);
        proof {
            assert(process_views(out@) =~= sorted.insert(at as int, process@));
        }
        i += 1;
    }
    proof {
        assert(all.take(i as int) =~= all);
    }
    out
}

/// What the list of processes shows: a head, the processes in order, and how many there are.
pub open spec fn listing(list: Seq<ProcessInfoView>) -> Seq<Seq<char>> {
    (seq!["     PID  ИМЯ"@] + process_lines(in_order(list))).push(
        "\nвсего: "@ + decimal(list.len()),
    )
}

/// The processes to list: those whose name holds the filter, or all.
pub open spec fn filtered(
    list: Seq<ProcessInfoView>,
    filter: Option<Seq<char>>,
) -> Seq<ProcessInfoView> {
    match filter {
        Some(needle) => crate::procs::named(list, needle),
        None => list,
    }
}

pub fn list_processes(processes: &Vec<ProcessInfo>, filter: &Option<String>) -> (r: Vec<String>)
    ensures
        views(r@) == listing(filtered(process_views(processes@), text_of(*filter))),
{
    let found = match filter {
        Some(needle) => find_by_name(processes, needle.as_str()),
        None => copy_processes(processes),
    };
    let ghost list = process_views(found@);
    let count: usize = found.len();
    let sorted = sort_processes(found);
    let mut lines: Vec<String> = Vec::new();
    lines.push("     PID  ИМЯ".to_string());
    let ghost shown = process_views(sorted@);
    let mut i: usize = 0;
    while i < sorted.len()
        invariant
            i <= sorted.len(),
            shown == process_views(sorted@),
            views(lines@) == seq!["     PID  ИМЯ"@] + process_lines(shown.take(i as int)),
        decreases sorted.len() - i,
    {
        let line = line_of(&sorted[i]);
        proof {
            crate::text::lemma_views_push(lines@, line);
            assert(process_lines(shown.take(i + 1)) =~= process_lines(shown.take(i as int)).push(
                line@,
            ));
        }
        lines.push(line);
        i += 1;
    }
    let mut last = "\nвсего: ".to_string();
    last.append(to_decimal(count as u64).as_str());
    lines.push(last);
    proof {
        assert(shown.take(i as int) =~= shown);
        assert(views(lines@) =~= listing(list));
    }
    lines
}

fn copy_processes(list: &Vec<ProcessInfo>) -> (r: Vec<ProcessInfo>)
    ensures
        process_views(r@) == process_views(list@),
{
    let mut copy: Vec<ProcessInfo> = Vec::new();
    let mut i: usize = 0;
    while i < list.len()
        invariant
            i <= list.len(),
            copy.len() == i,
            forall|j: int| 0 <= j < i ==> (#[trigger] copy@[j])@ == list@[j]@,
        decreases list.len() - i,
    {
        copy.push(list[i].clone());
        i += 1;
    }
    proof {
        assert(process_views(copy@) =~= process_views(list@));
    }
    copy
}

// --- the sweep ---

/// The lines on the sessions that were stopped.
pub open spec fn stopped_lines(lines: Seq<LineView>, names: Seq<Seq<char>>) -> Seq<LineView>
    decreases names.len(),
{
    if names.len() == 0 {
        lines
    } else {
        noted(
            stopped_lines(lines, names.drop_last()),
            "[cleanup]   остановлена "@ + names.last(),
        )
    }
}

/// The lines on the sessions that were not, each with what the system says of its error.
pub open spec fn failed_lines(
    lines: Seq<LineView>,
    failed: Seq<(Seq<char>, u32)>,
    words: Seq<Seq<char>>,
) -> Seq<LineView>
    decreases failed.len(),
{
    if failed.len() == 0 {
        lines
    } else {
        noted(
            failed_lines(lines, failed.drop_last(), words),
            "[cleanup]   НЕ остановлена "@ + failed.last().0 + ": "@ + crate::sys::error_text(
                failed.last().1,
                words[failed.len() - 1],
            ),
        )
    }
}

/// What is said of a sweep.
pub open spec fn sweep_lines(
    sweep: OrphanSweep,
    query_words: Seq<char>,
    words: Seq<Seq<char>>,
) -> Seq<LineView> {
    match sweep.query_error {
        Some(code) => seq![
            LineView::Note(
                "[cleanup] перечислить сессии не удалось: "@ + crate::sys::error_text(
                    code,
                    query_words,
                )
                    + ". Без прав администратора это ожидаемо; проверьте вручную: logman query -ets"@,
            ),
        ],
        None => failed_lines(
            stopped_lines(
                seq![
                    LineView::Note(
                        "[cleanup] сессий в системе: "@ + decimal(sweep.total_sessions as nat)
                            + ", осиротевших «MHMonitor*» остановлено: "@ + decimal(
                            sweep.stopped@.len(),
                        ),
                    ),
                ],
                views(sweep.stopped@),
            ),
            crate::etw::failure_views(sweep.failed@),
            words,
        ),
    }
}

/// The lines on a sweep, given what the system says of each error in it.
pub fn report_sweep(sweep: &OrphanSweep, query_words: &str, words: &Vec<String>) -> (r: Vec<Line>)
    requires
        words.len() == sweep.failed.len(),
    ensures
        line_views(r@) == sweep_lines(*sweep, query_words@, views(words@)),
{
    let mut lines: Vec<Line> = Vec::new();
    proof {
        assert(line_views(lines@) =~= seq![]);
    }
    if let Some(code) = sweep.query_error {
        let mut text = "[cleanup] перечислить сессии не удалось: ".to_string();
        text.append(Win32Error(code).describe(query_words).as_str());
        text.append(
            ". Без прав администратора это ожидаемо; проверьте вручную: logman query -ets",
        );
        note(&mut lines, text);
        proof {
            assert(line_views(lines@) =~= sweep_lines(*sweep, query_words@, views(words@)));
        }
        return lines;
    }
    let mut text = "[cleanup] сессий в системе: ".to_string();
    text.append(to_decimal(sweep.total_sessions as u64).as_str());
    text.append(", осиротевших «MHMonitor*» остановлено: ");
    text.append(to_decimal(sweep.stopped.len() as u64).as_str());
    let ghost head = seq![LineView::Note(text@)];
    note(&mut lines, text);
    let ghost stopped = views(sweep.stopped@);
    let ghost failed = crate::etw::failure_views(sweep.failed@);
    let mut i: usize = 0;
    proof {
        assert(line_views(lines@) =~= head);
        assert(stopped.take(0) =~= seq![]);
    }
    while i < sweep.stopped.len()
        invariant
            i <= sweep.stopped.len(),
            stopped == views(sweep.stopped@),
            line_views(lines@) == stopped_lines(head, stopped.take(i as int)),
        decreases sweep.stopped.len() - i,
    {
        let mut text = "[cleanup]   остановлена ".to_string();
        text.append(sweep.stopped[i].as_str());
        proof {
            assert(stopped.take(i + 1).drop_last() =~= stopped.take(i as int));
        }
        note(&mut lines, text);
        i += 1;
    }
    let ghost middle = stopped_lines(head, stopped);
    let mut j: usize = 0;
    proof {
        assert(stopped.take(i as int) =~= stopped);
        assert(failed.take(0) =~= seq![]);
    }
    while j < sweep.failed.len()
        invariant
            j <= sweep.failed.len(),
            words.len() == sweep.failed.len(),
            failed == crate::etw::failure_views(sweep.failed@),
            line_views(lines@) == failed_lines(middle, failed.take(j as int), views(words@)),
        decreases sweep.failed.len() - j,
    {
        let mut text = "[cleanup]   НЕ остановлена ".to_string();
        text.append(sweep.failed[j].0.as_str());
        text.append(": ");
        text.append(Win32Error(sweep.failed[j].1).describe(words[j].as_str()).as_str());
        proof {
            assert(failed.take(j + 1).drop_last() =~= failed.take(j as int));
        }
        note(&mut lines, text);
        j += 1;
    }
    proof {
        assert(failed.take(j as int) =~= failed);
    }
    lines
}

// --- the target ---

pub open spec fn target_view(
    r: Result<Option<ProcessInfo>, String>,
) -> Result<Option<ProcessInfoView>, Seq<char>> {
    match r {
        Ok(Some(process)) => Ok(Some(process@)),
        Ok(None) => Ok(None),
        Err(message) => Err(message@),
    }
}

/// The lines of processes, each set in.
pub open spec fn inset_lines(list: Seq<ProcessInfoView>) -> Seq<Seq<char>> {
    list.map_values(|p: ProcessInfoView| "  "@ + process_line(p))
}

/// The process to measure. A number is taken even where no process of that number was seen; a
/// name has to fit exactly one.
pub open spec fn chosen_target(
    target: TargetView,
    list: Seq<ProcessInfoView>,
    front: Option<ProcessInfoView>,
) -> Result<Option<ProcessInfoView>, Seq<char>> {
    match target {
        TargetView::All => Ok(None),
        TargetView::Pid(pid) => Ok(
            Some(
                ProcessInfoView {
                    pid,
                    name: if names_by_pid(list).contains_key(pid) {
                        names_by_pid(list)[pid]
                    } else {
                        "?"@
                    },
                },
            ),
        ),
        TargetView::Name(needle) => {
            let found = crate::procs::named(list, needle);
            if found.len() == 0 {
                Err("процесс с именем, содержащим «"@ + needle + "», не найден"@)
            } else if found.len() == 1 {
                Ok(Some(found[0]))
            } else {
                Err(
                    "под «"@ + needle + "» подходит несколько процессов — укажите --pid:\n"@
                        + crate::text::joined(inset_lines(found), "\n"@),
                )
            }
        },
        TargetView::Foreground(_) => match front {
            Some(process) => Ok(Some(process)),
            None => Err("не удалось определить окно в фокусе"@),
        },
    }
}

pub open spec fn front_process(front: Option<ProcessInfo>) -> Option<ProcessInfoView> {
    match front {
        Some(process) => Some(process@),
        None => None,
    }
}

/// The process to measure, given the processes and the one whose window is in front.
pub fn resolve_target(
    target: &Target,
    processes: &Vec<ProcessInfo>,
    front: &Option<ProcessInfo>,
) -> (r: Result<Option<ProcessInfo>, String>)
    ensures
        target_view(r) == chosen_target(
            target@,
            process_views(processes@),
            front_process(*front),
        ),
{
    match target {
        Target::All => Ok(None),
        Target::Pid(pid) => {
            let names = name_by_pid(processes);
            proof {
                assert(names@.contains_key(*pid) == crate::procs::text_map(names@).contains_key(
                    *pid,
                ));
            }
            let name = match names.get(pid) {
                Some(name) => name.clone(),
                None => "?".to_string(),
            };
            Ok(Some(ProcessInfo { pid: *pid, name }))
        },
        Target::Name(needle) => {
            let found = find_by_name(processes, needle.as_str());
            let ghost list = process_views(found@);
            if found.len() == 0 {
                let mut message = "процесс с именем, содержащим «".to_string();
                message.append(needle.as_str());
                message.append("», не найден");
                return Err(message);
            }
            if found.len() == 1 {
                proof {
                    assert(list[0] == found@[0]@);
                }
                return Ok(Some(found[0].clone()));
            }
            let mut listing: Vec<String> = Vec::new();
            let mut i: usize = 0;
            while i < found.len()
                invariant
                    i <= found.len(),
                    list == process_views(found@),
                    views(listing@) == inset_lines(list.take(i as int)),
                decreases found.len() - i,
            {
                let mut line = "  ".to_string();
                line.append(line_of(&found[i]).as_str());
                proof {
                    crate::text::lemma_views_push(listing@, line);
                    assert(inset_lines(list.take(i + 1)) =~= inset_lines(
                        list.take(i as int),
                    ).push(line@));
                }
                listing.push(line);
                i += 1;
            }
            proof {
                assert(list.take(i as int) =~= list);
            }
            let mut message = "под «".to_string();
            message.append(needle.as_str());
            message.append("» подходит несколько процессов — укажите --pid:\n");
            message.append(join(&listing, "\n").as_str());
            Err(message)
        },
        Target::Foreground(_) => match front {
            Some(process) => Ok(Some(process.clone())),
            None => Err("не удалось определить окно в фокусе".to_string()),
        },
    }
}

/// What is said of the process that was in front.
pub fn front_line(process: &ProcessInfo, title: &str) -> (r: String)
    ensures
        r@ == "цель из фокуса: "@ + process@.name + " (pid "@ + decimal(process@.pid as nat)
            + ") — «"@ + title@ + "»"@,
{
    let mut r = "цель из фокуса: ".to_string();
    r.append(process.name.as_str());
    r.append(" (pid ");
    r.append(to_decimal(process.pid as u64).as_str());
    r.append(") — «");
    r.append(title);
    r.append("»");
    r
}

// --- the run ---

/// How a run goes on.
#[derive(Clone, Copy, PartialEq, Eq, Debug, Structural)]
pub enum Next {
    Go,
    Exit(u8),
}

/// A run needs its target.
pub fn after_target(result: &Result<Option<ProcessInfo>, String>) -> (r: (Vec<Line>, Next))
    ensures
        result is Ok ==> r.1 == Next::Go && line_views(r.0@) == Seq::<LineView>::empty(),
        result matches Err(message) ==> r.1 == Next::Exit(EXIT_USAGE) && line_views(r.0@) == noted(
            seq![],
            message@,
        ),
{
    let mut lines: Vec<Line> = Vec::new();
    proof {
        assert(line_views(lines@) =~= seq![]);
    }
    match result {
        Ok(_) => (lines, Next::Go),
        Err(message) => {
            note(&mut lines, message.clone());
            (lines, Next::Exit(EXIT_USAGE))
        },
    }
}

/// The name of the session of a process: one for each run.
pub fn session_name(pid: u32) -> (r: String)
    ensures
        r@ == SESSION_PREFIX@ + decimal(pid as nat),
{
    let mut name = SESSION_PREFIX.to_string();
    name.append(to_decimal(pid as u64).as_str());
    name
}

/// A run needs its session; without the rights to one it ends in a way of its own.
pub open spec fn start_outcome(
    error: Option<StartError>,
    words: Seq<char>,
    name: Seq<char>,
) -> (Seq<LineView>, Next) {
    match error {
        None => (noted(seq![], "сессия: "@ + name), Next::Go),
        Some(error) => (
            noted(
                seq![],
                "не удалось создать ETW-сессию: "@ + crate::etw::start_error_text(error, words),
            ),
            Next::Exit(
                if error is AccessDenied {
                    EXIT_ACCESS_DENIED
                } else {
                    EXIT_ERROR
                },
            ),
        ),
    }
}

pub fn after_start(error: Option<StartError>, words: &str, name: &str) -> (r: (Vec<Line>, Next))
    ensures
        (line_views(r.0@), r.1) == start_outcome(error, words@, name@),
{
    let mut lines: Vec<Line> = Vec::new();
    proof {
        assert(line_views(lines@) =~= seq![]);
    }
    match error {
        None => {
            let mut text = "сессия: ".to_string();
            text.append(name);
            note(&mut lines, text);
            (lines, Next::Go)
        },
        Some(error) => {
            let mut text = "не удалось создать ETW-сессию: ".to_string();
            text.append(error.describe(words).as_str());
            note(&mut lines, text);
            let code: u8 = match error {
                StartError::AccessDenied => EXIT_ACCESS_DENIED,
                StartError::Other(_) => EXIT_ERROR,
            };
            (lines, Next::Exit(code))
        },
    }
}

/// The names of some providers.
pub open spec fn labels(providers: Seq<Provider>) -> Seq<Seq<char>> {
    providers.map_values(|p: Provider| p.label@)
}

/// The providers to enable, by name.
pub open spec fn chosen_labels(choice: ProviderChoice) -> Seq<Seq<char>> {
    match choice {
        ProviderChoice::Both => seq!["DXGI"@, "D3D9"@],
        ProviderChoice::DxgiOnly => seq!["DXGI"@],
        ProviderChoice::D3d9Only => seq!["D3D9"@],
    }
}

/// The key of a provider by its name.
pub open spec fn key_named(label: Seq<char>) -> u128 {
    if label == "DXGI"@ {
        crate::collect::DXGI
    } else {
        crate::collect::D3D9
    }
}

pub fn chosen_providers(choice: ProviderChoice) -> (r: Vec<Provider>)
    ensures
        labels(r@) == chosen_labels(choice),
        forall|i: int|
            0 <= i < r.len() ==> (#[trigger] r@[i]).key == key_named(r@[i].label@) && r@[i].level
                == 255 && r@[i].any_keyword == 0x8000_0000_0000_0002,
{
    proof {
        reveal_strlit("DXGI");
        reveal_strlit("D3D9");
        assert("DXGI"@[1] == 'X');
        assert("D3D9"@[1] == '3');
    }
    let mut r: Vec<Provider> = Vec::new();
    match choice {
        ProviderChoice::Both => {
            r.push(crate::etw::provider_dxgi());
            r.push(crate::etw::provider_d3d9());
        },
        ProviderChoice::DxgiOnly => {
            r.push(crate::etw::provider_dxgi());
        },
        ProviderChoice::D3d9Only => {
            r.push(crate::etw::provider_d3d9());
        },
    }
    proof {
        assert(labels(r@) =~= chosen_labels(choice));
    }
    r
}

/// The providers that were enabled.
pub open spec fn enabled_labels(labels: Seq<Seq<char>>, statuses: Seq<u32>) -> Seq<Seq<char>>
    decreases labels.len(),
{
    if labels.len() == 0 {
        seq![]
    } else {
        let rest = enabled_labels(labels.drop_last(), statuses);
        if statuses[labels.len() - 1] == ERROR_SUCCESS {
            rest.push(labels.last())
        } else {
            rest
        }
    }
}

/// The lines on the providers that were not.
pub open spec fn refused_lines(
    labels: Seq<Seq<char>>,
    statuses: Seq<u32>,
    words: Seq<Seq<char>>,
) -> Seq<LineView>
    decreases labels.len(),
{
    if labels.len() == 0 {
        seq![]
    } else {
        let n = labels.len() - 1;
        let rest = refused_lines(labels.drop_last(), statuses, words);
        if statuses[n] == ERROR_SUCCESS {
            rest
        } else {
            noted(
                rest,
                "провайдер "@ + labels.last() + " не включён: "@ + crate::sys::error_text(
                    statuses[n],
                    words[n],
                ),
            )
        }
    }
}

/// A run goes on with one provider where the other is refused, but not without any.
pub open spec fn enabling_outcome(
    labels: Seq<Seq<char>>,
    statuses: Seq<u32>,
    words: Seq<Seq<char>>,
) -> (Seq<LineView>, Next) {
    let enabled = enabled_labels(labels, statuses);
    let lines = refused_lines(labels, statuses, words);
    if enabled.len() == 0 {
        (noted(lines, "не включён ни один провайдер — замер бессмыслен"@), Next::Exit(EXIT_ERROR))
    } else {
        (noted(lines, "провайдеры: "@ + crate::text::joined(enabled, ", "@)), Next::Go)
    }
}

pub fn after_enabling(
    providers: &Vec<Provider>,
    statuses: &Vec<u32>,
    words: &Vec<String>,
) -> (r: (Vec<Line>, Next))
    requires
        statuses.len() == providers.len(),
        words.len() == providers.len(),
    ensures
        (line_views(r.0@), r.1) == enabling_outcome(
            labels(providers@),
            statuses@,
            views(words@),
        ),
{
    let ghost all = labels(providers@);
    let mut lines: Vec<Line> = Vec::new();
    let mut enabled: Vec<String> = Vec::new();
    let mut i: usize = 0;
    proof {
        assert(line_views(lines@) =~= seq![]);
        assert(views(enabled@) =~= seq![]);
        assert(all.take(0) =~= seq![]);
    }
    while i < providers.len()
        invariant
            i <= providers.len(),
            statuses.len() == providers.len(),
            words.len() == providers.len(),
            all == labels(providers@),
            views(enabled@) == enabled_labels(all.take(i as int), statuses@),
            line_views(lines@) == refused_lines(all.take(i as int), statuses@, views(words@)),
        decreases providers.len() - i,
    {
        proof {
            assert(all.take(i + 1).drop_last() =~= all.take(i as int));
        }
        if statuses[i] == ERROR_SUCCESS {
            let label = providers[i].label.to_string();
            proof {
                crate::text::lemma_views_push(enabled@, label);
            }
            enabled.push(label);
        } else {
            let mut text = "провайдер ".to_string();
            text.append(providers[i].label);
            text.append(" не включён: ");
            text.append(Win32Error(statuses[i]).describe(words[i].as_str()).as_str());
            note(&mut lines, text);
        }
        i += 1;
    }
    proof {
        assert(all.take(i as int) =~= all);
    }
    if enabled.len() == 0 {
        note(&mut lines, "не включён ни один провайдер — замер бессмыслен".to_string());
        return (lines, Next::Exit(EXIT_ERROR));
    }
    let mut text = "провайдеры: ".to_string();
    text.append(join(&enabled, ", ").as_str());
    note(&mut lines, text);
    (lines, Next::Go)
}

/// How the consumer's thread answered.
#[derive(Clone, Copy, PartialEq, Eq, Debug, Structural)]
pub enum Opening {
    Opened,
    Refused(u32),
    Silent,
}

pub fn after_opening(answer: Opening, words: &str) -> (r: (Vec<Line>, Next))
    ensures
        (line_views(r.0@), r.1) == (match answer {
            Opening::Opened => (Seq::<LineView>::empty(), Next::Go),
            Opening::Refused(code) => (
                noted(
                    seq![],
                    "OpenTrace не удался: "@ + crate::sys::error_text(code, words@),
                ),
                Next::Exit(EXIT_ERROR),
            ),
            Opening::Silent => (
                noted(seq![], "поток потребителя не отозвался за 10 с"@),
                Next::Exit(EXIT_ERROR),
            ),
        }),
{
    let mut lines: Vec<Line> = Vec::new();
    proof {
        assert(line_views(lines@) =~= seq![]);
    }
    match answer {
        Opening::Opened => (lines, Next::Go),
        Opening::Refused(code) => {
            let mut text = "OpenTrace не удался: ".to_string();
            text.append(Win32Error(code).describe(words).as_str());
            note(&mut lines, text);
            (lines, Next::Exit(EXIT_ERROR))
        },
        Opening::Silent => {
            note(&mut lines, "поток потребителя не отозвался за 10 с".to_string());
            (lines, Next::Exit(EXIT_ERROR))
        },
    }
}

/// What is said when the measurement begins.
pub open spec fn beginning(target: Option<ProcessInfoView>, seconds: u64) -> Seq<char> {
    match target {
        Some(process) => "измеряю "@ + process.name + " (pid "@ + decimal(process.pid as nat)
            + ")"@ + (if seconds == 0 {
            ", до Ctrl+C"@
        } else {
            ", "@ + decimal(seconds as nat) + " с"@
        }),
        None => "режим --all: цель не задана, считаю события по всем процессам"@,
    }
}

pub fn beginning_line(target: &Option<ProcessInfo>, seconds: u64) -> (r: String)
    ensures
        r@ == beginning(front_process(*target), seconds),
{
    match target {
        Some(process) => {
            let mut r = "измеряю ".to_string();
            r.append(process.name.as_str());
            r.append(" (pid ");
            r.append(to_decimal(process.pid as u64).as_str());
            r.append(")");
            let mut end = String::new();
            if seconds == 0 {
                end.append(", до Ctrl+C");
                proof {
                    assert(end@ =~= ", до Ctrl+C"@);
                }
            } else {
                end.append(", ");
                end.append(to_decimal(seconds).as_str());
                end.append(" с");
                proof {
                    assert(end@ =~= ", "@ + decimal(seconds as nat) + " с"@);
                }
            }
            r.append(end.as_str());
            r
        },
        None => "режим --all: цель не задана, считаю события по всем процессам".to_string(),
    }
}

/// One second, in the nanoseconds in which time is counted here.
pub const SECOND: u64 = 1_000_000_000;

/// How far a measurement has come.
#[derive(Clone, Copy, PartialEq, Eq, Debug, Structural)]
pub struct Progress {
    pub last_frames: u64,
    pub next_tick: u64,
}

/// What follows a short sleep.
#[derive(Clone, Copy, PartialEq, Eq, Debug, Structural)]
pub enum Tick {
    /// The user wants to stop.
    Interrupted,
    /// The time is up.
    Done,
    /// A second is over: show the count, with so many new frames.
    Show(u64),
    Wait,
}

/// Where a measurement stands at a moment: a request to stop comes first, then the end of the
/// time, where there is one, then the next second.
pub open spec fn tick_of(
    progress: Progress,
    elapsed: u64,
    seconds: u64,
    stopping: bool,
    frames: u64,
) -> Tick {
    if stopping {
        Tick::Interrupted
    } else if seconds > 0 && elapsed >= seconds * SECOND {
        Tick::Done
    } else if elapsed >= progress.next_tick {
        Tick::Show(
            if frames >= progress.last_frames {
                (frames - progress.last_frames) as u64
            } else {
                0
            },
        )
    } else {
        Tick::Wait
    }
}

impl Progress {
    pub fn new() -> (r: Progress)
        ensures
            r == (Progress { last_frames: 0, next_tick: SECOND }),
    {
        Progress { last_frames: 0, next_tick: SECOND }
    }

    pub fn tick(&mut self, elapsed: u64, seconds: u64, stopping: bool, frames: u64) -> (r: Tick)
        requires
            elapsed + SECOND <= u64::MAX,
        ensures
            r == tick_of(*old(self), elapsed, seconds, stopping, frames),
            *final(self) == (if r is Show {
                Progress { last_frames: frames, next_tick: (elapsed + SECOND) as u64 }
            } else {
                *old(self)
            }),
    {
        if stopping {
            return Tick::Interrupted;
        }
        proof {
            assert(elapsed / SECOND >= seconds <==> elapsed >= seconds * SECOND);
        }
        if seconds > 0 && elapsed / SECOND >= seconds {
            return Tick::Done;
        }
        if elapsed >= self.next_tick {
            self.next_tick = elapsed + SECOND;
            let gained: u64 = if frames >= self.last_frames {
                frames - self.last_frames
            } else {
                0
            };
            self.last_frames = frames;
            return Tick::Show(gained);
        }
        Tick::Wait
    }
}

/// The line that shows the count, behind the time in whole seconds.
pub fn tick_line(time: &str, total: u64, target: u64, frames: u64, gained: u64) -> (r: String)
    ensures
        r@ == "  ["@ + time@ + " с] событий всего "@ + decimal(total as nat) + ", у цели "@
            + decimal(target as nat) + ", кадров "@ + decimal(frames as nat) + " (+"@ + decimal(
            gained as nat,
        ) + ")"@,
{
    let mut r = "  [".to_string();
    r.append(time);
    r.append(" с] событий всего ");
    r.append(to_decimal(total).as_str());
    r.append(", у цели ");
    r.append(to_decimal(target).as_str());
    r.append(", кадров ");
    r.append(to_decimal(frames).as_str());
    r.append(" (+");
    r.append(to_decimal(gained).as_str());
    r.append(")");
    r
}

/// What is said of the end of the reading: nothing where it went well, and something else where
/// the thread did not return.
pub open spec fn ending(status: Option<u32>, words: Seq<char>) -> Option<Seq<char>> {
    match status {
        Some(code) => if code == ERROR_SUCCESS {
            None
        } else {
            Some("ProcessTrace завершился с "@ + crate::sys::error_text(code, words))
        },
        None => Some(
            "ProcessTrace не вернулся за 10 с. Сессия уже остановлена, сироты не будет, но отчёт может быть неполным"@,
        ),
    }
}

pub fn ending_line(status: Option<u32>, words: &str) -> (r: Option<String>)
    ensures
        text_of(r) == ending(status, words@),
{
    match status {
        Some(code) => if code == ERROR_SUCCESS {
            None
        } else {
            let mut text = "ProcessTrace завершился с ".to_string();
            text.append(Win32Error(code).describe(words).as_str());
            Some(text)
        },
        None => Some(
            "ProcessTrace не вернулся за 10 с. Сессия уже остановлена, сироты не будет, но отчёт может быть неполным".to_string(),
        ),
    }
}

// --- the tables of the report ---

/// A number in base 16 without leading zeros, in capitals.
pub open spec fn capital_hex(n: nat) -> Seq<char>
    decreases n,
{
    let last = if n % 16 < 10 {
        (48 + n % 16) as char
    } else {
        (55 + n % 16) as char
    };
    if n < 16 {
        seq![last]
    } else {
        capital_hex(n / 16).push(last)
    }
}

fn to_capital_hex(n: u64) -> (r: String)
    ensures
        r@ == capital_hex(n as nat),
    decreases n,
{
    let mut r = if n < 16 {
        String::new()
    } else {
        to_capital_hex(n / 16)
    };
    let d: u8 = (n % 16) as u8;
    r.push(
        if d < 10 {
            (48 + d) as char
        } else {
            (55 + d) as char
        },
    );
    proof {
        assert(n < 16 ==> r@ =~= capital_hex(n as nat));
    }
    r
}

/// How often a kind of event came.
#[derive(Clone, Copy, PartialEq, Eq, Debug, Structural)]
pub struct EventRow {
    pub key: EventKey,
    pub count: u64,
}

impl Weighted for EventRow {
    open spec fn heaviness(self) -> nat {
        self.count as nat
    }

    fn weight(&self) -> (r: u64) {
        self.count
    }
}

/// The events of a process.
pub open spec fn rows_of(entries: Seq<(EventKey, u64)>, pid: u32) -> Seq<EventRow>
    decreases entries.len(),
{
    if entries.len() == 0 {
        seq![]
    } else {
        let rest = rows_of(entries.drop_last(), pid);
        if entries.last().0.pid == pid {
            rest.push(EventRow { key: entries.last().0, count: entries.last().1 })
        } else {
            rest
        }
    }
}

fn event_rows(entries: &Vec<(EventKey, u64)>, pid: u32) -> (r: Vec<EventRow>)
    ensures
        r@ == rows_of(entries@, pid),
{
    let mut rows: Vec<EventRow> = Vec::new();
    let mut i: usize = 0;
    proof {
        assert(entries@.take(0) =~= seq![]);
    }
    while i < entries.len()
        invariant
            i <= entries.len(),
            rows@ == rows_of(entries@.take(i as int), pid),
        decreases entries.len() - i,
    {
        proof {
            assert(entries@.take(i + 1).drop_last() =~= entries@.take(i as int));
        }
        if entries[i].0.pid == pid {
            rows.push(EventRow { key: entries[i].0, count: entries[i].1 });
        }
        i += 1;
    }
    proof {
        assert(entries@.take(i as int) =~= entries@);
    }
    rows
}

/// A line of the table of events, with its rate behind.
pub open spec fn event_line(row: EventRow) -> LineView {
    LineView::Rate {
        before: spaced(crate::collect::provider_label(row.key.provider.0 as nat), 12) + " "@
            + padded(decimal(row.key.id as nat), 5, ' ') + " "@ + padded(
            decimal(row.key.version as nat),
            4,
            ' ',
        ) + " "@ + padded(decimal(row.key.opcode as nat), 4, ' ') + " "@ + padded(
            decimal(row.count as nat),
            10,
            ' ',
        ) + " "@,
        count: row.count,
        width: 10,
        after: ""@,
    }
}

pub open spec fn event_lines(lines: Seq<LineView>, rows: Seq<EventRow>) -> Seq<LineView>
    decreases rows.len(),
{
    if rows.len() == 0 {
        lines
    } else {
        event_lines(lines, rows.drop_last()).push(event_line(rows.last()))
    }
}

/// The table of events, the most frequent first.
pub open spec fn event_table(lines: Seq<LineView>, rows: Seq<EventRow>) -> Seq<LineView> {
    if rows.len() == 0 {
        said(lines, "(пусто)"@)
    } else {
        event_lines(
            said(lines, "ПРОВАЙДЕР       ID  ВЕР   ОП    СОБЫТИЙ      В СЕК"@),
            crate::ranking::ranked(rows, |row: EventRow| row.heaviness()),
        )
    }
}

fn print_event_table(lines: &mut Vec<Line>, rows: Vec<EventRow>)
    ensures
        line_views(final(lines)@) == event_table(line_views(old(lines)@), rows@),
{
    if rows.len() == 0 {
        say(lines, "(пусто)".to_string());
        return ;
    }
    say(lines, "ПРОВАЙДЕР       ID  ВЕР   ОП    СОБЫТИЙ      В СЕК".to_string());
    let ghost head = line_views(lines@);
    let sorted = rank(rows);
    let mut i: usize = 0;
    proof {
        assert(sorted@.take(0) =~= seq![]);
    }
    while i < sorted.len()
        invariant
            i <= sorted.len(),
            line_views(lines@) == event_lines(head, sorted@.take(i as int)),
        decreases sorted.len() - i,
    {
        let row = sorted[i];
        let mut before = pad_right(row.key.provider.label().as_str(), 12);
        before.append(" ");
        before.append(pad_left(to_decimal(row.key.id as u64).as_str(), 5, ' ').as_str());
        before.append(" ");
        before.append(pad_left(to_decimal(row.key.version as u64).as_str(), 4, ' ').as_str());
        before.append(" ");
        before.append(pad_left(to_decimal(row.key.opcode as u64).as_str(), 4, ' ').as_str());
        before.append(" ");
        before.append(pad_left(to_decimal(row.count).as_str(), 10, ' ').as_str());
        before.append(" ");
        proof {
            assert(sorted@.take(i + 1).drop_last() =~= sorted@.take(i as int));
        }
        show(lines, Line::Rate { before, count: row.count, width: 10, after: "".to_string() });
        i += 1;
    }
    proof {
        assert(sorted@.take(i as int) =~= sorted@);
    }
}

/// What a process sent: in all, and by provider and event.
#[derive(Debug)]
pub struct ProcessRow {
    pub pid: u32,
    pub total: u64,
    pub kinds: Vec<((ProviderKey, u16), u64)>,
}

#[verifier::ext_equal]
pub struct ProcessRowView {
    pub pid: u32,
    pub total: nat,
    pub kinds: Seq<((ProviderKey, u16), nat)>,
}

pub open spec fn kind_views(kinds: Seq<((ProviderKey, u16), u64)>) -> Seq<
    ((ProviderKey, u16), nat),
> {
    kinds.map_values(|k: ((ProviderKey, u16), u64)| (k.0, k.1 as nat))
}

impl View for ProcessRow {
    type V = ProcessRowView;

    open spec fn view(&self) -> ProcessRowView {
        ProcessRowView { pid: self.pid, total: self.total as nat, kinds: kind_views(self.kinds@) }
    }
}

impl Weighted for ProcessRow {
    open spec fn heaviness(self) -> nat {
        self.total as nat
    }

    fn weight(&self) -> (r: u64) {
        self.total
    }
}

pub open spec fn row_views(rows: Seq<ProcessRow>) -> Seq<ProcessRowView> {
    rows.map_values(|row: ProcessRow| row@)
}

/// The kinds of events with some more of the kind that came last, or a new kind.
pub open spec fn with_kind(
    kinds: Seq<((ProviderKey, u16), nat)>,
    kind: (ProviderKey, u16),
    count: nat,
) -> Seq<((ProviderKey, u16), nat)> {
    if kinds.len() > 0 && kinds.last().0 == kind {
        kinds.drop_last().push((kind, kinds.last().1 + count))
    } else {
        kinds.push((kind, count))
    }
}

/// What each process sent. The events come in the order of their keys, so those of a process
/// stand together, and in it those of a provider and an event.
pub open spec fn by_process(entries: Seq<(EventKey, u64)>) -> Seq<ProcessRowView>
    decreases entries.len(),
{
    if entries.len() == 0 {
        seq![]
    } else {
        let rest = by_process(entries.drop_last());
        let key = entries.last().0;
        let count = entries.last().1 as nat;
        let kind = (key.provider, key.id);
        if rest.len() > 0 && rest.last().pid == key.pid {
            rest.drop_last().push(
                ProcessRowView {
                    pid: key.pid,
                    total: rest.last().total + count,
                    kinds: with_kind(rest.last().kinds, kind, count),
                },
            )
        } else {
            rest.push(ProcessRowView { pid: key.pid, total: count, kinds: seq![(kind, count)] })
        }
    }
}

/// How many events came from a process.
pub open spec fn events_of(entries: Seq<(EventKey, u64)>, pid: u32) -> nat
    decreases entries.len(),
{
    if entries.len() == 0 {
        0
    } else {
        events_of(entries.drop_last(), pid) + (if entries.last().0.pid == pid {
            entries.last().1 as nat
        } else {
            0
        })
    }
}

/// The table of processes has a row for each process of which there are events, in the order of
/// their numbers, and each row holds all events of its process.
pub proof fn law_processes_are_summed(entries: Seq<(EventKey, u64)>)
    requires
        crate::table::rising(entries),
    ensures
        forall|i: int, j: int|
            0 <= i < j < by_process(entries).len() ==> (#[trigger] by_process(entries)[i]).pid < (
            #[trigger] by_process(entries)[j]).pid,
        forall|i: int|
            0 <= i < by_process(entries).len() ==> (#[trigger] by_process(entries)[i]).total
                == events_of(entries, by_process(entries)[i].pid),
        forall|i: int|
            0 <= i < entries.len() ==> exists|j: int|
                0 <= j < by_process(entries).len() && by_process(entries)[j].pid == (
                #[trigger] entries[i]).0.pid,
    decreases entries.len(),
{
    lemma_rows_rise(entries);
    if entries.len() > 0 {
        let earlier = entries.drop_last();
        let rest = by_process(earlier);
        let rows = by_process(entries);
        let key = entries.last().0;
        law_processes_are_summed(earlier);
        let joins = rest.len() > 0 && rest.last().pid == key.pid;
        assert forall|i: int| 0 <= i < rows.len() implies (#[trigger] rows[i]).total == events_of(
            entries,
            rows[i].pid,
        ) by {
            if i < rows.len() - 1 {
                assert(rows[i] == rest[i]);
                assert(rows[i].pid < rows[rows.len() - 1].pid);
            } else if !joins {
                lemma_no_events(earlier, key.pid);
            }
        }
        assert forall|i: int| 0 <= i < entries.len() implies exists|j: int|
            0 <= j < rows.len() && rows[j].pid == (#[trigger] entries[i]).0.pid by {
            if i < entries.len() - 1 {
                assert(earlier[i] == entries[i]);
                let j = choose|j: int|
                    0 <= j < rest.len() && rest[j].pid == earlier[i].0.pid;
                assert(rows[j].pid == entries[i].0.pid);
            } else {
                assert(rows[rows.len() - 1].pid == entries[i].0.pid);
            }
        }
    }
}

/// A process without a row has no events.
proof fn lemma_no_events(entries: Seq<(EventKey, u64)>, pid: u32)
    requires
        forall|i: int| 0 <= i < by_process(entries).len() ==> (
        #[trigger] by_process(entries)[i]).pid != pid,
    ensures
        events_of(entries, pid) == 0,
    decreases entries.len(),
{
    if entries.len() > 0 {
        let earlier = entries.drop_last();
        let rest = by_process(earlier);
        let rows = by_process(entries);
        assert(rows[rows.len() - 1].pid == entries.last().0.pid);
        assert forall|i: int| 0 <= i < rest.len() implies (#[trigger] rest[i]).pid != pid by {
            assert(rows[i].pid == rest[i].pid);
        }
        lemma_no_events(earlier, pid);
    }
}

/// The rows rise, and none stands behind the last event.
proof fn lemma_rows_rise(entries: Seq<(EventKey, u64)>)
    requires
        crate::table::rising(entries),
    ensures
        forall|i: int, j: int|
            0 <= i < j < by_process(entries).len() ==> (#[trigger] by_process(entries)[i]).pid < (
            #[trigger] by_process(entries)[j]).pid,
        entries.len() > 0 ==> by_process(entries).len() > 0 && by_process(entries).last().pid
            == entries.last().0.pid,
    decreases entries.len(),
{
    if entries.len() > 1 {
        let earlier = entries.drop_last();
        lemma_rows_rise(earlier);
        let n = entries.len() - 1;
        assert(entries[n - 1].0.rank() < entries[n].0.rank());
        let a = entries[n - 1].0;
        let b = entries[n].0;
        assert(a.pid <= b.pid);
        let rest = by_process(earlier);
        let rows = by_process(entries);
        assert forall|i: int, j: int| 0 <= i < j < rows.len() implies (#[trigger] rows[i]).pid < (
        #[trigger] rows[j]).pid by {
            if j < rest.len() {
                assert(rows[i].pid == rest[i].pid && rows[j].pid == rest[j].pid);
            } else {
                assert(rows[i].pid == rest[i].pid);
                if i < rest.len() - 1 {
                    assert(rest[i].pid < rest[rest.len() - 1].pid);
                }
            }
        }
    } else if entries.len() == 1 {
        assert(entries.drop_last() =~= seq![]);
        assert(by_process(entries.drop_last()).len() == 0);
    }
}

/// A row holds no more than all events together, nor a kind more than its row.
proof fn lemma_row_bounds(entries: Seq<(EventKey, u64)>)
    ensures
        by_process(entries).len() > 0 ==> by_process(entries).last().total
            <= crate::table::total(entries) && by_process(entries).last().kinds.len() > 0
            && by_process(entries).last().kinds.last().1 <= by_process(entries).last().total,
    decreases entries.len(),
{
    if entries.len() > 0 {
        lemma_row_bounds(entries.drop_last());
    }
}

proof fn lemma_total_grows(entries: Seq<(EventKey, u64)>, n: int)
    requires
        0 <= n <= entries.len(),
    ensures
        crate::table::total(entries.take(n)) <= crate::table::total(entries),
    decreases entries.len() - n,
{
    if n < entries.len() {
        lemma_total_grows(entries, n + 1);
        assert(entries.take(n + 1).drop_last() =~= entries.take(n));
    } else {
        assert(entries.take(n) =~= entries);
    }
}

fn process_rows(entries: &Vec<(EventKey, u64)>) -> (r: Vec<ProcessRow>)
    requires
        crate::table::total(entries@) <= u64::MAX,
    ensures
        row_views(r@) == by_process(entries@),
{
    let mut rows: Vec<ProcessRow> = Vec::new();
    let mut i: usize = 0;
    proof {
        assert(entries@.take(0) =~= seq![]);
        assert(row_views(rows@) =~= by_process(entries@.take(0)));
    }
    while i < entries.len()
        invariant
            i <= entries.len(),
            crate::table::total(entries@) <= u64::MAX,
            row_views(rows@) == by_process(entries@.take(i as int)),
        decreases entries.len() - i,
    {
        let (key, count) = entries[i];
        let kind = (key.provider, key.id);
        let ghost seen = row_views(rows@);
        let ghost now = entries@.take(i + 1);
        proof {
            assert(now.drop_last() =~= entries@.take(i as int));
            lemma_row_bounds(entries@.take(i as int));
            lemma_total_grows(entries@, i + 1);
        }
        let n: usize = rows.len();
        if n > 0 && rows[n - 1].pid == key.pid {
            proof {
                assert(seen.last() == rows@[n - 1]@);
            }
            let ghost row = rows@[n - 1];
            let last = rows.pop().unwrap();
            let mut kinds = last.kinds;
            let k: usize = kinds.len();
            proof {
                assert(kind_views(kinds@).len() > 0);
                assert(kind_views(kinds@).last() == (kinds@[k - 1].0, kinds@[k - 1].1 as nat));
            }
            if kinds[k - 1].0.0.0 == kind.0.0 && kinds[k - 1].0.1 == kind.1 {
                let sum: u64 = kinds[k - 1].1 + count;
                kinds.set(k - 1, (kind, sum));
                proof {
                    assert(kind_views(kinds@) =~= with_kind(
                        kind_views(row.kinds@),
                        kind,
                        count as nat,
                    ));
                }
            } else {
                kinds.push((kind, count));
                proof {
                    assert(kind_views(kinds@) =~= with_kind(
                        kind_views(row.kinds@),
                        kind,
                        count as nat,
                    ));
                }
            }
            rows.push(ProcessRow { pid: key.pid, total: last.total + count, kinds });
            proof {
                assert(row_views(rows@) =~= by_process(now));
            }
        } else {
            let mut kinds: Vec<((ProviderKey, u16), u64)> = Vec::new();
            kinds.push((kind, count));
            proof {
                assert(kind_views(kinds@) =~= seq![(kind, count as nat)]);
                if n > 0 {
                    assert(seen.last() == rows@[n - 1]@);
                }
            }
            rows.push(ProcessRow { pid: key.pid, total: count, kinds });
            proof {
                assert(row_views(rows@) =~= by_process(now));
            }
        }
        i += 1;
    }
    proof {
        assert(entries@.take(i as int) =~= entries@);
    }
    rows
}

/// A text of at most so many characters, with an ellipsis in the place of what was cut.
pub open spec fn shortened(s: Seq<char>, limit: nat) -> Seq<char> {
    if s.len() <= limit {
        s
    } else if limit == 0 {
        seq!['…']
    } else {
        s.take(limit - 1).push('…')
    }
}

pub fn truncate(text: &str, limit: usize) -> (r: String)
    ensures
        r@ == shortened(text@, limit as nat),
{
    let chars = crate::text::chars_of(text);
    if chars.len() <= limit {
        return text.to_string();
    }
    let mut r = take_chars(
        text,
        if limit > 0 {
            limit - 1
        } else {
            0
        },
    );
    r.push('…');
    proof {
        if limit == 0 {
            assert(r@ =~= shortened(text@, 0));
        }
    }
    r
}

/// The kinds of events of a process, each with its count.
pub open spec fn kind_texts(kinds: Seq<((ProviderKey, u16), nat)>) -> Seq<Seq<char>> {
    kinds.map_values(
        |k: ((ProviderKey, u16), nat)|
            crate::collect::provider_label((k.0).0.0 as nat) + " "@ + decimal((k.0).1 as nat)
                + "×"@ + decimal(k.1),
    )
}

/// The name of a process for the table.
pub open spec fn known_name(names: Map<u32, Seq<char>>, pid: u32) -> Seq<char> {
    if names.contains_key(pid) {
        names[pid]
    } else {
        "?"@
    }
}

/// A line of the table of processes.
pub open spec fn process_row_line(row: ProcessRowView, names: Map<u32, Seq<char>>) -> LineView {
    LineView::Rate {
        before: padded(decimal(row.pid as nat), 8, ' ') + "  "@ + spaced(
            shortened(known_name(names, row.pid), 28),
            28,
        ) + " "@ + padded(decimal(row.total), 10, ' ') + " "@,
        count: row.total as u64,
        width: 9,
        after: "  "@ + crate::text::joined(kind_texts(row.kinds), ", "@),
    }
}

pub open spec fn process_row_lines(
    lines: Seq<LineView>,
    rows: Seq<ProcessRowView>,
    names: Map<u32, Seq<char>>,
) -> Seq<LineView>
    decreases rows.len(),
{
    if rows.len() == 0 {
        lines
    } else {
        process_row_lines(lines, rows.drop_last(), names).push(
            process_row_line(rows.last(), names),
        )
    }
}

/// The first rows of a table.
pub open spec fn top_of(rows: Seq<ProcessRowView>, top: usize) -> Seq<ProcessRowView> {
    if rows.len() <= top {
        rows
    } else {
        rows.take(top as int)
    }
}

/// The table of processes, those with the most events first.
pub open spec fn process_table(
    lines: Seq<LineView>,
    entries: Seq<(EventKey, u64)>,
    top: usize,
    names: Map<u32, Seq<char>>,
) -> Seq<LineView> {
    process_row_lines(
        said(
            lines,
            "     PID  ПРОЦЕСС                         СОБЫТИЙ     В СЕК  СОБЫТИЯ"@,
        ),
        top_of(
            crate::ranking::ranked(by_process(entries), |row: ProcessRowView| row.total),
            top,
        ),
        names,
    )
}

fn kind_lines(kinds: &Vec<((ProviderKey, u16), u64)>) -> (r: Vec<String>)
    ensures
        views(r@) == kind_texts(kind_views(kinds@)),
{
    let ghost all = kind_views(kinds@);
    let mut texts: Vec<String> = Vec::new();
    let mut i: usize = 0;
    proof {
        assert(views(texts@) =~= kind_texts(all.take(0)));
    }
    while i < kinds.len()
        invariant
            i <= kinds.len(),
            all == kind_views(kinds@),
            views(texts@) == kind_texts(all.take(i as int)),
        decreases kinds.len() - i,
    {
        let ((provider, id), count) = kinds[i];
        let mut text = provider.label();
        text.append(" ");
        text.append(to_decimal(id as u64).as_str());
        text.append("×");
        text.append(to_decimal(count).as_str());
        proof {
            crate::text::lemma_views_push(texts@, text);
            assert(kind_texts(all.take(i + 1)) =~= kind_texts(all.take(i as int)).push(text@));
        }
        texts.push(text);
        i += 1;
    }
    proof {
        assert(all.take(i as int) =~= all);
    }
    texts
}

fn print_by_process(lines: &mut Vec<Line>, state: &State, top: usize, processes: &Vec<ProcessInfo>)
    requires
        crate::table::total(state.events.entries@) <= u64::MAX,
    ensures
        line_views(final(lines)@) == process_table(
            line_views(old(lines)@),
            state.events.entries@,
            top,
            names_by_pid(process_views(processes@)),
        ),
{
    let rows = process_rows(&state.events.entries);
    let ghost made = row_views(rows@);
    proof {
        crate::ranking::lemma_ranked_mapped(
            rows@,
            |row: ProcessRow| row.heaviness(),
            |row: ProcessRow| row@,
            |row: ProcessRowView| row.total,
        );
    }
    let sorted = rank(rows);
    let names = name_by_pid(processes);
    let ghost by_pid = names_by_pid(process_views(processes@));
    let ghost all = row_views(sorted@);
    say(
        lines,
        "     PID  ПРОЦЕСС                         СОБЫТИЙ     В СЕК  СОБЫТИЯ".to_string(),
    );
    let ghost head = line_views(lines@);
    let mut i: usize = 0;
    proof {
        assert(all.take(0) =~= seq![]);
    }
    while i < sorted.len() && i < top
        invariant
            i <= sorted.len(),
            i <= top,
            all == row_views(sorted@),
            crate::procs::text_map(names@) == by_pid,
            line_views(lines@) == process_row_lines(head, all.take(i as int), by_pid),
        decreases sorted.len() - i,
    {
        let row = &sorted[i];
        proof {
            assert(names@.contains_key(row.pid) == crate::procs::text_map(names@).contains_key(
                row.pid,
            ));
            assert(all.take(i + 1).drop_last() =~= all.take(i as int));
            assert(all[i as int] == row@);
        }
        let name = match names.get(&row.pid) {
            Some(name) => name.clone(),
            None => "?".to_string(),
        };
        let mut before = pad_left(to_decimal(row.pid as u64).as_str(), 8, ' ');
        before.append("  ");
        before.append(pad_right(truncate(name.as_str(), 28).as_str(), 28).as_str());
        before.append(" ");
        before.append(pad_left(to_decimal(row.total).as_str(), 10, ' ').as_str());
        before.append(" ");
        let mut after = "  ".to_string();
        after.append(join(&kind_lines(&row.kinds), ", ").as_str());
        show(lines, Line::Rate { before, count: row.total, width: 9, after });
        i += 1;
    }
    proof {
        if sorted.len() <= top {
            assert(all.take(i as int) =~= all);
        }
        assert(all.take(i as int) == top_of(all, top));
    }
}

// --- the report ---

/// The chain with the most calls to present; of several, the last in the order of addresses.
pub open spec fn leading(entries: Seq<(u64, Chain)>) -> Option<int>
    decreases entries.len(),
{
    if entries.len() == 0 {
        None
    } else {
        match leading(entries.drop_last()) {
            Some(i) if entries[i].1.presents > entries.last().1.presents => Some(i),
            _ => Some(entries.len() - 1),
        }
    }
}

/// The leading chain has at least as many calls as any other, and more than any behind it.
pub proof fn law_leading_is_largest(entries: Seq<(u64, Chain)>)
    ensures
        leading(entries) is Some <==> entries.len() > 0,
        leading(entries) matches Some(i) ==> 0 <= i < entries.len() && (forall|j: int|
            0 <= j < entries.len() ==> (#[trigger] entries[j]).1.presents
                <= entries[i].1.presents) && (forall|j: int|
            i < j < entries.len() ==> (#[trigger] entries[j]).1.presents < entries[i].1.presents),
    decreases entries.len(),
{
    if entries.len() > 0 {
        let earlier = entries.drop_last();
        law_leading_is_largest(earlier);
        let i = leading(entries)->0;
        assert forall|j: int| 0 <= j < entries.len() implies (#[trigger] entries[j]).1.presents
            <= entries[i].1.presents by {
            if j < entries.len() - 1 {
                assert(earlier[j] == entries[j]);
            }
        }
        assert forall|j: int| i < j < entries.len() implies (#[trigger] entries[j]).1.presents
            < entries[i].1.presents by {
            if j < entries.len() - 1 {
                assert(earlier[j] == entries[j]);
            }
        }
    }
}

pub fn dominant(state: &State) -> (r: Option<usize>)
    ensures
        match r {
            Some(i) => leading(state.chains.entries@) == Some(i as int) && i
                < state.chains.entries.len(),
            None => leading(state.chains.entries@) is None,
        },
{
    let mut found: Option<usize> = None;
    let mut i: usize = 0;
    let ghost entries = state.chains.entries@;
    proof {
        assert(entries.take(0) =~= seq![]);
    }
    while i < state.chains.entries.len()
        invariant
            i <= state.chains.entries.len(),
            entries == state.chains.entries@,
            match found {
                Some(k) => leading(entries.take(i as int)) == Some(k as int) && k < i,
                None => leading(entries.take(i as int)) is None,
            },
        decreases state.chains.entries.len() - i,
    {
        proof {
            assert(entries.take(i + 1).drop_last() =~= entries.take(i as int));
        }
        let keep = match found {
            Some(k) => state.chains.entries[k].1.presents > state.chains.entries[i].1.presents,
            None => false,
        };
        if !keep {
            found = Some(i);
        }
        i += 1;
    }
    proof {
        assert(entries.take(i as int) =~= entries);
    }
    found
}

/// The gaps between the frames of the leading chain.
pub open spec fn measured(entries: Seq<(u64, Chain)>) -> Seq<i64> {
    match leading(entries) {
        Some(at) => entries[at].1.frames@,
        None => seq![],
    }
}

/// How many of some gaps are lengths of time. No frame comes of a gap that is not above zero.
pub open spec fn lengths(gaps: Seq<i64>) -> nat
    decreases gaps.len(),
{
    if gaps.len() == 0 {
        0
    } else if gaps.last() > 0 {
        lengths(gaps.drop_last()) + 1
    } else {
        lengths(gaps.drop_last())
    }
}

/// All gaps count where each one is a length of time.
proof fn lemma_lengths(gaps: Seq<i64>)
    ensures
        (forall|i: int| 0 <= i < gaps.len() ==> #[trigger] gaps[i] > 0) ==> lengths(gaps)
            == gaps.len(),
    decreases gaps.len(),
{
    if gaps.len() > 0 {
        let rest = gaps.drop_last();
        lemma_lengths(rest);
        if forall|i: int| 0 <= i < gaps.len() ==> #[trigger] gaps[i] > 0 {
            assert forall|i: int| 0 <= i < rest.len() implies #[trigger] rest[i] > 0 by {
                assert(rest[i] == gaps[i]);
            }
        }
    }
}

fn count_lengths(gaps: &Vec<i64>) -> (r: usize)
    ensures
        r == lengths(gaps@),
        r <= gaps.len(),
{
    let mut count: usize = 0;
    let mut i: usize = 0;
    proof {
        assert(gaps@.take(0) =~= seq![]);
    }
    while i < gaps.len()
        invariant
            i <= gaps.len(),
            count <= i,
            count == lengths(gaps@.take(i as int)),
        decreases gaps.len() - i,
    {
        proof {
            assert(gaps@.take(i + 1).drop_last() =~= gaps@.take(i as int));
        }
        if gaps[i] > 0 {
            count += 1;
        }
        i += 1;
    }
    proof {
        assert(gaps@.take(i as int) =~= gaps@);
    }
    count
}

/// The gaps to compute the averages of, in ticks of the clock: those of the leading chain alone.
pub fn measured_gaps(collector: &Collector) -> (r: Vec<i64>)
    ensures
        r@ == (match leading(collector.state.chains.entries@) {
            Some(at) => collector.state.chains.entries@[at].1.frames@,
            None => seq![],
        }),
        collector.sound() ==> forall|i: int| 0 <= i < r.len() ==> #[trigger] r@[i] > 0,
{
    let mut r: Vec<i64> = Vec::new();
    let at: usize = match dominant(&collector.state) {
        Some(at) => at,
        None => {
            return r;
        },
    };
    let frames = &collector.state.chains.entries[at].1.frames;
    proof {
        if collector.sound() {
            crate::collect::law_counts_agree(*collector);
        }
    }
    let mut i: usize = 0;
    while i < frames.len()
        invariant
            i <= frames.len(),
            r@ == frames@.take(i as int),
        decreases frames.len() - i,
    {
        r.push(frames[i]);
        i += 1;
        proof {
            assert(r@ =~= frames@.take(i as int));
        }
    }
    proof {
        assert(r@ =~= frames@);
    }
    r
}

/// The averages of the measured gaps as they are shown. Each is shown only where there are frames
/// enough for it.
#[derive(Debug)]
pub struct Averages {
    pub fps: String,
    pub ms: String,
    pub min_ms: String,
    pub max_ms: String,
    pub low_1_percent: String,
    pub low_0_1_percent: String,
}

/// What the report shows besides the counts.
#[derive(Debug)]
pub struct Figures {
    /// How long it took, in seconds.
    pub duration: String,
    pub averages: Averages,
    /// The error of writing the file of frames, where it failed.
    pub csv_error: Option<String>,
}

/// The head of the report and the health of the session.
pub open spec fn opening_lines(
    collector: Collector,
    stats: Option<TraceStats>,
    duration: Seq<char>,
) -> Seq<LineView> {
    let lines = said(seq![], "\n=== P0: собственный ETW-потребитель кадров ==="@);
    let lines = said(lines, "длительность      : "@ + duration + " с"@);
    let lines = said(lines, "частота QPC       : "@ + signed(collector.qpc_freq as int) + " Гц"@);
    let lines = said(lines, "событий всего     : "@ + decimal(collector.total_events as nat));
    let lines = said(lines, "\n--- здоровье ETW ---"@);
    let lines = match stats {
        Some(stats) => {
            let lines = said(
                lines,
                "EventsLost "@ + decimal(stats.events_lost as nat) + ", RealTimeBuffersLost "@
                    + decimal(stats.real_time_buffers_lost as nat) + ", LogBuffersLost "@
                    + decimal(stats.log_buffers_lost as nat) + ", BuffersWritten "@ + decimal(
                    stats.buffers_written as nat,
                ) + ", буферов "@ + decimal(stats.number_of_buffers as nat),
            );
            if stats.events_lost > 0 || stats.real_time_buffers_lost > 0 {
                said(
                    lines,
                    "ВНИМАНИЕ: потери событий. Это ровно тот признак, за которым стоит осиротевшая сессия (PLAN.md §2.1) — проверьте logman query -ets"@,
                )
            } else {
                lines
            }
        },
        None => said(
            lines,
            "статистика сессии недоступна: остановку выполнил аварийный путь"@,
        ),
    };
    said(
        lines,
        "по данным потребителя: буферов прочитано "@ + decimal(collector.buffers_read as nat)
            + ", событий потеряно "@ + decimal(collector.events_lost as nat),
    )
}

fn open_report(
    collector: &Collector,
    stats: &Option<TraceStats>,
    duration: &str,
) -> (r: Vec<Line>)
    ensures
        line_views(r@) == opening_lines(*collector, *stats, duration@),
{
    let mut lines: Vec<Line> = Vec::new();
    proof {
        assert(line_views(lines@) =~= seq![]);
    }
    say(&mut lines, "\n=== P0: собственный ETW-потребитель кадров ===".to_string());
    let mut text = "длительность      : ".to_string();
    text.append(duration);
    text.append(" с");
    say(&mut lines, text);
    let mut text = "частота QPC       : ".to_string();
    text.append(to_signed(collector.qpc_freq).as_str());
    text.append(" Гц");
    say(&mut lines, text);
    let mut text = "событий всего     : ".to_string();
    text.append(to_decimal(collector.total_events).as_str());
    say(&mut lines, text);
    say(&mut lines, "\n--- здоровье ETW ---".to_string());
    match stats {
        Some(stats) => {
            let mut text = "EventsLost ".to_string();
            text.append(to_decimal(stats.events_lost as u64).as_str());
            text.append(", RealTimeBuffersLost ");
            text.append(to_decimal(stats.real_time_buffers_lost as u64).as_str());
            text.append(", LogBuffersLost ");
            text.append(to_decimal(stats.log_buffers_lost as u64).as_str());
            text.append(", BuffersWritten ");
            text.append(to_decimal(stats.buffers_written as u64).as_str());
            text.append(", буферов ");
            text.append(to_decimal(stats.number_of_buffers as u64).as_str());
            say(&mut lines, text);
            if stats.events_lost > 0 || stats.real_time_buffers_lost > 0 {
                say(
                    &mut lines,
                    "ВНИМАНИЕ: потери событий. Это ровно тот признак, за которым стоит осиротевшая сессия (PLAN.md §2.1) — проверьте logman query -ets".to_string(),
                );
            }
        },
        None => {
            say(
                &mut lines,
                "статистика сессии недоступна: остановку выполнил аварийный путь".to_string(),
            );
        },
    }
    let mut text = "по данным потребителя: буферов прочитано ".to_string();
    text.append(to_decimal(collector.buffers_read as u64).as_str());
    text.append(", событий потеряно ");
    text.append(to_decimal(collector.events_lost as u64).as_str());
    say(&mut lines, text);
    lines
}

/// The events of other processes than one.
pub open spec fn events_besides(entries: Seq<(EventKey, u64)>, pid: u32) -> nat
    decreases entries.len(),
{
    if entries.len() == 0 {
        0
    } else {
        events_besides(entries.drop_last(), pid) + (if entries.last().0.pid != pid {
            entries.last().1 as nat
        } else {
            0
        })
    }
}

proof fn lemma_besides_bounded(entries: Seq<(EventKey, u64)>, pid: u32)
    ensures
        events_besides(entries, pid) <= crate::table::total(entries),
    decreases entries.len(),
{
    if entries.len() > 0 {
        lemma_besides_bounded(entries.drop_last(), pid);
    }
}

fn foreign_events(entries: &Vec<(EventKey, u64)>, pid: u32) -> (r: u64)
    requires
        crate::table::total(entries@) <= u64::MAX,
    ensures
        r == events_besides(entries@, pid),
{
    let mut sum: u64 = 0;
    let mut i: usize = 0;
    proof {
        assert(entries@.take(0) =~= seq![]);
    }
    while i < entries.len()
        invariant
            i <= entries.len(),
            crate::table::total(entries@) <= u64::MAX,
            sum == events_besides(entries@.take(i as int), pid),
        decreases entries.len() - i,
    {
        proof {
            assert(entries@.take(i + 1).drop_last() =~= entries@.take(i as int));
            lemma_besides_bounded(entries@.take(i + 1), pid);
            lemma_total_grows(entries@, i + 1);
        }
        if entries[i].0.pid != pid {
            sum = sum + entries[i].1;
        }
        i += 1;
    }
    proof {
        assert(entries@.take(i as int) =~= entries@);
    }
    sum
}

/// The part of the report on the events.
pub open spec fn events_part(
    lines: Seq<LineView>,
    entries: Seq<(EventKey, u64)>,
    target: Option<ProcessInfoView>,
    top: usize,
    names: Map<u32, Seq<char>>,
) -> Seq<LineView> {
    match target {
        Some(target) => {
            let lines = said(
                lines,
                "\n--- события цели "@ + target.name + " (pid "@ + decimal(target.pid as nat)
                    + ") ---"@,
            );
            let lines = event_table(lines, rows_of(entries, target.pid));
            let foreign = events_besides(entries, target.pid);
            if foreign > 0 {
                said(
                    lines,
                    "событий от других процессов: "@ + decimal(foreign) + " (они отфильтрованы)"@,
                )
            } else {
                lines
            }
        },
        None => process_table(
            said(
                lines,
                "\n--- процессы, от которых приходят события (топ "@ + decimal(top as nat)
                    + ") ---"@,
            ),
            entries,
            top,
            names,
        ),
    }
}

fn report_events(
    lines: &mut Vec<Line>,
    state: &State,
    target: &Option<ProcessInfo>,
    top: usize,
    processes: &Vec<ProcessInfo>,
)
    requires
        crate::table::total(state.events.entries@) <= u64::MAX,
    ensures
        line_views(final(lines)@) == events_part(
            line_views(old(lines)@),
            state.events.entries@,
            front_process(*target),
            top,
            names_by_pid(process_views(processes@)),
        ),
{
    match target {
        Some(target) => {
            let mut text = "\n--- события цели ".to_string();
            text.append(target.name.as_str());
            text.append(" (pid ");
            text.append(to_decimal(target.pid as u64).as_str());
            text.append(") ---");
            say(lines, text);
            print_event_table(lines, event_rows(&state.events.entries, target.pid));
            let foreign = foreign_events(&state.events.entries, target.pid);
            if foreign > 0 {
                let mut text = "событий от других процессов: ".to_string();
                text.append(to_decimal(foreign).as_str());
                text.append(" (они отфильтрованы)");
                say(lines, text);
            }
        },
        None => {
            let mut text = "\n--- процессы, от которых приходят события (топ ".to_string();
            text.append(to_decimal(top as u64).as_str());
            text.append(") ---");
            say(lines, text);
            print_by_process(lines, state, top, processes);
        },
    }
}

pub open spec fn api_text(label: Option<Seq<char>>) -> Seq<char> {
    match label {
        Some(label) => label,
        None => "?"@,
    }
}

pub open spec fn source_text(provider: Option<Seq<char>>) -> Seq<char> {
    match provider {
        Some(provider) => provider,
        None => "—"@,
    }
}

/// The row for the table of what was measured.
pub open spec fn coverage_row(
    label: Option<Seq<char>>,
    name: Seq<char>,
    provider: Option<Seq<char>>,
    frames: nat,
    fps: Seq<char>,
) -> Seq<char> {
    let (visible, rate) = if frames > 0 {
        ("да"@, fps)
    } else {
        ("нет"@, "—"@)
    };
    "| "@ + api_text(label) + " | "@ + name + " | "@ + source_text(provider) + " | "@ + decimal(
        frames,
    ) + " | "@ + rate + " | "@ + visible + " |"@
}

pub open spec fn coverage_lines(
    lines: Seq<LineView>,
    label: Option<Seq<char>>,
    name: Seq<char>,
    provider: Option<Seq<char>>,
    frames: nat,
    fps: Seq<char>,
) -> Seq<LineView> {
    said(
        said(lines, "\n--- строка для COVERAGE.md ---"@),
        coverage_row(label, name, provider, frames, fps),
    )
}

fn print_coverage_row(
    lines: &mut Vec<Line>,
    label: &Option<String>,
    name: &str,
    provider: &Option<String>,
    frames: u64,
    fps: &str,
)
    ensures
        line_views(final(lines)@) == coverage_lines(
            line_views(old(lines)@),
            text_of(*label),
            name@,
            text_of(*provider),
            frames as nat,
            fps@,
        ),
{
    say(lines, "\n--- строка для COVERAGE.md ---".to_string());
    let mut row = "| ".to_string();
    match label {
        Some(label) => row.append(label.as_str()),
        None => row.append("?"),
    }
    row.append(" | ");
    row.append(name);
    row.append(" | ");
    match provider {
        Some(provider) => row.append(provider.as_str()),
        None => row.append("—"),
    }
    row.append(" | ");
    row.append(to_decimal(frames).as_str());
    row.append(" | ");
    if frames > 0 {
        row.append(fps);
    } else {
        row.append("—");
    }
    row.append(" | ");
    if frames > 0 {
        row.append("да");
    } else {
        row.append("нет");
    }
    row.append(" |");
    say(lines, row);
}

/// What to check where no frame came.
pub open spec fn no_frames_lines(lines: Seq<LineView>) -> Seq<LineView> {
    let lines = said(lines, "\n--- кадры ---"@);
    let lines = said(lines, "НИ ОДНОГО Present-события от цели."@);
    let lines = said(lines, "Что проверить по порядку:"@);
    let lines = said(
        lines,
        "  1. осиротевшие ETW-сессии: logman query -ets (PLAN.md §2.1) — самая частая причина;"@,
    );
    let lines = said(
        lines,
        "  2. верны ли ID событий: смотрите таблицу событий выше, при нужде --dxgi-id/--d3d9-id;"@,
    );
    said(
        lines,
        "  3. графический API цели: DXGI и D3D9 не видят Vulkan и OpenGL (PLAN.md §2.4) — для них это ожидаемый результат, его и надо занести в матрицу."@,
    )
}

fn explain_no_frames(lines: &mut Vec<Line>)
    ensures
        line_views(final(lines)@) == no_frames_lines(line_views(old(lines)@)),
{
    say(lines, "\n--- кадры ---".to_string());
    say(lines, "НИ ОДНОГО Present-события от цели.".to_string());
    say(lines, "Что проверить по порядку:".to_string());
    say(
        lines,
        "  1. осиротевшие ETW-сессии: logman query -ets (PLAN.md §2.1) — самая частая причина;".to_string(),
    );
    say(
        lines,
        "  2. верны ли ID событий: смотрите таблицу событий выше, при нужде --dxgi-id/--d3d9-id;".to_string(),
    );
    say(
        lines,
        "  3. графический API цели: DXGI и D3D9 не видят Vulkan и OpenGL (PLAN.md §2.4) — для них это ожидаемый результат, его и надо занести в матрицу.".to_string(),
    );
}

/// The lines on the chains besides one.
pub open spec fn other_chains(
    lines: Seq<LineView>,
    entries: Seq<(u64, Chain)>,
    leading: u64,
) -> Seq<LineView>
    decreases entries.len(),
{
    if entries.len() == 0 {
        lines
    } else {
        let rest = other_chains(lines, entries.drop_last(), leading);
        if entries.last().0 != leading {
            said(
                rest,
                "  прочая цепочка  : 0x"@ + capital_hex(entries.last().0 as nat)
                    + ", Present-событий "@ + decimal(entries.last().1.presents as nat),
            )
        } else {
            rest
        }
    }
}

/// The flags that occurred, each with its count.
pub open spec fn flag_texts(entries: Seq<(u32, u64)>) -> Seq<Seq<char>> {
    entries.map_values(
        |e: (u32, u64)| "0x"@ + capital_hex(e.0 as nat) + "×"@ + decimal(e.1 as nat),
    )
}

/// The name of the provider of a chain.
pub open spec fn chain_provider(chain: Chain) -> Seq<char> {
    match chain.provider {
        Some(provider) => crate::collect::provider_label(provider.0 as nat),
        None => "?"@,
    }
}

/// The part of the report on the chains.
pub open spec fn chains_part(lines: Seq<LineView>, state: State, at: int) -> Seq<LineView> {
    let entries = state.chains.entries@;
    let (id, chain) = entries[at];
    let lines = said(lines, "\n--- кадры ---"@);
    let lines = said(lines, "цепочек обмена    : "@ + decimal(entries.len()));
    let lines = said(
        lines,
        "ведущая цепочка   : 0x"@ + capital_hex(id as nat) + " ("@ + chain_provider(chain)
            + "), Present-событий "@ + decimal(chain.presents as nat),
    );
    let lines = if entries.len() > 1 {
        other_chains(lines, entries, id)
    } else {
        lines
    };
    let lines = if state.presents_without_chain > 0 {
        said(
            lines,
            "без адреса цепочки: "@ + decimal(state.presents_without_chain as nat)
                + " (payload короче 8 байт)"@,
        )
    } else {
        lines
    };
    let lines = if state.filtered_test_presents > 0 {
        said(
            lines,
            "отброшено тестовых : "@ + decimal(state.filtered_test_presents as nat)
                + " (DXGI_PRESENT_TEST — кадр на экран не выводится)"@,
        )
    } else {
        lines
    };
    if state.present_flags.entries@.len() > 0 {
        said(
            lines,
            "флаги Present     : "@ + crate::text::joined(
                flag_texts(state.present_flags.entries@),
                ", "@,
            ),
        )
    } else {
        lines
    }
}

fn report_chains(lines: &mut Vec<Line>, state: &State, at: usize)
    requires
        at < state.chains.entries.len(),
    ensures
        line_views(final(lines)@) == chains_part(line_views(old(lines)@), *state, at as int),
{
    let chains = &state.chains.entries;
    let id: u64 = chains[at].0;
    say(lines, "\n--- кадры ---".to_string());
    let mut text = "цепочек обмена    : ".to_string();
    text.append(to_decimal(chains.len() as u64).as_str());
    say(lines, text);
    let mut text = "ведущая цепочка   : 0x".to_string();
    text.append(to_capital_hex(id).as_str());
    text.append(" (");
    text.append(provider_of(&chains[at].1).as_str());
    text.append("), Present-событий ");
    text.append(to_decimal(chains[at].1.presents).as_str());
    say(lines, text);
    if chains.len() > 1 {
        let ghost entries = state.chains.entries@;
        let ghost head = line_views(lines@);
        let mut i: usize = 0;
        proof {
            assert(entries.take(0) =~= seq![]);
        }
        while i < chains.len()
            invariant
                i <= chains.len(),
                entries == chains@,
                line_views(lines@) == other_chains(head, entries.take(i as int), id),
            decreases chains.len() - i,
        {
            proof {
                assert(entries.take(i + 1).drop_last() =~= entries.take(i as int));
            }
            if chains[i].0 != id {
                let mut text = "  прочая цепочка  : 0x".to_string();
                text.append(to_capital_hex(chains[i].0).as_str());
                text.append(", Present-событий ");
                text.append(to_decimal(chains[i].1.presents).as_str());
                say(lines, text);
            }
            i += 1;
        }
        proof {
            assert(entries.take(i as int) =~= entries);
        }
    }
    if state.presents_without_chain > 0 {
        let mut text = "без адреса цепочки: ".to_string();
        text.append(to_decimal(state.presents_without_chain).as_str());
        text.append(" (payload короче 8 байт)");
        say(lines, text);
    }
    if state.filtered_test_presents > 0 {
        let mut text = "отброшено тестовых : ".to_string();
        text.append(to_decimal(state.filtered_test_presents).as_str());
        text.append(" (DXGI_PRESENT_TEST — кадр на экран не выводится)");
        say(lines, text);
    }
    if state.present_flags.entries.len() > 0 {
        let mut text = "флаги Present     : ".to_string();
        text.append(join(&flag_lines(&state.present_flags.entries), ", ").as_str());
        say(lines, text);
    }
}

fn provider_of(chain: &Chain) -> (r: String)
    ensures
        r@ == chain_provider(*chain),
{
    match chain.provider {
        Some(provider) => provider.label(),
        None => "?".to_string(),
    }
}

fn flag_lines(entries: &Vec<(u32, u64)>) -> (r: Vec<String>)
    ensures
        views(r@) == flag_texts(entries@),
{
    let mut texts: Vec<String> = Vec::new();
    let mut i: usize = 0;
    proof {
        assert(views(texts@) =~= flag_texts(entries@.take(0)));
    }
    while i < entries.len()
        invariant
            i <= entries.len(),
            views(texts@) == flag_texts(entries@.take(i as int)),
        decreases entries.len() - i,
    {
        let mut text = "0x".to_string();
        text.append(to_capital_hex(entries[i].0 as u64).as_str());
        text.append("×");
        text.append(to_decimal(entries[i].1).as_str());
        proof {
            crate::text::lemma_views_push(texts@, text);
            assert(flag_texts(entries@.take(i + 1)) =~= flag_texts(entries@.take(i as int)).push(
                text@,
            ));
        }
        texts.push(text);
        i += 1;
    }
    proof {
        assert(entries@.take(i as int) =~= entries@);
    }
    texts
}

/// A low, or that there are too few frames for it.
pub open spec fn low_line(
    head: Seq<char>,
    low: Seq<char>,
    frames: nat,
    needed: usize,
) -> Seq<char> {
    head + (if frames >= needed {
        low
    } else {
        "выборка мала (нужно "@ + decimal(needed as nat) + " кадров)"@
    })
}

fn low_text(head: &str, low: &str, frames: usize, needed: usize) -> (r: String)
    ensures
        r@ == low_line(head@, low@, frames as nat, needed),
{
    let mut r = head.to_string();
    if frames >= needed {
        r.append(low);
    } else {
        let mut text = "выборка мала (нужно ".to_string();
        text.append(to_decimal(needed as u64).as_str());
        text.append(" кадров)");
        r.append(text.as_str());
    }
    r
}

/// How many frames there are, how many gaps are none, and the averages of the frames.
pub open spec fn figures_part(
    lines: Seq<LineView>,
    frames: nat,
    rejected: nat,
    averages: Averages,
    csv: Option<Seq<char>>,
    csv_error: Option<Seq<char>>,
) -> Seq<LineView> {
    let lines = said(lines, "кадров (дельт)    : "@ + decimal(frames));
    let lines = if rejected > 0 {
        said(lines, "отброшено значений: "@ + decimal(rejected))
    } else {
        lines
    };
    let lines = said(lines, "средний FPS       : "@ + averages.fps@);
    let lines = said(
        lines,
        "frametime, мс     : сред. "@ + averages.ms@ + ", мин. "@ + averages.min_ms@ + ", макс. "@
            + averages.max_ms@,
    );
    let lines = said(
        lines,
        low_line(
            "1 % low, FPS      : "@,
            averages.low_1_percent@,
            frames,
            MIN_SAMPLES_1_PERCENT,
        ),
    );
    let lines = said(
        lines,
        low_line(
            "0.1 % low, FPS    : "@,
            averages.low_0_1_percent@,
            frames,
            MIN_SAMPLES_0_1_PERCENT,
        ),
    );
    match csv {
        Some(path) => match csv_error {
            None => said(lines, "frametime выгружены: "@ + path),
            Some(error) => noted(lines, "не удалось записать "@ + path + ": "@ + error),
        },
        None => lines,
    }
}

fn report_figures(
    lines: &mut Vec<Line>,
    frames: usize,
    rejected: usize,
    averages: &Averages,
    csv: &Option<String>,
    csv_error: &Option<String>,
)
    ensures
        line_views(final(lines)@) == figures_part(
            line_views(old(lines)@),
            frames as nat,
            rejected as nat,
            *averages,
            text_of(*csv),
            text_of(*csv_error),
        ),
{
    let mut text = "кадров (дельт)    : ".to_string();
    text.append(to_decimal(frames as u64).as_str());
    say(lines, text);
    if rejected > 0 {
        let mut text = "отброшено значений: ".to_string();
        text.append(to_decimal(rejected as u64).as_str());
        say(lines, text);
    }
    let mut text = "средний FPS       : ".to_string();
    text.append(averages.fps.as_str());
    say(lines, text);
    let mut text = "frametime, мс     : сред. ".to_string();
    text.append(averages.ms.as_str());
    text.append(", мин. ");
    text.append(averages.min_ms.as_str());
    text.append(", макс. ");
    text.append(averages.max_ms.as_str());
    say(lines, text);
    say(
        lines,
        low_text(
            "1 % low, FPS      : ",
            averages.low_1_percent.as_str(),
            frames,
            MIN_SAMPLES_1_PERCENT,
        ),
    );
    say(
        lines,
        low_text(
            "0.1 % low, FPS    : ",
            averages.low_0_1_percent.as_str(),
            frames,
            MIN_SAMPLES_0_1_PERCENT,
        ),
    );
    if let Some(path) = csv {
        match csv_error {
            None => {
                let mut text = "frametime выгружены: ".to_string();
                text.append(path.as_str());
                say(lines, text);
            },
            Some(error) => {
                let mut text = "не удалось записать ".to_string();
                text.append(path.as_str());
                text.append(": ");
                text.append(error.as_str());
                note(lines, text);
            },
        }
    }
}

/// The report and how the program ends: well where frames came or none were asked for.
pub open spec fn report_of(
    args: crate::cli::ArgsView,
    target: Option<ProcessInfoView>,
    collector: Collector,
    stats: Option<TraceStats>,
    figures: Figures,
    names: Map<u32, Seq<char>>,
) -> (Seq<LineView>, u8) {
    let state = collector.state;
    let lines = events_part(
        opening_lines(collector, stats, figures.duration@),
        state.events.entries@,
        target,
        args.top,
        names,
    );
    match target {
        None => (
            said(
                lines,
                "\nрежим --all: frametime не считается. Если нужная игра есть в списке выше — перезапустите с --pid её PID."@,
            ),
            EXIT_SUCCESS,
        ),
        Some(target) => match leading(state.chains.entries@) {
            None => (
                coverage_lines(no_frames_lines(lines), args.label, target.name, None, 0, ""@),
                EXIT_NO_FRAMES,
            ),
            Some(at) => {
                let provider = Some(chain_provider(state.chains.entries@[at].1));
                let gaps = state.chains.entries@[at].1.frames@;
                let frames = lengths(gaps);
                let lines = chains_part(lines, state, at);
                if frames == 0 {
                    (
                        coverage_lines(
                            said(
                                lines,
                                "frametime посчитать не из чего: Present-события есть, дельт нет"@,
                            ),
                            args.label,
                            target.name,
                            provider,
                            0,
                            ""@,
                        ),
                        EXIT_NO_FRAMES,
                    )
                } else {
                    (
                        coverage_lines(
                            figures_part(
                                lines,
                                frames,
                                (gaps.len() - frames) as nat,
                                figures.averages,
                                args.csv,
                                text_of(figures.csv_error),
                            ),
                            args.label,
                            target.name,
                            provider,
                            frames,
                            figures.averages.fps@,
                        ),
                        EXIT_SUCCESS,
                    )
                }
            },
        },
    }
}

pub fn report(
    args: &Args,
    target: &Option<ProcessInfo>,
    collector: &Collector,
    stats: &Option<TraceStats>,
    figures: &Figures,
    processes: &Vec<ProcessInfo>,
) -> (r: (Vec<Line>, u8))
    requires
        crate::table::total(collector.state.events.entries@) <= u64::MAX,
    ensures
        (line_views(r.0@), r.1) == report_of(
            args@,
            front_process(*target),
            *collector,
            *stats,
            *figures,
            names_by_pid(process_views(processes@)),
        ),
{
    let state = &collector.state;
    let mut lines = open_report(collector, stats, figures.duration.as_str());
    report_events(&mut lines, state, target, args.top, processes);
    let target = match target {
        Some(target) => target,
        None => {
            say(
                &mut lines,
                "\nрежим --all: frametime не считается. Если нужная игра есть в списке выше — перезапустите с --pid её PID.".to_string(),
            );
            return (lines, EXIT_SUCCESS);
        },
    };
    let name = target.name.as_str();
    let at: usize = match dominant(state) {
        Some(at) => at,
        None => {
            explain_no_frames(&mut lines);
            print_coverage_row(&mut lines, &args.label, name, &None, 0, "");
            return (lines, EXIT_NO_FRAMES);
        },
    };
    let provider = Some(provider_of(&state.chains.entries[at].1));
    report_chains(&mut lines, state, at);
    let gaps = &state.chains.entries[at].1.frames;
    let frames: usize = count_lengths(gaps);
    if frames == 0 {
        say(
            &mut lines,
            "frametime посчитать не из чего: Present-события есть, дельт нет".to_string(),
        );
        print_coverage_row(&mut lines, &args.label, name, &provider, 0, "");
        return (lines, EXIT_NO_FRAMES);
    }
    let rejected: usize = gaps.len() - frames;
    report_figures(
        &mut lines,
        frames,
        rejected,
        &figures.averages,
        &args.csv,
        &figures.csv_error,
    );
    print_coverage_row(
        &mut lines,
        &args.label,
        name,
        &provider,
        frames as u64,
        figures.averages.fps.as_str(),
    );
    (lines, EXIT_SUCCESS)
}

/// Of what a collector saw, every gap of the leading chain counts, and the report rejects none.
pub proof fn law_every_gap_counts(collector: Collector)
    requires
        collector.sound(),
    ensures
        lengths(measured(collector.state.chains.entries@)) == measured(
            collector.state.chains.entries@,
        ).len(),
{
    let entries = collector.state.chains.entries@;
    crate::collect::law_counts_agree(collector);
    law_leading_is_largest(entries);
    lemma_lengths(measured(entries));
}

/// With a target the program ends well exactly where the leading chain has a frame, and otherwise
/// says that there are none. Without a target it always ends well.
pub proof fn law_exit_tells_of_frames(
    args: crate::cli::ArgsView,
    target: Option<ProcessInfoView>,
    collector: Collector,
    stats: Option<TraceStats>,
    figures: Figures,
    names: Map<u32, Seq<char>>,
)
    ensures
        report_of(args, target, collector, stats, figures, names).1 == (if target is None
            || lengths(measured(collector.state.chains.entries@)) > 0 {
            EXIT_SUCCESS
        } else {
            EXIT_NO_FRAMES
        }),
{
}

/// With a target the last line is the row for the table, with the count of the frames of the
/// leading chain; without frames it ends in a zero, a dash and a no.
pub proof fn law_last_line_counts_the_frames(
    args: crate::cli::ArgsView,
    target: ProcessInfoView,
    collector: Collector,
    stats: Option<TraceStats>,
    figures: Figures,
    names: Map<u32, Seq<char>>,
)
    ensures
        ({
            let entries = collector.state.chains.entries@;
            let frames = lengths(measured(entries));
            let source = match leading(entries) {
                Some(at) => Some(chain_provider(entries[at].1)),
                None => None,
            };
            let lines = report_of(args, Some(target), collector, stats, figures, names).0;
            let row = coverage_row(args.label, target.name, source, frames, figures.averages.fps@);
            &&& lines.last() == LineView::Text(row)
            &&& frames == 0 ==> finishes_with(row, "| 0 | — | нет |"@)
        }),
{
    let entries = collector.state.chains.entries@;
    let frames = lengths(measured(entries));
    let source = match leading(entries) {
        Some(at) => Some(chain_provider(entries[at].1)),
        None => None,
    };
    if frames == 0 {
        let row = coverage_row(args.label, target.name, source, 0, figures.averages.fps@);
        assert(row == coverage_row(args.label, target.name, source, 0, ""@));
        reveal_strlit("| 0 | — | нет |");
        reveal_strlit(" | ");
        reveal_strlit(" |");
        reveal_strlit("—");
        reveal_strlit("нет");
        assert(decimal(0) =~= seq!['0']) by {
            reveal_with_fuel(decimal, 2);
        }
        let head = "| "@ + api_text(args.label) + " | "@ + target.name + " | "@ + source_text(source)
            + seq![' '];
        let tail = "| 0 | — | нет |"@;
        assert(row =~= head + tail);
        assert(row.subrange(row.len() - tail.len(), row.len() as int) =~= tail);
    }
}

// --- what the report says ---

/// A line stands in a report.
pub open spec fn says(lines: Seq<LineView>, text: Seq<char>) -> bool {
    exists|i: int| 0 <= i < lines.len() && #[trigger] lines[i] == LineView::Text(text)
}

broadcast proof fn lemma_says_more(lines: Seq<LineView>, next: Seq<char>, text: Seq<char>)
    requires
        says(lines, text) || next == text,
    ensures
        #[trigger] says(said(lines, next), text),
{
    if says(lines, text) {
        let i = choose|i: int| 0 <= i < lines.len() && #[trigger] lines[i] == LineView::Text(text);
        assert(said(lines, next)[i] == LineView::Text(text));
    } else {
        assert(said(lines, next)[lines.len() as int] == LineView::Text(text));
    }
}

broadcast proof fn lemma_notes_more(lines: Seq<LineView>, next: Seq<char>, text: Seq<char>)
    requires
        says(lines, text),
    ensures
        #[trigger] says(noted(lines, next), text),
{
    let i = choose|i: int| 0 <= i < lines.len() && #[trigger] lines[i] == LineView::Text(text);
    assert(noted(lines, next)[i] == LineView::Text(text));
}

proof fn lemma_other_chains_say(
    lines: Seq<LineView>,
    entries: Seq<(u64, Chain)>,
    id: u64,
    text: Seq<char>,
)
    ensures
        says(lines, text) ==> says(other_chains(lines, entries, id), text),
        forall|i: int|
            0 <= i < entries.len() && (#[trigger] entries[i]).0 != id ==> says(
                other_chains(lines, entries, id),
                "  прочая цепочка  : 0x"@ + capital_hex(entries[i].0 as nat) + ", Present-событий "@
                    + decimal(entries[i].1.presents as nat),
            ),
    decreases entries.len(),
{
    broadcast use lemma_says_more;

    if entries.len() > 0 {
        let front = entries.drop_last();
        lemma_other_chains_say(lines, front, id, text);
        assert forall|i: int| 0 <= i < entries.len() && (#[trigger] entries[i]).0 != id implies says(
            other_chains(lines, entries, id),
            "  прочая цепочка  : 0x"@ + capital_hex(entries[i].0 as nat) + ", Present-событий "@
                + decimal(entries[i].1.presents as nat),
        ) by {
            if i < front.len() {
                assert(front[i] == entries[i]);
            }
        }
    }
}

/// What a report says of the chains: how many there are, which one leads with how many calls, and
/// how many calls each of the others has.
proof fn lemma_chains_part_says(lines: Seq<LineView>, state: State, at: int, text: Seq<char>)
    requires
        0 <= at < state.chains.entries@.len(),
    ensures
        ({
            let after = chains_part(lines, state, at);
            let entries = state.chains.entries@;
            let (id, chain) = entries[at];
            &&& says(lines, text) ==> says(after, text)
            &&& says(after, "цепочек обмена    : "@ + decimal(entries.len()))
            &&& says(
                after,
                "ведущая цепочка   : 0x"@ + capital_hex(id as nat) + " ("@ + chain_provider(chain)
                    + "), Present-событий "@ + decimal(chain.presents as nat),
            )
            &&& forall|i: int|
                0 <= i < entries.len() && (#[trigger] entries[i]).0 != id ==> says(
                    after,
                    "  прочая цепочка  : 0x"@ + capital_hex(entries[i].0 as nat)
                        + ", Present-событий "@ + decimal(entries[i].1.presents as nat),
                )
            &&& state.filtered_test_presents > 0 ==> says(
                after,
                "отброшено тестовых : "@ + decimal(state.filtered_test_presents as nat)
                    + " (DXGI_PRESENT_TEST — кадр на экран не выводится)"@,
            )
            &&& state.presents_without_chain > 0 ==> says(
                after,
                "без адреса цепочки: "@ + decimal(state.presents_without_chain as nat)
                    + " (payload короче 8 байт)"@,
            )
        }),
{
    broadcast use lemma_says_more;

    let entries = state.chains.entries@;
    let (id, chain) = entries[at];
    let l1 = said(lines, "\n--- кадры ---"@);
    let count = "цепочек обмена    : "@ + decimal(entries.len());
    let l2 = said(l1, count);
    let lead = "ведущая цепочка   : 0x"@ + capital_hex(id as nat) + " ("@ + chain_provider(chain)
        + "), Present-событий "@ + decimal(chain.presents as nat);
    let l3 = said(l2, lead);
    lemma_other_chains_say(l3, entries, id, text);
    lemma_other_chains_say(l3, entries, id, count);
    lemma_other_chains_say(l3, entries, id, lead);
    if entries.len() == 1 {
        assert forall|i: int| 0 <= i < entries.len() && (#[trigger] entries[i]).0 != id implies false by {
            assert(i == at);
        }
    }
}

/// With a target whose leading chain has frames, the report says how many there are and how many
/// gaps are none, each average in its own line, and the lows only where there are a hundred and a
/// thousand frames for them.
pub proof fn law_report_tells_the_figures(
    args: crate::cli::ArgsView,
    target: ProcessInfoView,
    collector: Collector,
    stats: Option<TraceStats>,
    figures: Figures,
    names: Map<u32, Seq<char>>,
)
    requires
        lengths(measured(collector.state.chains.entries@)) > 0,
    ensures
        ({
            let lines = report_of(args, Some(target), collector, stats, figures, names).0;
            let gaps = measured(collector.state.chains.entries@);
            let frames = lengths(gaps);
            let shown = figures.averages;
            &&& says(lines, "кадров (дельт)    : "@ + decimal(frames))
            &&& frames < gaps.len() ==> says(
                lines,
                "отброшено значений: "@ + decimal((gaps.len() - frames) as nat),
            )
            &&& says(lines, "средний FPS       : "@ + shown.fps@)
            &&& says(
                lines,
                "frametime, мс     : сред. "@ + shown.ms@ + ", мин. "@ + shown.min_ms@
                    + ", макс. "@ + shown.max_ms@,
            )
            &&& frames >= 100 ==> says(lines, "1 % low, FPS      : "@ + shown.low_1_percent@)
            &&& frames < 100 ==> says(
                lines,
                "1 % low, FPS      : "@ + ("выборка мала (нужно "@ + decimal(100) + " кадров)"@),
            )
            &&& frames >= 1000 ==> says(lines, "0.1 % low, FPS    : "@ + shown.low_0_1_percent@)
            &&& frames < 1000 ==> says(
                lines,
                "0.1 % low, FPS    : "@ + ("выборка мала (нужно "@ + decimal(1000) + " кадров)"@),
            )
            &&& args.csv is Some && figures.csv_error is None ==> says(
                lines,
                "frametime выгружены: "@ + args.csv->0,
            )
        }),
{
    broadcast use {lemma_says_more, lemma_notes_more};

}

/// With a target the report says how many swap chains there are, which one leads, and what each of
/// the others has; and how many calls were tests or had no swap chain.
pub proof fn law_report_tells_the_chains(
    args: crate::cli::ArgsView,
    target: ProcessInfoView,
    collector: Collector,
    stats: Option<TraceStats>,
    figures: Figures,
    names: Map<u32, Seq<char>>,
)
    requires
        collector.state.chains.entries@.len() > 0,
    ensures
        ({
            let lines = report_of(args, Some(target), collector, stats, figures, names).0;
            let state = collector.state;
            let entries = state.chains.entries@;
            let (id, chain) = entries[leading(entries)->0];
            &&& says(lines, "цепочек обмена    : "@ + decimal(entries.len()))
            &&& says(
                lines,
                "ведущая цепочка   : 0x"@ + capital_hex(id as nat) + " ("@ + chain_provider(chain)
                    + "), Present-событий "@ + decimal(chain.presents as nat),
            )
            &&& forall|i: int|
                0 <= i < entries.len() && (#[trigger] entries[i]).0 != id ==> says(
                    lines,
                    "  прочая цепочка  : 0x"@ + capital_hex(entries[i].0 as nat)
                        + ", Present-событий "@ + decimal(entries[i].1.presents as nat),
                )
            &&& state.filtered_test_presents > 0 ==> says(
                lines,
                "отброшено тестовых : "@ + decimal(state.filtered_test_presents as nat)
                    + " (DXGI_PRESENT_TEST — кадр на экран не выводится)"@,
            )
            &&& state.presents_without_chain > 0 ==> says(
                lines,
                "без адреса цепочки: "@ + decimal(state.presents_without_chain as nat)
                    + " (payload короче 8 байт)"@,
            )
        }),
{
    broadcast use {lemma_says_more, lemma_notes_more};

    let state = collector.state;
    let entries = state.chains.entries@;
    law_leading_is_largest(entries);
    let at = leading(entries)->0;
    let before = events_part(
        opening_lines(collector, stats, figures.duration@),
        state.events.entries@,
        Some(target),
        args.top,
        names,
    );
    lemma_chains_part_says(before, state, at, ""@);
    assert forall|i: int| 0 <= i < entries.len() && (#[trigger] entries[i]).0 != entries[at].0 implies says(
        report_of(args, Some(target), collector, stats, figures, names).0,
        "  прочая цепочка  : 0x"@ + capital_hex(entries[i].0 as nat) + ", Present-событий "@
            + decimal(entries[i].1.presents as nat),
    ) by {}
}

/// The provider of a chain is named in the report: DXGI, Direct3D 9, or a question mark where it is
/// not known.
pub proof fn law_chains_name_their_provider(chain: Chain)
    ensures
        chain.provider is None ==> chain_provider(chain) == "?"@,
        chain.provider matches Some(key) ==> key.0 == crate::collect::DXGI ==> chain_provider(
            chain,
        ) == "DXGI"@,
        chain.provider matches Some(key) ==> key.0 == crate::collect::D3D9 ==> chain_provider(
            chain,
        ) == "D3D9"@,
{
}

/// The target is the process that was asked for: the one of a number, the only one whose name holds
/// the words, or the one in front. Of several that fit, and of none, there is no target.
pub proof fn law_target_is_the_one_asked_for(
    list: Seq<ProcessInfoView>,
    front: Option<ProcessInfoView>,
    pid: u32,
    needle: Seq<char>,
    delay: u64,
)
    ensures
        ({
            let all = chosen_target(TargetView::All, list, front);
            let numbered = chosen_target(TargetView::Pid(pid), list, front);
            let found = crate::procs::named(list, needle);
            let called = chosen_target(TargetView::Name(needle), list, front);
            let ahead = chosen_target(TargetView::Foreground(delay), list, front);
            &&& all == Ok::<Option<ProcessInfoView>, Seq<char>>(None)
            &&& numbered is Ok && numbered->Ok_0 is Some && (numbered->Ok_0)->0.pid == pid
            &&& called is Ok <==> found.len() == 1
            &&& called matches Ok(process) ==> process is Some && list.contains(process->0)
                && crate::text::holds_text(
                crate::text::lowercase(process->0.name),
                crate::text::lowercase(needle),
            )
            &&& ahead is Ok <==> front is Some
            &&& ahead matches Ok(process) ==> process == front
        }),
{
    let found = crate::procs::named(list, needle);
    if found.len() == 1 {
        crate::procs::law_search_finds_by_name(list, needle, found[0]);
        assert(found.contains(found[0]));
    }
}

/// The providers that were chosen are enabled, and no other.
pub proof fn law_chosen_providers_are_enabled(choice: ProviderChoice)
    ensures
        chosen_labels(choice).contains("DXGI"@) <==> !(choice is D3d9Only),
        chosen_labels(choice).contains("D3D9"@) <==> !(choice is DxgiOnly),
        key_named("DXGI"@) == crate::collect::DXGI,
        key_named("D3D9"@) == crate::collect::D3D9,
        chosen_labels(choice).len() <= 2,
{
    reveal_strlit("DXGI");
    reveal_strlit("D3D9");
    assert("DXGI"@[1] == 'X');
    assert("D3D9"@[1] == '3');
    let both = seq!["DXGI"@, "D3D9"@];
    assert(both[0] == "DXGI"@ && both[1] == "D3D9"@);
    assert(seq!["DXGI"@][0] == "DXGI"@);
    assert(seq!["D3D9"@][0] == "D3D9"@);
}

/// A measurement without the rights for it ends with a code of its own, one that failed otherwise
/// with another, and one whose session was made goes on.
pub proof fn law_start_decides(error: Option<StartError>, words: Seq<char>, name: Seq<char>)
    ensures
        start_outcome(error, words, name).1 is Go <==> error is None,
        error is Some && error->0 is AccessDenied ==> start_outcome(error, words, name).1
            == Next::Exit(EXIT_ACCESS_DENIED),
        error is Some && !(error->0 is AccessDenied) ==> start_outcome(error, words, name).1
            == Next::Exit(EXIT_ERROR),
        EXIT_ACCESS_DENIED != EXIT_ERROR,
        EXIT_ACCESS_DENIED != EXIT_SUCCESS,
        EXIT_ERROR != EXIT_SUCCESS,
        EXIT_NO_FRAMES != EXIT_SUCCESS,
{
}

proof fn lemma_event_lines_say(lines: Seq<LineView>, rows: Seq<EventRow>, text: Seq<char>)
    requires
        says(lines, text),
    ensures
        says(event_lines(lines, rows), text),
    decreases rows.len(),
{
    if rows.len() > 0 {
        let before = event_lines(lines, rows.drop_last());
        lemma_event_lines_say(lines, rows.drop_last(), text);
        let i = choose|i: int| 0 <= i < before.len() && #[trigger] before[i] == LineView::Text(text);
        assert(event_lines(lines, rows)[i] == LineView::Text(text));
    }
}

proof fn lemma_process_rows_say(
    lines: Seq<LineView>,
    rows: Seq<ProcessRowView>,
    names: Map<u32, Seq<char>>,
    text: Seq<char>,
)
    requires
        says(lines, text),
    ensures
        says(process_row_lines(lines, rows, names), text),
    decreases rows.len(),
{
    if rows.len() > 0 {
        let before = process_row_lines(lines, rows.drop_last(), names);
        lemma_process_rows_say(lines, rows.drop_last(), names, text);
        let i = choose|i: int| 0 <= i < before.len() && #[trigger] before[i] == LineView::Text(text);
        assert(process_row_lines(lines, rows, names)[i] == LineView::Text(text));
    }
}

broadcast proof fn lemma_events_part_says(
    lines: Seq<LineView>,
    entries: Seq<(EventKey, u64)>,
    target: Option<ProcessInfoView>,
    top: usize,
    names: Map<u32, Seq<char>>,
    text: Seq<char>,
)
    requires
        says(lines, text),
    ensures
        #[trigger] says(events_part(lines, entries, target, top, names), text),
{
    broadcast use lemma_says_more;

    match target {
        Some(target) => {
            let headed = said(
                lines,
                "\n--- события цели "@ + target.name + " (pid "@ + decimal(target.pid as nat)
                    + ") ---"@,
            );
            lemma_event_lines_say(
                said(headed, "ПРОВАЙДЕР       ID  ВЕР   ОП    СОБЫТИЙ      В СЕК"@),
                crate::ranking::ranked(
                    rows_of(entries, target.pid),
                    |row: EventRow| row.heaviness(),
                ),
                text,
            );
        },
        None => {
            let headed = said(
                lines,
                "\n--- процессы, от которых приходят события (топ "@ + decimal(top as nat)
                    + ") ---"@,
            );
            lemma_process_rows_say(
                said(
                    headed,
                    "     PID  ПРОЦЕСС                         СОБЫТИЙ     В СЕК  СОБЫТИЯ"@,
                ),
                top_of(
                    crate::ranking::ranked(by_process(entries), |row: ProcessRowView| row.total),
                    top,
                ),
                names,
                text,
            );
        },
    }
}

broadcast proof fn lemma_chains_part_keeps(
    lines: Seq<LineView>,
    state: State,
    at: int,
    text: Seq<char>,
)
    requires
        0 <= at < state.chains.entries@.len(),
        says(lines, text),
    ensures
        #[trigger] says(chains_part(lines, state, at), text),
{
    lemma_chains_part_says(lines, state, at, text);
}

/// Every report tells the health of the capture: how long it took, how many events came, how many
/// were lost on the way, and how many buffers, each under its own name; and it warns where events
/// were lost.
pub proof fn law_report_tells_the_health(
    args: crate::cli::ArgsView,
    target: Option<ProcessInfoView>,
    collector: Collector,
    stats: Option<TraceStats>,
    figures: Figures,
    names: Map<u32, Seq<char>>,
)
    ensures
        ({
            let lines = report_of(args, target, collector, stats, figures, names).0;
            &&& says(lines, "длительность      : "@ + figures.duration@ + " с"@)
            &&& says(
                lines,
                "частота QPC       : "@ + signed(collector.qpc_freq as int) + " Гц"@,
            )
            &&& says(lines, "событий всего     : "@ + decimal(collector.total_events as nat))
            &&& stats is None ==> says(
                lines,
                "статистика сессии недоступна: остановку выполнил аварийный путь"@,
            )
            &&& stats matches Some(stats) ==> {
                &&& says(
                    lines,
                    "EventsLost "@ + decimal(stats.events_lost as nat) + ", RealTimeBuffersLost "@
                        + decimal(stats.real_time_buffers_lost as nat) + ", LogBuffersLost "@
                        + decimal(stats.log_buffers_lost as nat) + ", BuffersWritten "@ + decimal(
                        stats.buffers_written as nat,
                    ) + ", буферов "@ + decimal(stats.number_of_buffers as nat),
                )
                &&& stats.events_lost > 0 || stats.real_time_buffers_lost > 0 ==> says(
                    lines,
                    "ВНИМАНИЕ: потери событий. Это ровно тот признак, за которым стоит осиротевшая сессия (PLAN.md §2.1) — проверьте logman query -ets"@,
                )
            }
            &&& says(
                lines,
                "по данным потребителя: буферов прочитано "@ + decimal(
                    collector.buffers_read as nat,
                ) + ", событий потеряно "@ + decimal(collector.events_lost as nat),
            )
        }),
{
    broadcast use {
        lemma_says_more,
        lemma_notes_more,
        lemma_events_part_says,
        lemma_chains_part_keeps,
    };

    if collector.state.chains.entries@.len() > 0 {
        law_leading_is_largest(collector.state.chains.entries@);
    }
}

/// A report with a target says how many events came from other processes, and ends with the row of
/// what was measured. Its code is success where frames were measured and another where none were.
pub proof fn law_report_ends_with_the_row(
    args: crate::cli::ArgsView,
    target: ProcessInfoView,
    collector: Collector,
    stats: Option<TraceStats>,
    figures: Figures,
    names: Map<u32, Seq<char>>,
)
    ensures
        ({
            let (lines, code) = report_of(args, Some(target), collector, stats, figures, names);
            let entries = collector.state.chains.entries@;
            let frames = if entries.len() == 0 {
                0
            } else {
                lengths(measured(entries))
            };
            let foreign = events_besides(collector.state.events.entries@, target.pid);
            &&& code == (if frames > 0 {
                0u8
            } else {
                3
            })
            &&& foreign > 0 ==> says(
                lines,
                "событий от других процессов: "@ + decimal(foreign) + " (они отфильтрованы)"@,
            )
            &&& lines.last() == LineView::Text(
                coverage_row(
                    args.label,
                    target.name,
                    if entries.len() == 0 {
                        None
                    } else {
                        Some(chain_provider(entries[leading(entries)->0].1))
                    },
                    frames,
                    if frames > 0 {
                        figures.averages.fps@
                    } else {
                        ""@
                    },
                ),
            )
        }),
{
    broadcast use {lemma_says_more, lemma_notes_more, lemma_chains_part_keeps};

    if collector.state.chains.entries@.len() > 0 {
        law_leading_is_largest(collector.state.chains.entries@);
    }
}

/// The row of what was measured says whether there were frames, how many, and their rate only where
/// there were some.
pub proof fn law_row_tells_what_was_seen(
    name: Seq<char>,
    label: Seq<char>,
    provider: Seq<char>,
    frames: nat,
    fps: Seq<char>,
)
    ensures
        frames > 0 ==> coverage_row(Some(label), name, Some(provider), frames, fps) == "| "@ + label
            + " | "@ + name + " | "@ + provider + " | "@ + decimal(frames) + " | "@ + fps + " | "@
            + "да"@ + " |"@,
        coverage_row(Some(label), name, Some(provider), 0, fps) == "| "@ + label + " | "@ + name
            + " | "@ + provider + " | "@ + decimal(0) + " | "@ + "—"@ + " | "@ + "нет"@ + " |"@,
        coverage_row(None, name, None, 0, fps) == "| "@ + "?"@ + " | "@ + name + " | "@ + "—"@
            + " | "@ + decimal(0) + " | "@ + "—"@ + " | "@ + "нет"@ + " |"@,
{
}

/// A measurement ends when it is told to, or when its time is over; where it has no time, only when
/// told to. In between it shows the frames that came since it last did, once in a second.
pub proof fn law_measurement_ends_in_time(
    progress: Progress,
    elapsed: u64,
    seconds: u64,
    stopping: bool,
    frames: u64,
)
    ensures
        ({
            let tick = tick_of(progress, elapsed, seconds, stopping, frames);
            &&& stopping <==> tick is Interrupted
            &&& tick is Done <==> !stopping && seconds > 0 && elapsed >= seconds * 1_000_000_000
            &&& tick matches Tick::Show(gained) ==> elapsed >= progress.next_tick && (frames
                >= progress.last_frames ==> progress.last_frames + gained == frames)
            &&& tick is Wait ==> elapsed < progress.next_tick
        }),
{
}

/// A measurement goes on where at least one provider was enabled, and names those that were, in
/// their order; where none was, it ends.
pub proof fn law_enabled_providers_are_named(
    labels: Seq<Seq<char>>,
    statuses: Seq<u32>,
    words: Seq<Seq<char>>,
    at: int,
)
    requires
        labels.len() <= statuses.len(),
        0 <= at < labels.len(),
    ensures
        statuses[at] == 0 ==> enabled_labels(labels, statuses).contains(labels[at]),
        enabling_outcome(labels, statuses, words).1 is Go <==> exists|i: int|
            0 <= i < labels.len() && #[trigger] statuses[i] == 0,
{
    lemma_enabled_labels(labels, statuses, at);
    assert forall|i: int| 0 <= i < labels.len() && #[trigger] statuses[i] == 0 implies enabled_labels(
        labels,
        statuses,
    ).len() > 0 by {
        lemma_enabled_labels(labels, statuses, i);
    }
    lemma_none_enabled(labels, statuses);
}

proof fn lemma_enabled_labels(labels: Seq<Seq<char>>, statuses: Seq<u32>, at: int)
    requires
        labels.len() <= statuses.len(),
        0 <= at < labels.len(),
    ensures
        statuses[at] == 0 ==> enabled_labels(labels, statuses).contains(labels[at]),
        statuses[at] == 0 ==> enabled_labels(labels, statuses).len() > 0,
    decreases labels.len(),
{
    let front = labels.drop_last();
    let rest = enabled_labels(front, statuses);
    if at < front.len() {
        lemma_enabled_labels(front, statuses, at);
        if statuses[at] == 0 {
            let i = choose|i: int| 0 <= i < rest.len() && rest[i] == front[at];
            assert(rest.push(labels.last())[i] == labels[at]);
        }
    } else {
        assert(rest.push(labels.last())[rest.len() as int] == labels.last());
    }
}

proof fn lemma_none_enabled(labels: Seq<Seq<char>>, statuses: Seq<u32>)
    requires
        labels.len() <= statuses.len(),
    ensures
        (forall|i: int| 0 <= i < labels.len() ==> #[trigger] statuses[i] != 0) ==> enabled_labels(
            labels,
            statuses,
        ).len() == 0,
    decreases labels.len(),
{
    if labels.len() > 0 {
        lemma_none_enabled(labels.drop_last(), statuses);
    }
}

/// A text that is too long ends with a mark of that and is as long as it may be; any other stays.
pub proof fn law_long_texts_are_cut(s: Seq<char>, limit: nat)
    requires
        limit > 0,
    ensures
        s.len() <= limit ==> shortened(s, limit) == s,
        s.len() > limit ==> {
            &&& shortened(s, limit).len() == limit
            &&& shortened(s, limit).last() == '…'
            &&& shortened(s, limit).drop_last() == s.take(limit - 1)
        },
{
}

/// What is said of the end of the reading: nothing where it went well, and never the same of an
/// error and of a reader that did not return.
pub proof fn law_ends_of_the_reading_are_told(code: u32, words: Seq<char>)
    ensures
        ending(Some(0), words) is None,
        code != 0 ==> ending(Some(code), words) == Some(
            "ProcessTrace завершился с "@ + crate::sys::error_text(code, words),
        ),
        ending(None, words) is Some,
{
}

/// A target that is not there ends the program as a wrong call does, and a reader that does not
/// open as an error does.
pub proof fn law_measurement_needs_target_and_reader(
    target: Result<Option<ProcessInfo>, String>,
    answer: Opening,
    words: &str,
    found: (Vec<Line>, Next),
    read: (Vec<Line>, Next),
)
    requires
        call_ensures(after_target, (&target,), found),
        call_ensures(after_opening, (answer, words), read),
    ensures
        found.1 is Go <==> target is Ok,
        target is Err ==> found.1 == Next::Exit(2),
        read.1 is Go <==> answer is Opened,
        !(answer is Opened) ==> read.1 == Next::Exit(1),
{
}

/// What was shown is remembered with the time of the next, and nothing else changes the count.
pub proof fn law_shown_frames_are_remembered(
    progress: &mut Progress,
    elapsed: u64,
    seconds: u64,
    stopping: bool,
    frames: u64,
    r: Tick,
)
    requires
        call_ensures(Progress::tick, (progress, elapsed, seconds, stopping, frames), r),
        elapsed + 1_000_000_000 <= u64::MAX,
    ensures
        r is Show ==> final(progress).last_frames == frames && final(progress).next_tick == elapsed
            + 1_000_000_000,
        !(r is Show) ==> *final(progress) == *old(progress),
        stopping ==> r is Interrupted,
        !stopping && seconds > 0 && elapsed >= seconds * 1_000_000_000 ==> r is Done,
{
}

/// The events of a process and those of all others are all events.
pub proof fn law_own_and_other_events_are_all(entries: Seq<(EventKey, u64)>, pid: u32)
    ensures
        events_of(entries, pid) + events_besides(entries, pid) == crate::table::sum_by(
            entries,
            |n: u64| n as nat,
        ),
        forall|i: int|
            0 <= i < rows_of(entries, pid).len() ==> (#[trigger] rows_of(entries, pid)[i]).key.pid
                == pid,
    decreases entries.len(),
{
    if entries.len() > 0 {
        law_own_and_other_events_are_all(entries.drop_last(), pid);
        let rest = rows_of(entries.drop_last(), pid);
        assert forall|i: int| 0 <= i < rows_of(entries, pid).len() implies (#[trigger] rows_of(
            entries,
            pid,
        )[i]).key.pid == pid by {
            if i < rest.len() {
                assert(rest[i].key.pid == pid);
            }
        }
    }
}

/// Every kind of event of a process has its row, with its count.
pub proof fn law_events_have_their_rows(entries: Seq<(EventKey, u64)>, at: int)
    requires
        0 <= at < entries.len(),
    ensures
        rows_of(entries, entries[at].0.pid).contains(
            EventRow { key: entries[at].0, count: entries[at].1 },
        ),
    decreases entries.len(),
{
    let pid = entries[at].0.pid;
    let rest = rows_of(entries.drop_last(), pid);
    let row = EventRow { key: entries[at].0, count: entries[at].1 };
    let last = EventRow { key: entries.last().0, count: entries.last().1 };
    if at < entries.len() - 1 {
        assert(entries.drop_last()[at] == entries[at]);
        law_events_have_their_rows(entries.drop_last(), at);
        let i = choose|i: int| 0 <= i < rest.len() && rest[i] == row;
        assert(rest.push(last)[i] == row);
    } else {
        assert(rest.push(last)[rest.len() as int] == row);
    }
}

} // verus!
