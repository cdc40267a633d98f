//! Sessions of event tracing: starting one, stopping it exactly once, and sweeping those that
//! were left behind.
//!
//! A session left running spoils the capture of frames on the whole machine, so every way out
//! has to stop it: the end of the session's life, the console handler and the panic hook. They
//! share one flag, and so exactly one of them does it.

use vstd::prelude::*;

use crate::sys::number_at;
use crate::sys::with_number;
use crate::sys::PropsBuffer;
use crate::text::same_text;
use crate::text::starts_with;
use crate::text::views;

verus! {

/// What the names of this tool's sessions begin with.
pub const SESSION_PREFIX: &'static str = "MHMonitorSpike-";

/// What the names of the sessions to sweep begin with: this tool's and the monitor's own. There
/// is no hyphen at the end, or the tool would miss its own.
pub const SWEEP_PREFIX: &'static str = "MHMonitor";

pub const ERROR_SUCCESS: u32 = 0;

pub const ERROR_ACCESS_DENIED: u32 = 5;

pub const ERROR_ALREADY_EXISTS: u32 = 183;

pub const ERROR_MORE_DATA: u32 = 234;

pub const CTRL_C_EVENT: u32 = 0;

pub const CTRL_BREAK_EVENT: u32 = 1;

pub const WNODE_FLAG_TRACED_GUID: u32 = 0x0002_0000;

pub const EVENT_TRACE_REAL_TIME_MODE: u32 = 0x0000_0100;

/// How many sessions are asked for.
pub const MAX_SESSIONS: u32 = 128;

/// A provider of events, with what a session enables it for.
#[derive(Clone, Copy, Debug)]
pub struct Provider {
    pub label: &'static str,
    pub key: u128,
    pub level: u8,
    pub any_keyword: u64,
}

pub fn provider_dxgi() -> (r: Provider)
    ensures
        r.label@ == "DXGI"@,
        r.key == crate::collect::DXGI,
        r.level == 255,
        r.any_keyword == 0x8000_0000_0000_0002,
{
    Provider {
        label: "DXGI",
        key: crate::collect::DXGI,
        level: 255,
        any_keyword: 0x8000_0000_0000_0002,
    }
}

pub fn provider_d3d9() -> (r: Provider)
    ensures
        r.label@ == "D3D9"@,
        r.key == crate::collect::D3D9,
        r.level == 255,
        r.any_keyword == 0x8000_0000_0000_0002,
{
    Provider {
        label: "D3D9",
        key: crate::collect::D3D9,
        level: 255,
        any_keyword: 0x8000_0000_0000_0002,
    }
}

/// The level to enable a provider with: the given one, or the provider's own.
pub fn enable_level(provider: &Provider, level_override: Option<u8>) -> (r: u8)
    ensures
        r == (match level_override {
            Some(level) => level,
            None => provider.level,
        }),
{
    match level_override {
        Some(level) => level,
        None => provider.level,
    }
}

// --- stopping ---

/// What every way out of the program knows of the session.
#[derive(Debug)]
pub struct Shutdown {
    /// The name of the session, UTF-16 with a zero, from before its start.
    pub active_session: Option<Vec<u16>>,
    /// Whether the session was stopped, whoever did it.
    pub stop_done: bool,
    pub stop_requested: bool,
}

/// The units of a name.
pub open spec fn name_units(name: Option<Vec<u16>>) -> Option<Seq<u16>> {
    match name {
        Some(units) => Some(units@),
        None => None,
    }
}

/// Whether the session is left to whoever comes next: until someone has stopped it.
pub open spec fn left_to_stop(stop_done: bool) -> bool {
    !stop_done
}

pub fn copy_units(units: &Vec<u16>) -> (r: Vec<u16>)
    ensures
        r@ == units@,
{
    let mut copy: Vec<u16> = Vec::new();
    let mut i: usize = 0;
    while i < units.len()
        invariant
            i <= units.len(),
            copy@ == units@.take(i as int),
        decreases units.len() - i,
    {
        copy.push(units[i]);
        i += 1;
    }
    proof {
        assert(units@.take(i as int) =~= units@);
    }
    copy
}

impl Shutdown {
    pub fn new() -> (r: Shutdown)
        ensures
            r.active_session is None,
            !r.stop_done,
            !r.stop_requested,
    {
        Shutdown { active_session: None, stop_done: false, stop_requested: false }
    }

    /// Remembers the name of the session. The first name stays.
    pub fn set_active(&mut self, name: &Vec<u16>)
        ensures
            name_units(final(self).active_session) == (if old(self).active_session is None {
                Some(name@)
            } else {
                name_units(old(self).active_session)
            }),
            final(self).stop_done == old(self).stop_done,
            final(self).stop_requested == old(self).stop_requested,
    {
        if self.active_session.is_none() {
            self.active_session = Some(copy_units(name));
        }
    }

    /// A session runs: it is to be stopped again.
    pub fn started(&mut self)
        ensures
            !final(self).stop_done,
            final(self).active_session == old(self).active_session,
            final(self).stop_requested == old(self).stop_requested,
    {
        self.stop_done = false;
    }

    /// Whether the caller is the one to stop the session. Whoever asks next is not.
    pub fn claim_stop(&mut self) -> (r: bool)
        ensures
            r == left_to_stop(old(self).stop_done),
            final(self).stop_done,
            final(self).active_session == old(self).active_session,
            final(self).stop_requested == old(self).stop_requested,
    {
        let first = !self.stop_done;
        self.stop_done = true;
        first
    }

    /// Claims the stop of the active session: whether it is the caller's to do, and the name of
    /// the session where there is one to stop.
    pub fn stop_active_once(&mut self) -> (r: (bool, Option<Vec<u16>>))
        ensures
            r.0 == left_to_stop(old(self).stop_done),
            name_units(r.1) == (if left_to_stop(old(self).stop_done) {
                name_units(old(self).active_session)
            } else {
                None
            }),
            final(self).stop_done,
            final(self).active_session == old(self).active_session,
            final(self).stop_requested == old(self).stop_requested,
    {
        if !self.claim_stop() {
            return (false, None);
        }
        match &self.active_session {
            Some(name) => (true, Some(copy_units(name))),
            None => (true, None),
        }
    }

    /// Answers the console: the session to stop at once, and whether the event was handled. After
    /// the closing of the console the process ends with the answer, so a flag would come too
    /// late.
    pub fn on_console_event(&mut self, ctrl_type: u32) -> (r: (Option<Vec<u16>>, i32))
        ensures
            name_units(r.0) == (if left_to_stop(old(self).stop_done) {
                name_units(old(self).active_session)
            } else {
                None
            }),
            r.1 == (if ctrl_type == CTRL_C_EVENT || ctrl_type == CTRL_BREAK_EVENT {
                1i32
            } else {
                0
            }),
            final(self).stop_done,
            final(self).stop_requested,
            final(self).active_session == old(self).active_session,
    {
        let (_, name) = self.stop_active_once();
        self.stop_requested = true;
        (
            name,
            if ctrl_type == CTRL_C_EVENT || ctrl_type == CTRL_BREAK_EVENT {
                1
            } else {
                0
            },
        )
    }
}

pub fn stop_requested(shutdown: &Shutdown) -> (r: bool)
    ensures
        r == shutdown.stop_requested,
{
    shutdown.stop_requested
}

pub fn request_stop(shutdown: &mut Shutdown)
    ensures
        final(shutdown).stop_requested,
        final(shutdown).stop_done == old(shutdown).stop_done,
        final(shutdown).active_session == old(shutdown).active_session,
{
    shutdown.stop_requested = true;
}

/// How many of some ways out, taken one after another, stop the session.
pub open spec fn stops(stop_done: bool, ways: nat) -> nat
    decreases ways,
{
    if ways == 0 {
        0
    } else {
        (if left_to_stop(stop_done) {
            1nat
        } else {
            0
        }) + stops(true, (ways - 1) as nat)
    }
}

/// However many ways out a running session takes, one of them stops it.
pub proof fn law_stopped_exactly_once(ways: nat)
    requires
        ways > 0,
    ensures
        stops(false, ways) == 1,
{
    lemma_stopped_already((ways - 1) as nat);
}

proof fn lemma_stopped_already(ways: nat)
    ensures
        stops(true, ways) == 0,
    decreases ways,
{
    if ways > 0 {
        lemma_stopped_already((ways - 1) as nat);
    }
}

// --- sweeping ---

/// Whether a session is one to sweep: ours by its name, and not the one to keep.
pub open spec fn orphan(name: Seq<char>, keep: Seq<char>) -> bool {
    crate::text::begins_with(name, SWEEP_PREFIX@) && name != keep
}

/// The names of the first sessions of a list.
pub open spec fn session_names(buffers: Seq<PropsBuffer>, count: nat) -> Seq<Seq<char>> {
    buffers.take(count as int).map_values(|b: PropsBuffer| crate::sys::name_in(b.memory()))
}

/// How many of the buffers the system filled: where there are more sessions than buffers, the
/// buffers are full.
pub open spec fn filled(count: u32, buffers: nat) -> nat {
    if count < buffers {
        count as nat
    } else {
        buffers
    }
}

/// The sessions left behind, given what the system answered: an answer that there is more is as
/// good as a full one. Any other error is handed back.
pub fn found_orphans(
    status: u32,
    count: u32,
    buffers: &Vec<PropsBuffer>,
    keep: &str,
) -> (r: Result<Vec<String>, u32>)
    requires
        forall|i: int| 0 <= i < buffers.len() ==> (#[trigger] buffers@[i]).whole(),
    ensures
        r is Err <==> status != ERROR_SUCCESS && status != ERROR_MORE_DATA,
        r matches Err(code) ==> code == status,
        r matches Ok(names) ==> views(names@) == session_names(
            buffers@,
            filled(count, buffers@.len()),
        ).filter(|name: Seq<char>| orphan(name, keep@)),
{
    if status != ERROR_SUCCESS && status != ERROR_MORE_DATA {
        return Err(status);
    }
    let n: usize = if (count as u64) < buffers.len() as u64 {
        count as usize
    } else {
        buffers.len()
    };
    let ghost all = session_names(buffers@, n as nat);
    let ghost wanted = |name: Seq<char>| orphan(name, keep@);
    let mut names: Vec<String> = Vec::new();
    let mut i: usize = 0;
    proof {
        reveal_with_fuel(Seq::filter, 1);
        assert(views(names@) =~= all.take(0).filter(wanted));
    }
    while i < n
        invariant
            i <= n <= buffers.len(),
            forall|i: int| 0 <= i < buffers.len() ==> (#[trigger] buffers@[i]).whole(),
            all == session_names(buffers@, n as nat),
            wanted == (|name: Seq<char>| orphan(name, keep@)),
            views(names@) == all.take(i as int).filter(wanted),
        decreases n - i,
    {
        let name = buffers[i].logger_name();
        let ghost before = names@;
        proof {
            reveal_with_fuel(Seq::filter, 1);
            assert(all.take(i + 1).drop_last() =~= all.take(i as int));
            assert(all.take(i + 1).last() == name@);
            crate::text::lemma_views_push(names@, name);
        }
        if starts_with(name.as_str(), SWEEP_PREFIX) && !same_text(name.as_str(), keep) {
            names.push(name);
        }
        i += 1;
    }
    proof {
        assert(all.take(n as int) =~= all);
    }
    Ok(names)
}

/// How a sweep went.
#[derive(Debug)]
pub struct OrphanSweep {
    pub stopped: Vec<String>,
    pub failed: Vec<(String, u32)>,
    pub query_error: Option<u32>,
    pub total_sessions: u32,
}

pub open spec fn failure_views(failed: Seq<(String, u32)>) -> Seq<(Seq<char>, u32)> {
    failed.map_values(|f: (String, u32)| (f.0@, f.1))
}

/// The sessions that were stopped.
pub open spec fn stopped_of(names: Seq<Seq<char>>, statuses: Seq<u32>) -> Seq<Seq<char>>
    decreases names.len(),
{
    if names.len() == 0 {
        seq![]
    } else {
        let rest = stopped_of(names.drop_last(), statuses);
        if statuses[names.len() - 1] == ERROR_SUCCESS {
            rest.push(names.last())
        } else {
            rest
        }
    }
}

/// The sessions that could not be stopped, each with its error.
pub open spec fn failed_of(names: Seq<Seq<char>>, statuses: Seq<u32>) -> Seq<(Seq<char>, u32)>
    decreases names.len(),
{
    if names.len() == 0 {
        seq![]
    } else {
        let rest = failed_of(names.drop_last(), statuses);
        if statuses[names.len() - 1] == ERROR_SUCCESS {
            rest
        } else {
            rest.push((names.last(), statuses[names.len() - 1]))
        }
    }
}

/// The report of a sweep, given the sessions left behind and how the attempt to stop each ended.
pub fn sweep_orphans(
    orphans: Result<Vec<String>, u32>,
    count: u32,
    statuses: &Vec<u32>,
) -> (r: OrphanSweep)
    requires
        orphans matches Ok(names) ==> names.len() == statuses.len(),
    ensures
        orphans matches Err(code) ==> r.query_error == Some(code) && r.total_sessions == 0
            && r.stopped.len() == 0 && r.failed.len() == 0,
        orphans matches Ok(names) ==> r.query_error is None && r.total_sessions == count && views(
            r.stopped@,
        ) == stopped_of(views(names@), statuses@) && failure_views(r.failed@) == failed_of(
            views(names@),
            statuses@,
        ),
{
    let names = match orphans {
        Ok(names) => names,
        Err(code) => {
            return OrphanSweep {
                stopped: Vec::new(),
                failed: Vec::new(),
                query_error: Some(code),
                total_sessions: 0,
            };
        },
    };
    let mut stopped: Vec<String> = Vec::new();
    let mut failed: Vec<(String, u32)> = Vec::new();
    let mut i: usize = 0;
    let ghost all = views(names@);
    proof {
        assert(views(stopped@) =~= stopped_of(all.take(0), statuses@));
        assert(failure_views(failed@) =~= failed_of(all.take(0), statuses@));
    }
    while i < names.len()
        invariant
            i <= names.len(),
            names.len() == statuses.len(),
            all == views(names@),
            views(stopped@) == stopped_of(all.take(i as int), statuses@),
            failure_views(failed@) == failed_of(all.take(i as int), statuses@),
        decreases names.len() - i,
    {
        let name = names[i].clone();
        let ghost before = failure_views(failed@);
        proof {
            assert(all.take(i + 1).drop_last() =~= all.take(i as int));
            crate::text::lemma_views_push(stopped@, name);
        }
        if statuses[i] == ERROR_SUCCESS {
            stopped.push(name);
        } else {
            failed.push((name, statuses[i]));
            proof {
                assert(failure_views(failed@) =~= before.push((name@, statuses@[i as int])));
            }
        }
        i += 1;
    }
    proof {
        assert(all.take(i as int) =~= all);
    }
    OrphanSweep { stopped, failed, query_error: None, total_sessions: count }
}

/// A sweep touches no session with a name that is not ours, nor the one to keep.
pub proof fn law_other_sessions_stay(names: Seq<Seq<char>>, keep: Seq<char>, name: Seq<char>)
    requires
        names.filter(|n: Seq<char>| orphan(n, keep)).contains(name),
    ensures
        names.contains(name),
        crate::text::begins_with(name, SWEEP_PREFIX@),
        name != keep,
{
    broadcast use {vstd::seq_lib::group_seq_properties, vstd::seq_lib::group_filter_ensures};

    let wanted = |n: Seq<char>| orphan(n, keep);
    names.lemma_filter_contains_rev(wanted, name);
    let i = names.filter(wanted).index_of(name);
    assert(wanted(names.filter(wanted)[i]));
}

/// The names with which this tool starts its sessions are among those that a sweep looks for.
pub proof fn law_own_sessions_are_swept(number: Seq<char>)
    ensures
        crate::text::begins_with(SESSION_PREFIX@ + number, SWEEP_PREFIX@),
{
    reveal_strlit("MHMonitorSpike-");
    reveal_strlit("MHMonitor");
    let name = SESSION_PREFIX@ + number;
    assert(SWEEP_PREFIX@.len() == 9);
    assert(SESSION_PREFIX@.len() == 15);
    assert(name.subrange(0, 9) =~= SWEEP_PREFIX@);
}

// --- the session ---

/// The buffers of a session. Zero leaves a figure to the system.
#[derive(Debug, Clone, Copy, PartialEq, Eq, Structural)]
pub struct BufferConfig {
    pub buffer_kb: u32,
    pub min_buffers: u32,
    pub max_buffers: u32,
    pub flush_seconds: u32,
}

impl Default for BufferConfig {
    fn default() -> (r: BufferConfig)
        ensures
            r == (BufferConfig {
                buffer_kb: 0,
                min_buffers: 0,
                max_buffers: 0,
                flush_seconds: 0,
            }),
    {
        BufferConfig { buffer_kb: 0, min_buffers: 0, max_buffers: 0, flush_seconds: 0 }
    }
}

/// The figures of a session at its end.
#[derive(Debug, Clone, Copy, PartialEq, Eq, Structural)]
pub struct TraceStats {
    pub events_lost: u32,
    pub buffers_written: u32,
    pub real_time_buffers_lost: u32,
    pub log_buffers_lost: u32,
    pub number_of_buffers: u32,
}

impl Default for TraceStats {
    fn default() -> (r: TraceStats)
        ensures
            r == (TraceStats {
                events_lost: 0,
                buffers_written: 0,
                real_time_buffers_lost: 0,
                log_buffers_lost: 0,
                number_of_buffers: 0,
            }),
    {
        TraceStats {
            events_lost: 0,
            buffers_written: 0,
            real_time_buffers_lost: 0,
            log_buffers_lost: 0,
            number_of_buffers: 0,
        }
    }
}

/// The fields of `EVENT_TRACE_PROPERTIES` that a session without a file is started with, on top
/// of those that every call wants: times by the performance counter, real time, and the buffers.
pub open spec fn session_memory(memory: Seq<u16>, buffers: BufferConfig) -> Seq<u16> {
    let memory = with_number(memory, 22, WNODE_FLAG_TRACED_GUID as nat);
    let memory = with_number(memory, 20, 1);
    let memory = with_number(memory, 32, EVENT_TRACE_REAL_TIME_MODE as nat);
    let memory = with_number(memory, 24, buffers.buffer_kb as nat);
    let memory = with_number(memory, 26, buffers.min_buffers as nat);
    let memory = with_number(memory, 28, buffers.max_buffers as nat);
    with_number(memory, 34, buffers.flush_seconds as nat)
}

/// The buffer to start a session with.
pub fn session_properties(name: &Vec<u16>, buffers: BufferConfig) -> (r: PropsBuffer)
    ensures
        r.whole(),
        r.memory() == session_memory(
            crate::sys::overwritten(
                crate::sys::initialized(Seq::new(1084, |i: int| 0u16), false),
                60,
                crate::sys::fitting(name@).push(0),
            ),
            buffers,
        ),
{
    let mut buf = PropsBuffer::new();
    buf.init(false);
    buf.write_logger_name(name.as_slice());
    buf.set_number(22, WNODE_FLAG_TRACED_GUID);
    buf.set_number(20, 1);
    buf.set_number(32, EVENT_TRACE_REAL_TIME_MODE);
    buf.set_number(24, buffers.buffer_kb);
    buf.set_number(26, buffers.min_buffers);
    buf.set_number(28, buffers.max_buffers);
    buf.set_number(34, buffers.flush_seconds);
    buf
}

/// A session is started under the name that was asked for.
pub proof fn law_session_keeps_its_name(name: Seq<char>, buffers: BufferConfig)
    requires
        !name.contains('\0'),
        crate::sys::utf16(name).len() < 511,
    ensures
        crate::sys::name_in(
            session_memory(
                crate::sys::overwritten(
                    crate::sys::initialized(Seq::new(1084, |i: int| 0u16), false),
                    60,
                    crate::sys::fitting(crate::sys::utf16(name).push(0)).push(0),
                ),
                buffers,
            ),
        ) == name,
{
    let blank = Seq::new(1084, |i: int| 0u16);
    crate::sys::law_session_name_reads_back(blank, false, name);
    let named = crate::sys::overwritten(
        crate::sys::initialized(blank, false),
        60,
        crate::sys::fitting(crate::sys::utf16(name).push(0)).push(0),
    );
    let made = session_memory(named, buffers);
    assert(forall|i: int| 36 <= i < 1084 ==> made[i] == named[i]);
    assert(number_at(made, 58) == number_at(named, 58));
    let offset = number_at(named, 58) as int;
    assert(named[58] == 120 && named[59] == 0);
    assert(crate::sys::units_from(made, offset) =~= crate::sys::units_from(named, offset));
}

/// The figures that the system wrote when it stopped a session.
pub open spec fn stats_in(memory: Seq<u16>) -> TraceStats {
    TraceStats {
        events_lost: number_at(memory, 44) as u32,
        buffers_written: number_at(memory, 46) as u32,
        real_time_buffers_lost: number_at(memory, 50) as u32,
        log_buffers_lost: number_at(memory, 48) as u32,
        number_of_buffers: number_at(memory, 40) as u32,
    }
}

/// The figures of a session after the attempt to stop it; none where the system refused.
pub fn final_stats(status: u32, buf: &PropsBuffer) -> (r: Option<TraceStats>)
    requires
        buf.whole(),
    ensures
        r == (if status == ERROR_SUCCESS {
            Some(stats_in(buf.memory()))
        } else {
            None
        }),
{
    if status != ERROR_SUCCESS {
        return None;
    }
    Some(
        TraceStats {
            events_lost: buf.number(44),
            buffers_written: buf.number(46),
            real_time_buffers_lost: buf.number(50),
            log_buffers_lost: buf.number(48),
            number_of_buffers: buf.number(40),
        },
    )
}

#[derive(Clone, Copy, PartialEq, Eq, Debug, Structural)]
pub enum StartError {
    AccessDenied,
    Other(u32),
}

/// Why a session did not start, in words.
pub open spec fn start_error_text(error: StartError, words: Seq<char>) -> Seq<char> {
    match error {
        StartError::AccessDenied => "нет прав на realtime ETW. Запустите от администратора либо добавьте пользователя в группу «Performance Log Users» (PLAN.md §2.3)"@,
        StartError::Other(code) => crate::sys::error_text(code, words),
    }
}

impl StartError {
    /// The error in words, given what the system says of its code.
    pub fn describe(&self, words: &str) -> (r: String)
        ensures
            r@ == start_error_text(*self, words@),
    {
        match self {
            StartError::AccessDenied => "нет прав на realtime ETW. Запустите от администратора либо добавьте пользователя в группу «Performance Log Users» (PLAN.md §2.3)".to_string(),
            StartError::Other(code) => crate::sys::Win32Error(*code).describe(words),
        }
    }
}

/// What follows an attempt to start a session.
#[derive(Clone, Copy, PartialEq, Eq, Debug, Structural)]
pub enum StartStep {
    Started,
    /// Stop the session of that name and try once more.
    Retry,
    Failed(StartError),
}

/// A session under our name can only be one left behind, so the first time it is stopped and
/// tried again.
pub fn start_step(status: u32, retried: bool) -> (r: StartStep)
    ensures
        r == (if status == ERROR_SUCCESS {
            StartStep::Started
        } else if status == ERROR_ALREADY_EXISTS && !retried {
            StartStep::Retry
        } else if status == ERROR_ACCESS_DENIED {
            StartStep::Failed(StartError::AccessDenied)
        } else {
            StartStep::Failed(StartError::Other(status))
        }),
{
    if status == ERROR_SUCCESS {
        StartStep::Started
    } else if status == ERROR_ALREADY_EXISTS && !retried {
        StartStep::Retry
    } else if status == ERROR_ACCESS_DENIED {
        StartStep::Failed(StartError::AccessDenied)
    } else {
        StartStep::Failed(StartError::Other(status))
    }
}

/// The handle of an opened trace, or the error where the system gave the handle that says so.
pub fn opened(handle: u64, error: u32) -> (r: Result<u64, u32>)
    ensures
        r == (if handle == u64::MAX {
            Err::<u64, u32>(error)
        } else {
            Ok(handle)
        }),
{
    if handle == u64::MAX {
        Err(error)
    } else {
        Ok(handle)
    }
}

/// Every session that was to be swept is told of once: as stopped where the system stopped it,
/// else with its error.
pub proof fn law_sweep_tells_of_every_session(
    names: Seq<Seq<char>>,
    statuses: Seq<u32>,
    at: int,
)
    requires
        names.len() <= statuses.len(),
        0 <= at < names.len(),
    ensures
        statuses[at] == 0 ==> stopped_of(names, statuses).contains(names[at]),
        statuses[at] != 0 ==> failed_of(names, statuses).contains((names[at], statuses[at])),
        stopped_of(names, statuses).len() + failed_of(names, statuses).len() == names.len(),
    decreases names.len(),
{
    let front = names.drop_last();
    let stopped = stopped_of(front, statuses);
    let failed = failed_of(front, statuses);
    let last = statuses[names.len() - 1];
    if front.len() > 0 {
        law_sweep_tells_of_every_session(
            front,
            statuses,
            if at < front.len() {
                at
            } else {
                0
            },
        );
    }
    if at < front.len() {
        assert(front[at] == names[at]);
        if statuses[at] == 0 {
            let i = choose|i: int| 0 <= i < stopped.len() && stopped[i] == names[at];
            assert(stopped.push(names.last())[i] == names[at]);
        } else {
            let i = choose|i: int|
                0 <= i < failed.len() && failed[i] == (names[at], statuses[at]);
            assert(failed.push((names.last(), last))[i] == (names[at], statuses[at]));
        }
    } else {
        assert(stopped.push(names.last())[stopped.len() as int] == names.last());
        assert(failed.push((names.last(), last))[failed.len() as int] == (names.last(), last));
    }
}

/// A sweep finds every session of the monitor and of this tool but the one to keep.
pub proof fn law_left_sessions_are_found(names: Seq<Seq<char>>, keep: Seq<char>, number: int)
    requires
        0 <= number < names.len(),
        crate::text::begins_with(names[number], "MHMonitor"@),
        names[number] != keep,
    ensures
        names.filter(|n: Seq<char>| orphan(n, keep)).contains(names[number]),
{
    broadcast use {vstd::seq_lib::group_seq_properties, vstd::seq_lib::group_filter_ensures};

    let wanted = |n: Seq<char>| orphan(n, keep);
    assert(wanted(names[number]));
    assert(names.contains(names[number]));
    names.lemma_filter_contains(wanted, number);
}

/// What the system wrote into the fields of the figures comes out as those figures: fields of four
/// bytes at the places that `EVENT_TRACE_PROPERTIES` gives them, counted in pairs of bytes.
pub proof fn law_figures_are_read(memory: Seq<u16>, figures: TraceStats)
    requires
        memory.len() >= 60,
    ensures
        ({
            let written = with_number(memory, 40, figures.number_of_buffers as nat);
            let written = with_number(written, 44, figures.events_lost as nat);
            let written = with_number(written, 46, figures.buffers_written as nat);
            let written = with_number(written, 48, figures.log_buffers_lost as nat);
            let written = with_number(written, 50, figures.real_time_buffers_lost as nat);
            stats_in(written) == figures
        }),
{
}

/// A session is started in real time, on the performance counter, and with the buffers that were
/// asked for.
pub proof fn law_session_has_its_buffers(memory: Seq<u16>, buffers: BufferConfig)
    requires
        memory.len() >= 60,
    ensures
        ({
            let made = session_memory(memory, buffers);
            &&& number_at(made, 20) == 1
            &&& number_at(made, 22) == 0x0002_0000
            &&& number_at(made, 24) == buffers.buffer_kb
            &&& number_at(made, 26) == buffers.min_buffers
            &&& number_at(made, 28) == buffers.max_buffers
            &&& number_at(made, 32) == 0x0000_0100
            &&& number_at(made, 34) == buffers.flush_seconds
        }),
{
}

/// A session that runs already is stopped and tried once more, and only once; missing rights are
/// told apart from every other error.
pub proof fn law_sessions_are_retried_once(status: u32, retried: bool, r: StartStep)
    requires
        call_ensures(start_step, (status, retried), r),
    ensures
        r is Started <==> status == 0,
        r is Retry <==> status == 183 && !retried,
        r == StartStep::Failed(StartError::AccessDenied) <==> status == 5,
        r is Failed && status != 5 ==> r == StartStep::Failed(StartError::Other(status)),
{
}

/// The level that was asked for goes before the provider's own.
pub proof fn law_asked_level_goes_first(provider: Provider, level: u8, r: u8, own: u8)
    requires
        call_ensures(enable_level, (&provider, Some(level)), r),
        call_ensures(enable_level, (&provider, None::<u8>), own),
    ensures
        r == level,
        own == provider.level,
{
}

/// A refused session gives no figures, and one that ended gives its own.
pub proof fn law_refused_sessions_have_no_figures(
    status: u32,
    buf: PropsBuffer,
    r: Option<TraceStats>,
)
    requires
        call_ensures(final_stats, (status, &buf), r),
    ensures
        r is Some <==> status == 0,
        r matches Some(figures) ==> figures == stats_in(buf.memory()),
{
}

/// Whoever comes first stops the session, under the name it was started with, and nobody after
/// that: the flag is set for good.
pub proof fn law_first_way_out_stops_the_session(
    shutdown: &mut Shutdown,
    r: (bool, Option<Vec<u16>>),
)
    requires
        call_ensures(Shutdown::stop_active_once, (shutdown,), r),
    ensures
        r.0 <==> !old(shutdown).stop_done,
        r.0 ==> name_units(r.1) == name_units(old(shutdown).active_session),
        !r.0 ==> name_units(r.1) is None,
        final(shutdown).stop_done,
        final(shutdown).active_session == old(shutdown).active_session,
        final(shutdown).stop_requested == old(shutdown).stop_requested,
{
}

/// A console event stops the session and asks the measurement to end; the keys that interrupt are
/// answered, so that the report still comes, and every other event is passed on.
pub proof fn law_console_events_end_the_measurement(
    shutdown: &mut Shutdown,
    event: u32,
    r: (Option<Vec<u16>>, i32),
)
    requires
        call_ensures(Shutdown::on_console_event, (shutdown, event), r),
    ensures
        final(shutdown).stop_requested,
        final(shutdown).stop_done,
        !old(shutdown).stop_done ==> name_units(r.0) == name_units(old(shutdown).active_session),
        old(shutdown).stop_done ==> name_units(r.0) is None,
        event == 0 || event == 1 ==> r.1 == 1,
        event != 0 && event != 1 ==> r.1 == 0,
{
}

/// The first name of a session is remembered, and no later one takes its place.
pub proof fn law_first_name_is_remembered(shutdown: &mut Shutdown, name: Vec<u16>)
    requires
        call_ensures(Shutdown::set_active, (shutdown, &name), ()),
    ensures
        old(shutdown).active_session is None ==> name_units(final(shutdown).active_session) == Some(
            name@,
        ),
        old(shutdown).active_session is Some ==> name_units(final(shutdown).active_session)
            == name_units(old(shutdown).active_session),
        final(shutdown).stop_done == old(shutdown).stop_done,
{
}

} // verus!
