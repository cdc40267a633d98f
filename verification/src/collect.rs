//! Counting events by process, provider and kind, and timing the frames of one process.

use vstd::prelude::*;

use crate::table::lemma_entry;
use crate::table::lemma_sum_changed;
use crate::table::sum_by;
use crate::table::total;
use crate::table::Ranked;
use crate::table::Table;
use crate::text::to_decimal;

verus! {

/// The events with which the two providers announce a call to present a frame.
pub const DXGI_PRESENT_START_ID: u16 = 42;

pub const D3D9_PRESENT_START_ID: u16 = 1;

/// The flag of a call that presents nothing and only asks whether the window is covered. It
/// gives the same event as a real frame.
pub const DXGI_PRESENT_TEST: u32 = 0x0000_0001;

/// The providers `Microsoft-Windows-DXGI` and `Microsoft-Windows-D3D9`.
pub const DXGI: u128 = 0xca11_c036_0102_4a2d_a6ad_f03c_fed5_d3c9;

pub const D3D9: u128 = 0x783a_ca0a_790e_4d7f_8451_aa85_0511_c6b9;

/// A GUID in the parts in which Windows keeps it.
#[derive(Clone, Copy, Debug)]
pub struct Guid {
    pub data1: u32,
    pub data2: u16,
    pub data3: u16,
    pub data4: [u8; 8],
}

#[derive(Clone, Copy, PartialEq, Eq, PartialOrd, Ord, Debug, Structural)]
pub struct ProviderKey(pub u128);

/// The last eight bytes of a GUID as a number, the first byte highest.
pub open spec fn last_bytes(g: Guid) -> nat {
    (g.data4[0] * 0x100_0000_0000_0000 + g.data4[1] * 0x1_0000_0000_0000 + g.data4[2]
        * 0x100_0000_0000 + g.data4[3] * 0x1_0000_0000 + g.data4[4] * 0x100_0000 + g.data4[5]
        * 0x1_0000 + g.data4[6] * 0x100 + g.data4[7]) as nat
}

/// The digits of a GUID read as one number.
pub open spec fn guid_number(g: Guid) -> nat {
    (g.data1 * 0x1_0000_0000_0000_0000_0000_0000 + g.data2 * 0x1_0000_0000_0000_0000_0000 + g.data3
        * 0x1_0000_0000_0000_0000 + last_bytes(g)) as nat
}

/// A digit of a number in base 16.
pub open spec fn hex_char(d: nat) -> char {
    if d < 10 {
        (48 + d) as char
    } else {
        (87 + d) as char
    }
}

/// The lowest digits of a number in base 16, as many as `width`.
pub open spec fn hex(n: nat, width: nat) -> Seq<char>
    decreases width,
{
    if width == 0 {
        seq![]
    } else {
        hex(n / 16, (width - 1) as nat).push(hex_char(n % 16))
    }
}

fn hex_digit(d: u8) -> (r: char)
    requires
        d < 16,
    ensures
        r == hex_char(d as nat),
{
    if d < 10 {
        (48 + d) as char
    } else {
        (87 + d) as char
    }
}

fn to_hex(n: u128, width: u8) -> (r: String)
    ensures
        r@ == hex(n as nat, width as nat),
    decreases width,
{
    if width == 0 {
        return String::new();
    }
    let mut r = to_hex(n / 16, width - 1);
    r.push(hex_digit((n % 16) as u8));
    r
}

/// What a provider is called: its short name, or its GUID in groups of digits.
pub open spec fn provider_label(key: nat) -> Seq<char> {
    if key == DXGI {
        "DXGI"@
    } else if key == D3D9 {
        "D3D9"@
    } else {
        hex(key / 0x1_0000_0000_0000_0000_0000_0000, 8) + "-"@ + hex(
            key / 0x1_0000_0000_0000_0000_0000,
            4,
        ) + "-"@ + hex(key / 0x1_0000_0000_0000_0000, 4) + "-"@ + hex(key, 16)
    }
}

impl ProviderKey {
    pub fn from_guid(g: &Guid) -> (r: ProviderKey)
        ensures
            r.0 == guid_number(*g),
    {
        let low: u128 = g.data4[0] as u128 * 0x100_0000_0000_0000 + g.data4[1] as u128
            * 0x1_0000_0000_0000 + g.data4[2] as u128 * 0x100_0000_0000 + g.data4[3] as u128
            * 0x1_0000_0000 + g.data4[4] as u128 * 0x100_0000 + g.data4[5] as u128 * 0x1_0000
            + g.data4[6] as u128 * 0x100 + g.data4[7] as u128;
        ProviderKey(
            g.data1 as u128 * 0x1_0000_0000_0000_0000_0000_0000 + g.data2 as u128
                * 0x1_0000_0000_0000_0000_0000 + g.data3 as u128 * 0x1_0000_0000_0000_0000 + low,
        )
    }

    pub fn label(&self) -> (r: String)
        ensures
            r@ == provider_label(self.0 as nat),
    {
        let v: u128 = self.0;
        if v == DXGI {
            "DXGI".to_string()
        } else if v == D3D9 {
            "D3D9".to_string()
        } else {
            let mut r = to_hex(v / 0x1_0000_0000_0000_0000_0000_0000, 8);
            r.append("-");
            r.append(to_hex(v / 0x1_0000_0000_0000_0000_0000, 4).as_str());
            r.append("-");
            r.append(to_hex(v / 0x1_0000_0000_0000_0000, 4).as_str());
            r.append("-");
            r.append(to_hex(v, 16).as_str());
            r
        }
    }
}

#[derive(Clone, Copy, PartialEq, Eq, PartialOrd, Ord, Debug, Structural)]
pub struct EventKey {
    pub pid: u32,
    pub provider: ProviderKey,
    pub id: u16,
    pub version: u8,
    pub opcode: u8,
}

impl Ranked for EventKey {
    /// By process, then provider, event, version and opcode.
    open spec fn rank(self) -> nat {
        ((((self.pid * 0x1_0000_0000_0000_0000_0000_0000_0000_0000 + self.provider.0) * 0x1_0000
            + self.id) * 0x100 + self.version) * 0x100 + self.opcode) as nat
    }

    proof fn lemma_rank(self, other: Self) {
    }

    fn is_below(&self, other: &Self) -> (r: bool) {
        if self.pid != other.pid {
            return self.pid < other.pid;
        }
        if self.provider.0 != other.provider.0 {
            return self.provider.0 < other.provider.0;
        }
        if self.id != other.id {
            return self.id < other.id;
        }
        if self.version != other.version {
            return self.version < other.version;
        }
        self.opcode < other.opcode
    }
}

/// The calls to present of one swap chain.
///
/// A process may have several of them (overlays, other windows), and the gaps between frames
/// mean something only within one.
#[derive(Debug)]
pub struct Chain {
    pub provider: Option<ProviderKey>,
    pub presents: u64,
    /// The gaps between the frames, in ticks of the clock.
    pub frames: Vec<i64>,
    pub last_ts: Option<i64>,
    pub first_ts: Option<i64>,
    pub last_seen_ts: Option<i64>,
}

#[verifier::ext_equal]
pub struct ChainView {
    pub provider: Option<ProviderKey>,
    pub presents: u64,
    pub frames: Seq<i64>,
    pub last_ts: Option<i64>,
    pub first_ts: Option<i64>,
    pub last_seen_ts: Option<i64>,
}

impl View for Chain {
    type V = ChainView;

    open spec fn view(&self) -> ChainView {
        ChainView {
            provider: self.provider,
            presents: self.presents,
            frames: self.frames@,
            last_ts: self.last_ts,
            first_ts: self.first_ts,
            last_seen_ts: self.last_seen_ts,
        }
    }
}

/// A chain of which nothing was seen.
pub open spec fn unseen_chain() -> ChainView {
    ChainView {
        provider: None,
        presents: 0,
        frames: seq![],
        last_ts: None,
        first_ts: None,
        last_seen_ts: None,
    }
}

impl Default for Chain {
    fn default() -> (r: Chain)
        ensures
            r@ == unseen_chain(),
    {
        Chain {
            provider: None,
            presents: 0,
            frames: Vec::new(),
            last_ts: None,
            first_ts: None,
            last_seen_ts: None,
        }
    }
}

/// The time from one moment to another, held to what fits.
pub open spec fn elapsed(from: i64, to: i64) -> int {
    let gap = to - from;
    if gap > i64::MAX {
        i64::MAX as int
    } else if gap < i64::MIN {
        i64::MIN as int
    } else {
        gap
    }
}

/// A chain after one more call to present. A gap counts as a frame where time has passed and
/// the clock's frequency makes it a length.
pub open spec fn presented(chain: ChainView, provider: ProviderKey, ts: i64, freq: i64) -> ChainView {
    ChainView {
        provider: Some(provider),
        presents: (chain.presents + 1) as u64,
        frames: match chain.last_ts {
            Some(previous) if elapsed(previous, ts) > 0 && freq > 0 => chain.frames.push(
                elapsed(previous, ts) as i64,
            ),
            _ => chain.frames,
        },
        last_ts: Some(ts),
        first_ts: if chain.first_ts is None {
            Some(ts)
        } else {
            chain.first_ts
        },
        last_seen_ts: Some(ts),
    }
}

impl Chain {
    fn present(&mut self, provider: ProviderKey, ts: i64, freq: i64)
        requires
            old(self).presents < u64::MAX,
        ensures
            final(self)@ == presented(old(self)@, provider, ts, freq),
    {
        self.provider = Some(provider);
        self.presents = self.presents + 1;
        if self.first_ts.is_none() {
            self.first_ts = Some(ts);
        }
        self.last_seen_ts = Some(ts);
        if let Some(previous) = self.last_ts {
            let gap: i128 = ts as i128 - previous as i128;
            let delta: i64 = if gap > i64::MAX as i128 {
                i64::MAX
            } else if gap < i64::MIN as i128 {
                i64::MIN
            } else {
                gap as i64
            };
            if delta > 0 && freq > 0 {
                self.frames.push(delta);
            }
        }
        self.last_ts = Some(ts);
    }
}

#[derive(Debug)]
pub struct State {
    pub events: Table<EventKey, u64>,
    pub chains: Table<u64, Chain>,
    pub first_ts: Option<i64>,
    pub last_ts: Option<i64>,
    /// The target's calls to present whose swap chain could not be read.
    pub presents_without_chain: u64,
    /// The test calls that were left out.
    pub filtered_test_presents: u64,
    /// Which flags occurred in the target's calls to present.
    pub present_flags: Table<u32, u64>,
}

#[verifier::ext_equal]
pub struct StateView {
    pub events: Map<EventKey, u64>,
    pub chains: Map<u64, ChainView>,
    pub first_ts: Option<i64>,
    pub last_ts: Option<i64>,
    pub presents_without_chain: u64,
    pub filtered_test_presents: u64,
    pub present_flags: Map<u32, u64>,
}

pub open spec fn chain_views(chains: Map<u64, Chain>) -> Map<u64, ChainView> {
    chains.map_values(|c: Chain| c@)
}

impl View for State {
    type V = StateView;

    open spec fn view(&self) -> StateView {
        StateView {
            events: self.events.values(),
            chains: chain_views(self.chains.values()),
            first_ts: self.first_ts,
            last_ts: self.last_ts,
            presents_without_chain: self.presents_without_chain,
            filtered_test_presents: self.filtered_test_presents,
            present_flags: self.present_flags.values(),
        }
    }
}

/// Nothing was seen yet.
pub open spec fn nothing_seen() -> StateView {
    StateView {
        events: Map::empty(),
        chains: Map::empty(),
        first_ts: None,
        last_ts: None,
        presents_without_chain: 0,
        filtered_test_presents: 0,
        present_flags: Map::empty(),
    }
}

impl Default for State {
    fn default() -> (r: State)
        ensures
            r@ == nothing_seen(),
            r.events.ordered(),
            r.events.entries@.len() == 0,
            r.chains.ordered(),
            r.chains.entries@.len() == 0,
            r.present_flags.ordered(),
            r.present_flags.entries@.len() == 0,
    {
        let r = State {
            events: Table::new(),
            chains: Table::new(),
            first_ts: None,
            last_ts: None,
            presents_without_chain: 0,
            filtered_test_presents: 0,
            present_flags: Table::new(),
        };
        proof {
            assert(chain_views(r.chains.values()) =~= Map::empty());
        }
        r
    }
}

/// An event as it arrives.
#[derive(Debug)]
pub struct Record {
    pub provider: ProviderKey,
    pub pid: u32,
    pub id: u16,
    pub version: u8,
    pub opcode: u8,
    pub timestamp: i64,
    /// The bytes behind the header; none where the event has no data.
    pub data: Vec<u8>,
}

impl Record {
    pub open spec fn key(self) -> EventKey {
        EventKey {
            pid: self.pid,
            provider: self.provider,
            id: self.id,
            version: self.version,
            opcode: self.opcode,
        }
    }
}

/// The beginning of the data of a call to present: the address of the swap chain, then the
/// flags.
#[derive(Clone, Copy, Debug)]
pub struct PresentPayload {
    pub chain: u64,
    pub flags: Option<u32>,
}

/// A number of four bytes, the lowest first.
pub open spec fn four_bytes(data: Seq<u8>, at: int) -> nat {
    (data[at] + 0x100 * data[at + 1] + 0x1_0000 * data[at + 2] + 0x100_0000 * data[at + 3]) as nat
}

pub open spec fn payload_of(data: Seq<u8>) -> Option<PresentPayload> {
    if data.len() < 8 {
        None
    } else {
        Some(
            PresentPayload {
                chain: (four_bytes(data, 0) + 0x1_0000_0000 * four_bytes(data, 4)) as u64,
                flags: if data.len() >= 12 {
                    Some(four_bytes(data, 8) as u32)
                } else {
                    None
                },
            },
        )
    }
}

fn number_at(data: &Vec<u8>, at: usize) -> (r: u32)
    requires
        at + 4 <= data.len(),
    ensures
        r == four_bytes(data@, at as int),
{
    data[at] as u32 + 0x100 * data[at + 1] as u32 + 0x1_0000 * data[at + 2] as u32 + 0x100_0000
        * data[at + 3] as u32
}

pub fn present_payload(record: &Record) -> (r: Option<PresentPayload>)
    ensures
        r == payload_of(record.data@),
{
    if record.data.len() < 8 {
        return None;
    }
    let chain: u64 = number_at(&record.data, 0) as u64 + 0x1_0000_0000 * number_at(
        &record.data,
        4,
    ) as u64;
    let flags = if record.data.len() >= 12 {
        Some(number_at(&record.data, 8))
    } else {
        None
    };
    Some(PresentPayload { chain, flags })
}

#[derive(Debug)]
pub struct Collector {
    pub state: State,
    pub target_pid: Option<u32>,
    pub qpc_freq: i64,
    pub dxgi_present_id: u16,
    pub d3d9_present_id: u16,
    pub keep_test_presents: bool,
    pub total_events: u64,
    pub target_events: u64,
    pub events_lost: u32,
    pub buffers_read: u32,
    /// Whether each callback was called before. That tells a consumer that gets no events from
    /// one that is not connected.
    pub first_buffer_seen: bool,
    pub first_event_seen: bool,
}

/// What a collector was told to look for.
#[verifier::ext_equal]
pub struct Watch {
    pub target_pid: Option<u32>,
    pub qpc_freq: i64,
    pub dxgi_present_id: u16,
    pub d3d9_present_id: u16,
    pub keep_test_presents: bool,
}

/// The event with which a provider announces a call to present.
pub open spec fn start_id(watch: Watch, provider: ProviderKey) -> Option<u16> {
    if provider.0 == DXGI {
        Some(watch.dxgi_present_id)
    } else if provider.0 == D3D9 {
        Some(watch.d3d9_present_id)
    } else {
        None
    }
}

/// Whether an event comes from the target; without one, every event does.
pub open spec fn concerns(watch: Watch, pid: u32) -> bool {
    watch.target_pid is None || watch.target_pid == Some(pid)
}

/// Whether an event is a call to present of the target.
pub open spec fn is_present(watch: Watch, record: Record) -> bool {
    &&& watch.target_pid == Some(record.pid)
    &&& start_id(watch, record.provider) == Some(record.id)
}

/// A test call presents no frame. Only the flags of DXGI say so.
pub open spec fn is_test(provider: ProviderKey, flags: Option<u32>) -> bool {
    provider.0 == DXGI && match flags {
        Some(flags) => flags & DXGI_PRESENT_TEST != 0,
        None => false,
    }
}

/// A state with one more event counted.
pub open spec fn with_event(state: StateView, record: Record) -> StateView {
    StateView {
        events: crate::table::tallied(state.events, record.key()),
        first_ts: if state.first_ts is None {
            Some(record.timestamp)
        } else {
            state.first_ts
        },
        last_ts: Some(record.timestamp),
        ..state
    }
}

/// A state after a call to present of the target.
pub open spec fn with_present(state: StateView, watch: Watch, record: Record) -> StateView {
    match payload_of(record.data@) {
        None => StateView {
            presents_without_chain: (state.presents_without_chain + 1) as u64,
            ..state
        },
        Some(payload) => {
            let flagged = StateView {
                present_flags: match payload.flags {
                    Some(flags) => crate::table::tallied(state.present_flags, flags),
                    None => state.present_flags,
                },
                ..state
            };
            if is_test(record.provider, payload.flags) && !watch.keep_test_presents {
                StateView {
                    filtered_test_presents: (state.filtered_test_presents + 1) as u64,
                    ..flagged
                }
            } else {
                let chain = if state.chains.contains_key(payload.chain) {
                    state.chains[payload.chain]
                } else {
                    unseen_chain()
                };
                StateView {
                    chains: state.chains.insert(
                        payload.chain,
                        presented(chain, record.provider, record.timestamp, watch.qpc_freq),
                    ),
                    ..flagged
                }
            }
        },
    }
}

/// A state after an event.
pub open spec fn after_event(state: StateView, watch: Watch, record: Record) -> StateView {
    let counted = with_event(state, record);
    if is_present(watch, record) {
        with_present(counted, watch, record)
    } else {
        counted
    }
}

/// Every gap between frames is a length of time, and there are fewer gaps than calls.
pub open spec fn sound_chain(chain: ChainView, calls: u64) -> bool {
    &&& chain.frames.len() < chain.presents <= calls
    &&& forall|i: int| 0 <= i < chain.frames.len() ==> #[trigger] chain.frames[i] > 0
    &&& chain.first_ts is Some
    &&& chain.last_ts is Some
    &&& chain.last_seen_ts == chain.last_ts
    &&& chain.provider is Some
}

/// How often the chains were presented in all.
pub open spec fn presents_in(entries: Seq<(u64, Chain)>) -> nat {
    sum_by(entries, |c: Chain| c.presents as nat)
}

/// How many gaps between frames there are in all.
pub open spec fn frames_in(entries: Seq<(u64, Chain)>) -> nat {
    sum_by(entries, |c: Chain| c.frames@.len())
}

impl State {
    /// Nothing of the target is counted more often than so many calls allow.
    pub open spec fn within(self, calls: u64) -> bool {
        &&& total(self.present_flags.entries@) <= calls
        &&& presents_in(self.chains.entries@) + self.presents_without_chain
            + self.filtered_test_presents <= calls
        &&& forall|chain: u64| #[trigger]
            self@.chains.contains_key(chain) ==> sound_chain(self@.chains[chain], calls)
    }
}

impl Collector {
    pub open spec fn watch(self) -> Watch {
        Watch {
            target_pid: self.target_pid,
            qpc_freq: self.qpc_freq,
            dxgi_present_id: self.dxgi_present_id,
            d3d9_present_id: self.d3d9_present_id,
            keep_test_presents: self.keep_test_presents,
        }
    }

    /// The tables are in order and every counter can take one more.
    pub open spec fn has_room(self) -> bool {
        &&& self.state.events.ordered()
        &&& self.state.chains.ordered()
        &&& self.state.present_flags.ordered()
        &&& total(self.state.events.entries@) < u64::MAX
        &&& total(self.state.present_flags.entries@) < u64::MAX
        &&& self.total_events < u64::MAX
        &&& self.target_events < u64::MAX
        &&& self.state.presents_without_chain < u64::MAX
        &&& self.state.filtered_test_presents < u64::MAX
        &&& forall|chain: u64| #[trigger]
            self.state@.chains.contains_key(chain) ==> self.state@.chains[chain].presents
                < u64::MAX
    }

    /// The counts agree: each event is counted once, and nothing of the target is counted more
    /// often than the target had events.
    pub open spec fn sound(self) -> bool {
        &&& self.state.events.ordered()
        &&& self.state.chains.ordered()
        &&& self.state.present_flags.ordered()
        &&& total(self.state.events.entries@) == self.total_events
        &&& self.target_events <= self.total_events
        &&& self.state.within(self.target_events)
    }

    pub fn new(
        target_pid: Option<u32>,
        qpc_freq: i64,
        dxgi_id: u16,
        d3d9_id: u16,
        keep_test_presents: bool,
    ) -> (r: Collector)
        ensures
            r.sound(),
            r.state@ == nothing_seen(),
            r.watch() == (Watch {
                target_pid,
                qpc_freq,
                dxgi_present_id: dxgi_id,
                d3d9_present_id: d3d9_id,
                keep_test_presents,
            }),
            r.total_events == 0,
            r.target_events == 0,
            r.events_lost == 0,
            r.buffers_read == 0,
            !r.first_buffer_seen,
            !r.first_event_seen,
    {
        Collector {
            state: State::default(),
            target_pid,
            qpc_freq,
            dxgi_present_id: dxgi_id,
            d3d9_present_id: d3d9_id,
            keep_test_presents,
            total_events: 0,
            target_events: 0,
            events_lost: 0,
            buffers_read: 0,
            first_buffer_seen: false,
            first_event_seen: false,
        }
    }

    pub fn present_start_id(&self, provider: ProviderKey) -> (r: Option<u16>)
        ensures
            r == start_id(self.watch(), provider),
    {
        if provider.0 == DXGI {
            Some(self.dxgi_present_id)
        } else if provider.0 == D3D9 {
            Some(self.d3d9_present_id)
        } else {
            None
        }
    }
}

/// What is said when the first event arrives.
pub open spec fn first_event_text() -> Seq<char> {
    "[consumer] первое событие доставлено"@
}

/// What is said when the first buffer arrives.
pub open spec fn first_buffer_text(size: u32, filled: u32) -> Seq<char> {
    "[consumer] первый буфер доставлен: размер "@ + crate::text::decimal((size / 1024) as nat)
        + " КБ, заполнено "@ + crate::text::decimal(filled as nat) + " байт"@
}

/// A part of the chains has no more frames than all of them.
proof fn lemma_frames_grow(entries: Seq<(u64, Chain)>, n: int)
    requires
        0 <= n <= entries.len(),
    ensures
        frames_in(entries.take(n)) <= frames_in(entries),
    decreases entries.len() - n,
{
    if n < entries.len() {
        lemma_frames_grow(entries, n + 1);
        assert(entries.take(n + 1).drop_last() =~= entries.take(n));
    } else {
        assert(entries.take(n) =~= entries);
    }
}

proof fn lemma_frames_below_presents(entries: Seq<(u64, Chain)>)
    requires
        forall|i: int|
            0 <= i < entries.len() ==> (#[trigger] entries[i]).1.frames@.len()
                <= entries[i].1.presents,
    ensures
        frames_in(entries) <= presents_in(entries),
    decreases entries.len(),
{
    if entries.len() > 0 {
        let rest = entries.drop_last();
        assert forall|i: int| 0 <= i < rest.len() implies (#[trigger] rest[i]).1.frames@.len()
            <= rest[i].1.presents by {
            assert(rest[i] == entries[i]);
        }
        lemma_frames_below_presents(rest);
    }
}

/// Where the counts agree, each counter has room until there are as many events as can be counted.
pub proof fn law_room_for_more(collector: Collector)
    requires
        collector.sound(),
        collector.total_events < u64::MAX,
    ensures
        collector.has_room(),
{
}

/// What was counted fits its counters: no more frames were timed than the target had events, and
/// every gap between frames is a length of time.
pub proof fn law_counts_agree(collector: Collector)
    requires
        collector.sound(),
    ensures
        total(collector.state.events.entries@) == collector.total_events,
        frames_in(collector.state.chains.entries@) <= collector.target_events
            <= collector.total_events,
        forall|i: int, j: int|
            0 <= i < collector.state.chains.entries@.len() && 0 <= j
                < collector.state.chains.entries@[i].1.frames@.len()
                ==> #[trigger] collector.state.chains.entries@[i].1.frames@[j] > 0,
{
    let entries = collector.state.chains.entries@;
    assert forall|i: int| 0 <= i < entries.len() implies sound_chain(
        (#[trigger] entries[i]).1@,
        collector.target_events,
    ) by {
        lemma_entry(entries, i);
        assert(collector.state@.chains.contains_key(entries[i].0));
    }
    lemma_frames_below_presents(entries);
    assert forall|i: int, j: int|
        0 <= i < entries.len() && 0 <= j < entries[i].1.frames@.len() implies #[trigger] entries[
        i].1.frames@[j] > 0 by {
        assert(sound_chain(entries[i].1@, collector.target_events));
        assert(entries[i].1@.frames[j] > 0);
    }
}

impl Collector {
    /// Takes an event. The first of all gives a line to show.
    pub fn on_event(&mut self, record: &Record) -> (r: Option<String>)
        requires
            old(self).has_room(),
        ensures
            old(self).sound() ==> final(self).sound(),
            final(self).state@ == after_event(old(self).state@, old(self).watch(), *record),
            final(self).watch() == old(self).watch(),
            final(self).total_events == old(self).total_events + 1,
            final(self).target_events == old(self).target_events + (if concerns(
                old(self).watch(),
                record.pid,
            ) {
                1int
            } else {
                0
            }),
            final(self).events_lost == old(self).events_lost,
            final(self).buffers_read == old(self).buffers_read,
            final(self).first_buffer_seen == old(self).first_buffer_seen,
            final(self).first_event_seen,
            crate::paths::text_of(r) == (if old(self).first_event_seen {
                None
            } else {
                Some(first_event_text())
            }),
    {
        let message = if self.first_event_seen {
            None
        } else {
            Some("[consumer] первое событие доставлено".to_string())
        };
        self.first_event_seen = true;
        self.total_events = self.total_events + 1;

        let provider = record.provider;
        let key = EventKey {
            pid: record.pid,
            provider,
            id: record.id,
            version: record.version,
            opcode: record.opcode,
        };
        let is_target = match self.target_pid {
            None => true,
            Some(pid) => record.pid == pid,
        };
        if is_target {
            self.target_events = self.target_events + 1;
        }
        self.state.events.tally(key);
        if self.state.first_ts.is_none() {
            self.state.first_ts = Some(record.timestamp);
        }
        self.state.last_ts = Some(record.timestamp);
        proof {
            assert(key == record.key());
            assert(self.state@ =~= with_event(old(self).state@, *record));
            assert(self.state@.chains == old(self).state@.chains);
        }

        // Without a target events come from many processes, and the gaps between them mean
        // nothing.
        let target = match self.target_pid {
            Some(pid) => pid,
            None => {
                return message;
            },
        };
        if record.pid != target {
            return message;
        }
        let announced = match self.present_start_id(provider) {
            Some(id) => id == record.id,
            None => false,
        };
        if !announced {
            return message;
        }
        self.on_present(record);
        message
    }

    /// Takes a call to present of the target that was counted as an event.
    fn on_present(&mut self, record: &Record)
        requires
            old(self).state.chains.ordered(),
            old(self).state.present_flags.ordered(),
            total(old(self).state.present_flags.entries@) < u64::MAX,
            old(self).state.presents_without_chain < u64::MAX,
            old(self).state.filtered_test_presents < u64::MAX,
            forall|chain: u64| #[trigger]
                old(self).state@.chains.contains_key(chain) ==> old(
                    self,
                ).state@.chains[chain].presents < u64::MAX,
        ensures
            final(self).state@ == with_present(old(self).state@, old(self).watch(), *record),
            final(self).state.events == old(self).state.events,
            final(self).state.chains.ordered(),
            final(self).state.present_flags.ordered(),
            old(self).target_events > 0 && old(self).state.within(
                (old(self).target_events - 1) as u64,
            ) ==> final(self).state.within(old(self).target_events),
            final(self).watch() == old(self).watch(),
            final(self).total_events == old(self).total_events,
            final(self).target_events == old(self).target_events,
            final(self).events_lost == old(self).events_lost,
            final(self).buffers_read == old(self).buffers_read,
            final(self).first_buffer_seen == old(self).first_buffer_seen,
            final(self).first_event_seen == old(self).first_event_seen,
    {
        let payload = match present_payload(record) {
            Some(payload) => payload,
            None => {
                self.state.presents_without_chain = self.state.presents_without_chain + 1;
                return ;
            },
        };
        if let Some(flags) = payload.flags {
            self.state.present_flags.tally(flags);
        }
        let test = match payload.flags {
            Some(flags) => flags & DXGI_PRESENT_TEST != 0,
            None => false,
        };
        if record.provider.0 == DXGI && test && !self.keep_test_presents {
            self.state.filtered_test_presents = self.state.filtered_test_presents + 1;
            return ;
        }
        let freq: i64 = self.qpc_freq;
        let ghost before = self.state.chains.values();
        let ghost entries = self.state.chains.entries@;
        let fresh = Chain::default();
        let ghost unseen = fresh;
        proof {
            if before.contains_key(payload.chain) {
                assert(self.state@.chains.contains_key(payload.chain));
            }
        }
        let chain = self.state.chains.entry(payload.chain, fresh);
        chain.present(record.provider, record.timestamp, freq);
        proof {
            let now = self.state.chains.values();
            let was = if before.contains_key(payload.chain) {
                before[payload.chain]
            } else {
                unseen
            };
            let made = presented(was@, record.provider, record.timestamp, freq);
            assert(chain_views(now) =~= chain_views(before).insert(payload.chain, made));
            lemma_sum_changed(
                entries,
                self.state.chains.entries@,
                |c: Chain| c.presents as nat,
                payload.chain,
                now[payload.chain],
            );
        }
    }

    /// Takes the figures of a buffer that was delivered: how much was lost so far and how many
    /// buffers were read. The first one gives a line to show. The number says whether to go on.
    pub fn on_buffer(
        &mut self,
        size: u32,
        filled: u32,
        lost: u32,
        read: u32,
        stopping: bool,
    ) -> (r: (Option<String>, u32))
        ensures
            old(self).sound() ==> final(self).sound(),
            final(self).state == old(self).state,
            final(self).watch() == old(self).watch(),
            final(self).total_events == old(self).total_events,
            final(self).target_events == old(self).target_events,
            final(self).events_lost == (if lost > old(self).events_lost {
                lost
            } else {
                old(self).events_lost
            }),
            final(self).buffers_read == (if read > old(self).buffers_read {
                read
            } else {
                old(self).buffers_read
            }),
            final(self).first_buffer_seen,
            final(self).first_event_seen == old(self).first_event_seen,
            crate::paths::text_of(r.0) == (if old(self).first_buffer_seen {
                None
            } else {
                Some(first_buffer_text(size, filled))
            }),
            r.1 == (if stopping {
                0u32
            } else {
                1
            }),
    {
        let message = if self.first_buffer_seen {
            None
        } else {
            let mut text = "[consumer] первый буфер доставлен: размер ".to_string();
            text.append(to_decimal((size / 1024) as u64).as_str());
            text.append(" КБ, заполнено ");
            text.append(to_decimal(filled as u64).as_str());
            text.append(" байт");
            Some(text)
        };
        self.first_buffer_seen = true;
        if lost > self.events_lost {
            self.events_lost = lost;
        }
        if read > self.buffers_read {
            self.buffers_read = read;
        }
        (
            message,
            if stopping {
                0
            } else {
                1
            },
        )
    }

    /// How many frames were timed, for the line that shows the progress.
    pub fn frames_so_far(&self) -> (r: u64)
        requires
            frames_in(self.state.chains.entries@) <= u64::MAX,
        ensures
            r == frames_in(self.state.chains.entries@),
    {
        let mut count: u64 = 0;
        let mut i: usize = 0;
        let ghost entries = self.state.chains.entries@;
        while i < self.state.chains.entries.len()
            invariant
                i <= entries.len(),
                entries == self.state.chains.entries@,
                frames_in(entries) <= u64::MAX,
                count == frames_in(entries.take(i as int)),
            decreases entries.len() - i,
        {
            proof {
                assert(entries.take(i + 1).drop_last() =~= entries.take(i as int));
                lemma_frames_grow(entries, i + 1);
            }
            count = count + self.state.chains.entries[i].1.frames.len() as u64;
            i += 1;
        }
        proof {
            assert(entries.take(i as int) =~= entries);
        }
        count
    }

    pub fn total_events(&self) -> (r: u64)
        ensures
            r == self.total_events,
    {
        self.total_events
    }

    pub fn target_events(&self) -> (r: u64)
        ensures
            r == self.target_events,
    {
        self.target_events
    }

    pub fn events_lost(&self) -> (r: u32)
        ensures
            r == self.events_lost,
    {
        self.events_lost
    }

    pub fn buffers_read(&self) -> (r: u32)
        ensures
            r == self.buffers_read,
    {
        self.buffers_read
    }
}

/// The state after some events.
pub open spec fn after_events(watch: Watch, records: Seq<Record>) -> StateView
    decreases records.len(),
{
    if records.len() == 0 {
        nothing_seen()
    } else {
        after_event(after_events(watch, records.drop_last()), watch, records.last())
    }
}

/// How many of some events have a key.
pub open spec fn occurrences(records: Seq<Record>, key: EventKey) -> nat
    decreases records.len(),
{
    if records.len() == 0 {
        0
    } else {
        occurrences(records.drop_last(), key) + (if records.last().key() == key {
            1nat
        } else {
            0
        })
    }
}

/// The table of events holds, for each kind of event that came, how often it came.
pub proof fn law_events_are_counted(watch: Watch, records: Seq<Record>, key: EventKey)
    requires
        records.len() <= u64::MAX,
    ensures
        after_events(watch, records).events.contains_key(key) <==> occurrences(records, key) > 0,
        occurrences(records, key) > 0 ==> after_events(watch, records).events[key] == occurrences(
            records,
            key,
        ),
        occurrences(records, key) <= records.len(),
    decreases records.len(),
{
    if records.len() > 0 {
        law_events_are_counted(watch, records.drop_last(), key);
    }
}

/// An event of another process, or one that announces no frame, changes no chain.
pub proof fn law_only_presents_make_frames(state: StateView, watch: Watch, record: Record)
    requires
        !is_present(watch, record),
    ensures
        after_event(state, watch, record).chains == state.chains,
        after_event(state, watch, record).present_flags == state.present_flags,
{
}

/// A test call changes no chain unless test calls are kept.
pub proof fn law_test_calls_make_no_frames(state: StateView, watch: Watch, record: Record)
    requires
        !watch.keep_test_presents,
        payload_of(record.data@) is Some,
        is_test(record.provider, payload_of(record.data@)->0.flags),
    ensures
        after_event(state, watch, record).chains == state.chains,
{
}

/// An event changes at most the chain that it names.
pub proof fn law_chains_keep_apart(state: StateView, watch: Watch, record: Record, chain: u64)
    requires
        payload_of(record.data@) is Some ==> payload_of(record.data@)->0.chain != chain,
    ensures
        after_event(state, watch, record).chains.contains_key(chain) == state.chains.contains_key(
            chain,
        ),
        state.chains.contains_key(chain) ==> after_event(state, watch, record).chains[chain]
            == state.chains[chain],
{
}

/// The moments of a chain one after another.
pub open spec fn chain_after(moments: Seq<i64>, provider: ProviderKey, freq: i64) -> ChainView
    decreases moments.len(),
{
    if moments.len() == 0 {
        unseen_chain()
    } else {
        presented(
            chain_after(moments.drop_last(), provider, freq),
            provider,
            moments.last(),
            freq,
        )
    }
}

/// The gaps of a chain together.
pub open spec fn time_in(frames: Seq<i64>) -> int
    decreases frames.len(),
{
    if frames.len() == 0 {
        0
    } else {
        time_in(frames.drop_last()) + frames.last()
    }
}

/// Where time only goes forward, the gaps of a chain are as many as its calls but one, and
/// together they make up the time from the first call to the last.
pub proof fn law_gaps_add_up(moments: Seq<i64>, provider: ProviderKey, freq: i64)
    requires
        moments.len() > 0,
        moments.len() <= u64::MAX,
        freq > 0,
        forall|i: int, j: int| 0 <= i < j < moments.len() ==> moments[i] < moments[j],
        moments.last() - moments[0] <= i64::MAX,
    ensures
        chain_after(moments, provider, freq).presents == moments.len(),
        chain_after(moments, provider, freq).frames.len() == moments.len() - 1,
        time_in(chain_after(moments, provider, freq).frames) == moments.last() - moments[0],
        chain_after(moments, provider, freq).first_ts == Some(moments[0]),
        chain_after(moments, provider, freq).last_ts == Some(moments.last()),
    decreases moments.len(),
{
    let earlier = moments.drop_last();
    reveal_with_fuel(chain_after, 2);
    if earlier.len() > 0 {
        assert(earlier[0] == moments[0]);
        assert(earlier.last() == moments[moments.len() - 2]);
        assert(moments[moments.len() - 2] < moments[moments.len() - 1]);
        law_gaps_add_up(earlier, provider, freq);
        let frames = chain_after(earlier, provider, freq).frames;
        let gap = elapsed(earlier.last(), moments.last()) as i64;
        assert(frames.push(gap).drop_last() =~= frames);
        assert(chain_after(moments, provider, freq).frames == frames.push(gap));
    } else {
        assert(earlier =~= seq![]);
    }
}

// --- what the events of a game come to ---

/// The first eight bytes of some data are an address, the lowest byte first.
pub open spec fn names_chain(data: Seq<u8>, chain: u64) -> bool {
    &&& data.len() >= 8
    &&& chain == data[0] + 0x100 * data[1] + 0x1_0000 * data[2] + 0x100_0000 * data[3]
        + 0x1_0000_0000 * data[4] + 0x100_0000_0000 * data[5] + 0x1_0000_0000_0000 * data[6]
        + 0x100_0000_0000_0000 * data[7]
}

/// The flags behind the address mark a test: their lowest bit is set.
pub open spec fn marked_test(data: Seq<u8>) -> bool {
    data.len() >= 12 && data[8] % 2 == 1
}

/// An event announces a call to present of the target, by one of the two providers.
pub open spec fn announces(watch: Watch, record: Record) -> bool {
    &&& watch.target_pid == Some(record.pid)
    &&& (record.provider.0 == DXGI && record.id == watch.dxgi_present_id) || (record.provider.0
        == D3D9 && record.id == watch.d3d9_present_id)
}

/// An event announces a frame of a swap chain: a call to present that is no test of DXGI.
pub open spec fn draws(watch: Watch, record: Record, chain: u64) -> bool {
    &&& announces(watch, record)
    &&& names_chain(record.data@, chain)
    &&& record.provider.0 == D3D9 || watch.keep_test_presents || !marked_test(record.data@)
}

/// When the frames of a swap chain were announced.
pub open spec fn moments_of(watch: Watch, records: Seq<Record>, chain: u64) -> Seq<i64>
    decreases records.len(),
{
    if records.len() == 0 {
        seq![]
    } else {
        let earlier = moments_of(watch, records.drop_last(), chain);
        if draws(watch, records.last(), chain) {
            earlier.push(records.last().timestamp)
        } else {
            earlier
        }
    }
}

/// Each moment is later than the one before.
pub open spec fn goes_forward(moments: Seq<i64>) -> bool {
    forall|i: int, j: int| 0 <= i < j < moments.len() ==> moments[i] < moments[j]
}

proof fn lemma_payload(data: Seq<u8>, chain: u64)
    ensures
        data.len() >= 8 <==> payload_of(data) is Some,
        data.len() >= 8 ==> (names_chain(data, chain) <==> payload_of(data)->0.chain == chain),
        data.len() >= 8 ==> (payload_of(data)->0.flags is Some <==> data.len() >= 12),
        data.len() >= 12 ==> (payload_of(data)->0.flags->0 & DXGI_PRESENT_TEST != 0
            <==> marked_test(data)),
{
    if data.len() >= 12 {
        let flags = four_bytes(data, 8) as u32;
        assert(flags & 1 == flags % 2) by (bit_vector);
        assert(four_bytes(data, 8) <= u32::MAX);
        assert(flags % 2 == data[8] % 2);
    }
}

/// What one event does to a chain.
proof fn lemma_event_on_chain(state: StateView, watch: Watch, record: Record, chain: u64)
    ensures
        draws(watch, record, chain) ==> after_event(state, watch, record).chains == state.chains.insert(
            chain,
            presented(
                if state.chains.contains_key(chain) {
                    state.chains[chain]
                } else {
                    unseen_chain()
                },
                record.provider,
                record.timestamp,
                watch.qpc_freq,
            ),
        ),
        !draws(watch, record, chain) ==> after_event(state, watch, record).chains.contains_key(
            chain,
        ) == state.chains.contains_key(chain) && (state.chains.contains_key(chain)
            ==> after_event(state, watch, record).chains[chain] == state.chains[chain]),
{
    lemma_payload(record.data@, chain);
}

/// Each call to present of the target, by DXGI or by Direct3D 9, counts once for the swap chain
/// that it names, whatever comes between. Where time goes forward, the frames of a chain are the
/// times from each of its calls to the next.
pub proof fn law_presents_make_frames(watch: Watch, records: Seq<Record>, chain: u64)
    requires
        records.len() <= u64::MAX,
    ensures
        ({
            let moments = moments_of(watch, records, chain);
            let chains = after_events(watch, records).chains;
            let made = chains[chain];
            &&& chains.contains_key(chain) <==> moments.len() > 0
            &&& moments.len() > 0 ==> {
                &&& made.presents == moments.len()
                &&& made.first_ts == Some(moments[0])
                &&& made.last_ts == Some(moments.last())
                &&& made.last_seen_ts == Some(moments.last())
            }
            &&& moments.len() > 0 && watch.qpc_freq > 0 && goes_forward(moments) && moments.last()
                - moments[0] <= i64::MAX ==> {
                &&& made.frames.len() == moments.len() - 1
                &&& forall|i: int|
                    0 <= i < made.frames.len() ==> #[trigger] made.frames[i] == moments[i + 1]
                        - moments[i]
            }
        }),
        moments_of(watch, records, chain).len() <= records.len(),
    decreases records.len(),
{
    if records.len() > 0 {
        let earlier = records.drop_last();
        let record = records.last();
        law_presents_make_frames(watch, earlier, chain);
        lemma_event_on_chain(after_events(watch, earlier), watch, record, chain);
        let before = moments_of(watch, earlier, chain);
        let moments = moments_of(watch, records, chain);
        if draws(watch, record, chain) {
            assert(moments.drop_last() =~= before);
            if before.len() > 0 && goes_forward(moments) && moments.last() - moments[0]
                <= i64::MAX {
                assert forall|i: int, j: int| 0 <= i < j < before.len() implies before[i]
                    < before[j] by {
                    assert(before[i] == moments[i] && before[j] == moments[j]);
                }
                assert(before[0] == moments[0] && before.last() == moments[before.len() - 1]);
                assert(moments[before.len() - 1] < moments[before.len() as int]);
                assert(before.last() >= before[0]) by {
                    if before.len() > 1 {
                        assert(before[0] < before[before.len() - 1]);
                    }
                }
            }
        }
    }
}

/// The chain of a game knows the provider of its last frame.
pub proof fn law_chains_know_their_provider(
    watch: Watch,
    records: Seq<Record>,
    record: Record,
    chain: u64,
)
    requires
        draws(watch, record, chain),
    ensures
        after_events(watch, records.push(record)).chains[chain].provider == Some(record.provider),
{
    assert(records.push(record).drop_last() =~= records);
    lemma_event_on_chain(after_events(watch, records), watch, record, chain);
}

/// How many of some events a test holds of.
pub open spec fn how_many(records: Seq<Record>, holds: spec_fn(Record) -> bool) -> nat
    decreases records.len(),
{
    if records.len() == 0 {
        0
    } else {
        how_many(records.drop_last(), holds) + (if holds(records.last()) {
            1nat
        } else {
            0
        })
    }
}

/// No call to present of the target is lost: one without the address of its swap chain and a test
/// that is not kept are counted by themselves.
pub proof fn law_left_out_presents_are_counted(watch: Watch, records: Seq<Record>)
    requires
        records.len() <= u64::MAX,
    ensures
        after_events(watch, records).presents_without_chain == how_many(
            records,
            |r: Record| announces(watch, r) && r.data@.len() < 8,
        ),
        after_events(watch, records).filtered_test_presents == how_many(
            records,
            |r: Record|
                announces(watch, r) && r.provider.0 == DXGI && marked_test(r.data@)
                    && !watch.keep_test_presents,
        ),
        after_events(watch, records).presents_without_chain <= records.len(),
        after_events(watch, records).filtered_test_presents <= records.len(),
    decreases records.len(),
{
    if records.len() > 0 {
        law_left_out_presents_are_counted(watch, records.drop_last());
        lemma_payload(records.last().data@, 0);
    }
}

/// The events of other processes change nothing of what is known of the target, and what the
/// target does is the same with them and without.
pub proof fn law_other_processes_do_not_matter(watch: Watch, records: Seq<Record>, other: Record)
    requires
        watch.target_pid is Some,
        watch.target_pid != Some(other.pid),
    ensures
        ({
            let alone = after_events(watch, records);
            let with = after_events(watch, records.push(other));
            &&& with.chains == alone.chains
            &&& with.present_flags == alone.present_flags
            &&& with.presents_without_chain == alone.presents_without_chain
            &&& with.filtered_test_presents == alone.filtered_test_presents
        }),
{
    assert(records.push(other).drop_last() =~= records);
}

/// Every event is counted, those of the target besides, and of the losses that the system tells of
/// the highest stays.
pub proof fn law_each_event_is_counted(
    collector: &mut Collector,
    record: Record,
    r: Option<String>,
)
    requires
        call_ensures(Collector::on_event, (collector, &record), r),
        old(collector).has_room(),
    ensures
        final(collector).total_events == old(collector).total_events + 1,
        old(collector).watch().target_pid is None || old(collector).watch().target_pid == Some(
            record.pid,
        ) ==> final(collector).target_events == old(collector).target_events + 1,
        old(collector).watch().target_pid matches Some(pid) ==> pid != record.pid
            ==> final(collector).target_events == old(collector).target_events,
        final(collector).watch() == old(collector).watch(),
        final(collector).first_event_seen,
        old(collector).first_event_seen <==> crate::paths::text_of(r) is None,
{
}

/// Reading goes on until it is told to stop, and neither the losses nor the buffers read ever fall.
pub proof fn law_reading_goes_on(
    collector: &mut Collector,
    size: u32,
    filled: u32,
    lost: u32,
    read: u32,
    stopping: bool,
    r: (Option<String>, u32),
)
    requires
        call_ensures(Collector::on_buffer, (collector, size, filled, lost, read, stopping), r),
    ensures
        r.1 == 0 <==> stopping,
        final(collector).events_lost >= old(collector).events_lost,
        final(collector).events_lost >= lost,
        final(collector).events_lost == lost || final(collector).events_lost == old(
            collector,
        ).events_lost,
        final(collector).buffers_read >= old(collector).buffers_read,
        final(collector).buffers_read >= read,
        final(collector).buffers_read == read || final(collector).buffers_read == old(
            collector,
        ).buffers_read,
        final(collector).state == old(collector).state,
        final(collector).total_events == old(collector).total_events,
{
}

/// The number of a provider holds the parts of its GUID in their order, the first highest, and of
/// the last part one byte after another.
pub proof fn law_parts_of_a_provider_stand_in_order(g: Guid)
    ensures
        ({
            let first = (g.data1 * 0x1_0000 + g.data2) * 0x1_0000 + g.data3;
            let b = g.data4;
            let last = ((((((b[0] * 0x100 + b[1]) * 0x100 + b[2]) * 0x100 + b[3]) * 0x100 + b[4])
                * 0x100 + b[5]) * 0x100 + b[6]) * 0x100 + b[7];
            guid_number(g) == first * 0x1_0000_0000_0000_0000 + last
        }),
{
}

/// The flags of each call are counted under their own value, and no other count changes.
pub proof fn law_flags_are_counted(state: StateView, watch: Watch, record: Record, other: u32)
    requires
        announces(watch, record),
        record.data@.len() >= 12,
        state.present_flags.contains_key(other) ==> state.present_flags[other] < u64::MAX,
    ensures
        ({
            let data = record.data@;
            let flags = (data[8] + 0x100 * (data[9] + 0x100 * (data[10] + 0x100 * data[11]))) as u32;
            let before = if state.present_flags.contains_key(other) {
                state.present_flags[other] as int
            } else {
                0
            };
            let after = after_event(state, watch, record).present_flags;
            &&& other == flags ==> after.contains_key(other) && after[other] == before + 1
            &&& other != flags ==> after.contains_key(other) == state.present_flags.contains_key(
                other,
            ) && (after.contains_key(other) ==> after[other] == before)
        }),
{
}

} // verus!
