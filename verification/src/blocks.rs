//! The settings of the overlay's blocks: graphics card, processor, memory, frame rate.
//!
//! All blocks have one structure. Fields that a block has no use for (thresholds of the memory,
//! the device name of the frame rate) it does not read: so the file stays uniform.
//!
//! A colour is an override: `None` is the colour of the theme. The default is then the absence of
//! a value, not a copy of a palette that may change.

use vstd::prelude::*;

use crate::number::limited;
use crate::number::whole_single;
use crate::number::Double;
use crate::number::Single;
use crate::text::at_most;
use crate::text::chars_of;
use crate::text::string_of;
use crate::text::take_chars;
use crate::text::trim;
use crate::text::trimmed;

verus! {

/// The longest title of one's own, in characters.
pub const MAX_TITLE_CHARS: usize = 32;

/// The limits of the temperature thresholds, in degrees Celsius.
pub const MIN_TEMPERATURE: u32 = 40;

pub const MAX_TEMPERATURE: u32 = 110;

/// The load from which a heading turns yellow, where loads are coloured: the bits of 80 percent.
pub const LOAD_WARN_PERCENT: u64 = 0x4054_0000_0000_0000;

/// The load from which a heading turns red: the bits of 95 percent.
pub const LOAD_CRITICAL_PERCENT: u64 = 0x4057_c000_0000_0000;

/// A colour by its red, green and blue channels; in a file `"#RRGGBB"`.
#[derive(Debug, Clone, Copy, PartialEq, Eq)]
pub struct Rgb(pub [u8; 3]);

/// The value of a hexadecimal digit.
pub open spec fn hex_digit(c: char) -> Option<nat> {
    if '0' <= c <= '9' {
        Some((c as int - '0' as int) as nat)
    } else if 'a' <= c <= 'f' {
        Some((c as int - 'a' as int + 10) as nat)
    } else if 'A' <= c <= 'F' {
        Some((c as int - 'A' as int + 10) as nat)
    } else {
        None
    }
}

/// A byte in two hexadecimal digits.
pub open spec fn hex_byte(high: char, low: char) -> Option<nat> {
    match (hex_digit(high), hex_digit(low)) {
        (Some(h), Some(l)) => Some(16 * h + l),
        _ => None,
    }
}

/// A text without the `#` that may stand at its start.
pub open spec fn after_hash(s: Seq<char>) -> Seq<char> {
    if s.len() > 0 && s[0] == '#' {
        s.skip(1)
    } else {
        s
    }
}

/// The colour that a text names.
pub open spec fn color_of(text: Seq<char>) -> Option<Rgb> {
    let hex = after_hash(trimmed(text));
    if hex.len() == 6 {
        match (
            hex_byte(hex[0], hex[1]),
            hex_byte(hex[2], hex[3]),
            hex_byte(hex[4], hex[5]),
        ) {
            (Some(r), Some(g), Some(b)) => Some(Rgb([r as u8, g as u8, b as u8])),
            _ => None,
        }
    } else {
        None
    }
}

/// A hexadecimal digit as it is written.
pub open spec fn hex_char(d: int) -> char {
    if d < 10 {
        ('0' as int + d) as char
    } else {
        ('A' as int + d - 10) as char
    }
}

/// A colour as it is written.
pub open spec fn color_text(color: Rgb) -> Seq<char> {
    let r = color.0[0] as int;
    let g = color.0[1] as int;
    let b = color.0[2] as int;
    seq![
        '#',
        hex_char(r / 16),
        hex_char(r % 16),
        hex_char(g / 16),
        hex_char(g % 16),
        hex_char(b / 16),
        hex_char(b % 16),
    ]
}

fn digit_of(c: char) -> (r: Option<u8>)
    ensures
        match r {
            Some(d) => hex_digit(c) == Some(d as nat) && d < 16,
            None => hex_digit(c) is None,
        },
{
    let code: u32 = c as u32;
    if '0' <= c && c <= '9' {
        Some((code - 48) as u8)
    } else if 'a' <= c && c <= 'f' {
        Some((code - 87) as u8)
    } else if 'A' <= c && c <= 'F' {
        Some((code - 55) as u8)
    } else {
        None
    }
}

fn byte_of(high: char, low: char) -> (r: Option<u8>)
    ensures
        match r {
            Some(b) => hex_byte(high, low) == Some(b as nat),
            None => hex_byte(high, low) is None,
        },
{
    match (digit_of(high), digit_of(low)) {
        (Some(h), Some(l)) => Some(16 * h + l),
        _ => None,
    }
}

fn char_of(d: u8) -> (r: char)
    requires
        d < 16,
    ensures
        r == hex_char(d as int),
{
    if d < 10 {
        (48 + d) as char
    } else {
        (55 + d) as char
    }
}

impl Rgb {
    /// `#RRGGBB` or `RRGGBB`, in either case.
    pub fn parse(text: &str) -> (r: Option<Rgb>)
        ensures
            r == color_of(text@),
    {
        let text = trim(text);
        let v = chars_of(text.as_str());
        let from: usize = if v.len() > 0 && v[0] == '#' {
            1
        } else {
            0
        };
        let ghost hex = v@.skip(from as int);
        proof {
            assert(v@.skip(0) =~= v@);
            assert(after_hash(v@) == hex);
        }
        if v.len() - from != 6 {
            return None;
        }
        proof {
            assert(forall|i: int| 0 <= i < 6 ==> #[trigger] hex[i] == v@[from + i]);
        }
        let r = byte_of(v[from], v[from + 1]);
        let g = byte_of(v[from + 2], v[from + 3]);
        let b = byte_of(v[from + 4], v[from + 5]);
        match (r, g, b) {
            (Some(r), Some(g), Some(b)) => {
                let color = Rgb([r, g, b]);
                proof {
                    assert(hex[0] == v@[from + 0]);
                    assert(hex[1] == v@[from + 1]);
                    assert(hex[2] == v@[from + 2]);
                    assert(hex[3] == v@[from + 3]);
                    assert(hex[4] == v@[from + 4]);
                    assert(hex[5] == v@[from + 5]);
                    assert(color.0 =~= (color_of(text@)->0).0);
                }
                Some(color)
            },
            _ => {
                proof {
                    assert(hex[0] == v@[from + 0]);
                    assert(hex[1] == v@[from + 1]);
                    assert(hex[2] == v@[from + 2]);
                    assert(hex[3] == v@[from + 3]);
                    assert(hex[4] == v@[from + 4]);
                    assert(hex[5] == v@[from + 5]);
                }
                None
            },
        }
    }

    pub fn hex(self) -> (r: String)
        ensures
            r@ == color_text(self),
    {
        let r: u8 = self.0[0];
        let g: u8 = self.0[1];
        let b: u8 = self.0[2];
        let mut v: Vec<char> = Vec::new();
        v.push('#');
        v.push(char_of(r / 16));
        v.push(char_of(r % 16));
        v.push(char_of(g / 16));
        v.push(char_of(g % 16));
        v.push(char_of(b / 16));
        v.push(char_of(b % 16));
        proof {
            assert(v@ =~= color_text(self));
        }
        string_of(&v)
    }
}

/// A colour that was written reads back.
pub proof fn law_color_reads_back(color: Rgb)
    ensures
        color_of(color_text(color)) == Some(color),
{
    let t = color_text(color);
    assert forall|d: int| 0 <= d < 16 implies {
        &&& hex_digit(#[trigger] hex_char(d)) == Some(d as nat)
        &&& !crate::text::is_white_space(hex_char(d))
    } by {}
    assert(!crate::text::is_white_space('#'));
    assert(crate::text::trim_start(t) == t);
    assert(t.last() == hex_char(color.0[2] as int % 16));
    assert(crate::text::trim_end(t) == t);
    let hex = t.skip(1);
    assert(hex[0] == t[1]);
    assert(after_hash(t) == hex);
    assert(hex[1] == t[2] && hex[2] == t[3] && hex[3] == t[4] && hex[4] == t[5] && hex[5] == t[6]);
    let back = color_of(t)->0;
    assert(back.0 =~= color.0);
}

#[derive(Debug, Clone, Copy, PartialEq, Eq)]
pub struct BlockColors {
    pub header: Option<Rgb>,
    pub labels: Option<Rgb>,
    pub values: Option<Rgb>,
    /// The large number and the graph of the frame rate.
    pub accent: Option<Rgb>,
}

pub open spec fn default_colors() -> BlockColors {
    BlockColors { header: None, labels: None, values: None, accent: None }
}

impl Default for BlockColors {
    fn default() -> (r: BlockColors)
        ensures
            r == default_colors(),
    {
        BlockColors { header: None, labels: None, values: None, accent: None }
    }
}

impl BlockColors {
    /// No colour is overridden.
    pub fn is_default(&self) -> (r: bool)
        ensures
            r == (*self == default_colors()),
    {
        self.header.is_none() && self.labels.is_none() && self.values.is_none()
            && self.accent.is_none()
    }
}

/// When values change their colour.
#[derive(Debug, Clone, Copy, PartialEq, Eq, Structural)]
pub struct Thresholds {
    /// From this temperature a value turns yellow.
    pub warn_c: Single,
    /// From this one it turns red.
    pub critical_c: Single,
    /// Colour the load in the heading too.
    pub color_load: bool,
}

/// The bits of 80 degrees.
pub const DEFAULT_WARN: u32 = 0x42a0_0000;

/// The bits of 90 degrees.
pub const DEFAULT_CRITICAL: u32 = 0x42b4_0000;

pub open spec fn default_thresholds() -> Thresholds {
    Thresholds {
        warn_c: Single { bits: DEFAULT_WARN },
        critical_c: Single { bits: DEFAULT_CRITICAL },
        color_load: false,
    }
}

impl Default for Thresholds {
    fn default() -> (r: Thresholds)
        ensures
            r == default_thresholds(),
    {
        Thresholds {
            warn_c: Single { bits: DEFAULT_WARN },
            critical_c: Single { bits: DEFAULT_CRITICAL },
            color_load: false,
        }
    }
}

/// A threshold as a whole number of degrees within its limits; the default for no number.
pub open spec fn repaired_degrees(degrees: Single, fallback: u32) -> Single {
    if degrees.finite() {
        whole_single(
            limited(degrees.rounded(), MIN_TEMPERATURE as int, MAX_TEMPERATURE as int) as nat,
        )
    } else {
        Single { bits: fallback }
    }
}

fn repair_degrees(degrees: Single, fallback: u32) -> (r: Single)
    ensures
        r == repaired_degrees(degrees, fallback),
{
    if degrees.is_finite() {
        degrees.rounded_within(MIN_TEMPERATURE, MAX_TEMPERATURE)
    } else {
        Single { bits: fallback }
    }
}

impl Thresholds {
    pub open spec fn repaired(self) -> Thresholds {
        let warn_c = repaired_degrees(self.warn_c, DEFAULT_WARN);
        let critical_c = repaired_degrees(self.critical_c, DEFAULT_CRITICAL);
        Thresholds {
            warn_c,
            critical_c: if critical_c.bits < warn_c.bits {
                warn_c
            } else {
                critical_c
            },
            color_load: self.color_load,
        }
    }

    /// Thresholds within their limits and in order: the critical one is not below the warning.
    pub fn sanitized(self) -> (r: Thresholds)
        ensures
            r == self.repaired(),
    {
        let warn_c = repair_degrees(self.warn_c, DEFAULT_WARN);
        let critical_c = repair_degrees(self.critical_c, DEFAULT_CRITICAL);
        Thresholds {
            warn_c,
            critical_c: if critical_c.bits < warn_c.bits {
                warn_c
            } else {
                critical_c
            },
            color_load: self.color_load,
        }
    }
}

#[derive(Debug, PartialEq)]
pub struct Block {
    pub enabled: bool,
    /// A title of one's own. Empty: the standard one, or the name of the device.
    pub title: String,
    /// The model as the system calls it, in place of `GPU` or `CPU`.
    pub device_name: bool,
    pub colors: BlockColors,
    pub thresholds: Thresholds,
}

/// What a [`Block`] holds.
pub struct BlockView {
    pub enabled: bool,
    pub title: Seq<char>,
    pub device_name: bool,
    pub colors: BlockColors,
    pub thresholds: Thresholds,
}

impl View for Block {
    type V = BlockView;

    open spec fn view(&self) -> BlockView {
        BlockView {
            enabled: self.enabled,
            title: self.title@,
            device_name: self.device_name,
            colors: self.colors,
            thresholds: self.thresholds,
        }
    }
}

pub open spec fn default_block() -> BlockView {
    BlockView {
        enabled: true,
        title: seq![],
        device_name: false,
        colors: default_colors(),
        thresholds: default_thresholds(),
    }
}

impl Default for Block {
    fn default() -> (r: Block)
        ensures
            r@ == default_block(),
    {
        let r = Block {
            enabled: true,
            title: String::new(),
            device_name: false,
            colors: BlockColors::default(),
            thresholds: Thresholds::default(),
        };
        proof {
            assert(r.title@ =~= seq![]);
        }
        r
    }
}

impl Clone for Block {
    fn clone(&self) -> (r: Block)
        ensures
            r@ == self@,
    {
        Block {
            enabled: self.enabled,
            title: self.title.clone(),
            device_name: self.device_name,
            colors: self.colors,
            thresholds: self.thresholds,
        }
    }
}

impl BlockView {
    /// The heading: the title, else the name of the device where it is wanted and known, else
    /// `standard`.
    pub open spec fn heading_for(self, standard: Seq<char>, device: Option<Seq<char>>) -> Seq<char> {
        if self.title.len() > 0 {
            self.title
        } else if self.device_name && device is Some && device->0.len() > 0 {
            device->0
        } else {
            standard
        }
    }

    pub open spec fn repaired(self) -> BlockView {
        BlockView {
            title: at_most(trimmed(self.title), MAX_TITLE_CHARS as nat),
            thresholds: self.thresholds.repaired(),
            ..self
        }
    }
}

/// The text of an optional string.
pub open spec fn opt_text(s: Option<&str>) -> Option<Seq<char>> {
    match s {
        Some(s) => Some(s@),
        None => None,
    }
}

impl Block {
    /// The heading of the block: its title, the name of the device, or `standard`.
    pub fn heading(&self, standard: &str, device: Option<&str>) -> (r: String)
        ensures
            r@ == self@.heading_for(standard@, opt_text(device)),
    {
        if !self.title.as_str().is_empty() {
            return self.title.clone();
        }
        match device {
            Some(name) => if self.device_name && !name.is_empty() {
                name.to_owned()
            } else {
                standard.to_owned()
            },
            None => standard.to_owned(),
        }
    }

    /// A title without white space around it, no longer than allowed; thresholds in order.
    pub fn sanitized(self) -> (r: Block)
        ensures
            r@ == self@.repaired(),
    {
        let title = trim(self.title.as_str());
        Block {
            enabled: self.enabled,
            title: take_chars(title.as_str(), MAX_TITLE_CHARS),
            device_name: self.device_name,
            colors: self.colors,
            thresholds: self.thresholds.sanitized(),
        }
    }
}

/// Which block.
#[derive(Debug, Clone, Copy, PartialEq, Eq, Structural)]
pub enum BlockKind {
    Gpu,
    Cpu,
    Ram,
    Fps,
}

impl BlockKind {
    pub const ALL: [BlockKind; 4] = [
        BlockKind::Gpu,
        BlockKind::Cpu,
        BlockKind::Ram,
        BlockKind::Fps,
    ];

    pub open spec fn name(self) -> Seq<char> {
        match self {
            BlockKind::Gpu => "Видеокарта"@,
            BlockKind::Cpu => "Процессор"@,
            BlockKind::Ram => "ОЗУ"@,
            BlockKind::Fps => "FPS"@,
        }
    }

    pub fn title(self) -> (r: &'static str)
        ensures
            r@ == self.name(),
    {
        match self {
            BlockKind::Gpu => "Видеокарта",
            BlockKind::Cpu => "Процессор",
            BlockKind::Ram => "ОЗУ",
            BlockKind::Fps => "FPS",
        }
    }
}

/// All blocks in their usual order.
pub open spec fn usual_order() -> Seq<BlockKind> {
    seq![BlockKind::Gpu, BlockKind::Cpu, BlockKind::Ram, BlockKind::Fps]
}

fn usual() -> (r: Vec<BlockKind>)
    ensures
        r@ == usual_order(),
{
    let mut r: Vec<BlockKind> = Vec::new();
    r.push(BlockKind::Gpu);
    r.push(BlockKind::Cpu);
    r.push(BlockKind::Ram);
    r.push(BlockKind::Fps);
    proof {
        assert(r@ =~= usual_order());
    }
    r
}

#[derive(Debug, PartialEq)]
pub struct Blocks {
    pub gpu: Block,
    pub cpu: Block,
    pub ram: Block,
    pub fps: Block,
    /// From the top down. After repair every block stands there exactly once.
    pub order: Vec<BlockKind>,
}

/// What [`Blocks`] hold.
#[verifier::ext_equal]
pub struct BlocksView {
    pub gpu: BlockView,
    pub cpu: BlockView,
    pub ram: BlockView,
    pub fps: BlockView,
    pub order: Seq<BlockKind>,
}

impl View for Blocks {
    type V = BlocksView;

    open spec fn view(&self) -> BlocksView {
        BlocksView {
            gpu: self.gpu@,
            cpu: self.cpu@,
            ram: self.ram@,
            fps: self.fps@,
            order: self.order@,
        }
    }
}

pub open spec fn default_blocks() -> BlocksView {
    BlocksView {
        gpu: default_block(),
        cpu: default_block(),
        ram: default_block(),
        fps: default_block(),
        order: usual_order(),
    }
}

impl Default for Blocks {
    fn default() -> (r: Blocks)
        ensures
            r@ == default_blocks(),
    {
        Blocks {
            gpu: Block::default(),
            cpu: Block::default(),
            ram: Block::default(),
            fps: Block::default(),
            order: usual(),
        }
    }
}

impl Clone for Blocks {
    fn clone(&self) -> (r: Blocks)
        ensures
            r@ == self@,
    {
        let mut order: Vec<BlockKind> = Vec::new();
        let mut i: usize = 0;
        while i < self.order.len()
            invariant
                i <= self.order.len(),
                order@ == self.order@.take(i as int),
            decreases self.order.len() - i,
        {
            order.push(self.order[i]);
            i += 1;
        }
        Blocks {
            gpu: self.gpu.clone(),
            cpu: self.cpu.clone(),
            ram: self.ram.clone(),
            fps: self.fps.clone(),
            order,
        }
    }
}

/// The kinds of a list without repetitions, each at its first place.
pub open spec fn distinct(kinds: Seq<BlockKind>) -> Seq<BlockKind>
    decreases kinds.len(),
{
    if kinds.len() == 0 {
        kinds
    } else {
        let rest = distinct(kinds.drop_last());
        if rest.contains(kinds.last()) {
            rest
        } else {
            rest.push(kinds.last())
        }
    }
}

impl BlocksView {
    pub open spec fn of(self, kind: BlockKind) -> BlockView {
        match kind {
            BlockKind::Gpu => self.gpu,
            BlockKind::Cpu => self.cpu,
            BlockKind::Ram => self.ram,
            BlockKind::Fps => self.fps,
        }
    }

    /// Repetitions go, missing blocks come at the end in their usual order.
    pub open spec fn repaired(self) -> BlocksView {
        BlocksView {
            gpu: self.gpu.repaired(),
            cpu: self.cpu.repaired(),
            ram: self.ram.repaired(),
            fps: self.fps.repaired(),
            order: distinct(self.order + usual_order()),
        }
    }

    /// The block at `index` changes places with the one `step` further, where both are there.
    pub open spec fn shifted(self, index: int, step: int) -> BlocksView {
        let target = index + step;
        if 0 <= index < self.order.len() && 0 <= target < self.order.len() {
            BlocksView {
                order: self.order.update(index, self.order[target]).update(
                    target,
                    self.order[index],
                ),
                ..self
            }
        } else {
            self
        }
    }
}

fn holds(kinds: &Vec<BlockKind>, kind: BlockKind) -> (r: bool)
    ensures
        r == kinds@.contains(kind),
{
    let mut i: usize = 0;
    while i < kinds.len()
        invariant
            i <= kinds.len(),
            forall|j: int| 0 <= j < i ==> #[trigger] kinds@[j] != kind,
        decreases kinds.len() - i,
    {
        if kinds[i] == kind {
            assert(kinds@[i as int] == kind);
            return true;
        }
        i += 1;
    }
    false
}

impl Blocks {
    pub fn get(&self, kind: BlockKind) -> (r: &Block)
        ensures
            r@ == self@.of(kind),
    {
        match kind {
            BlockKind::Gpu => &self.gpu,
            BlockKind::Cpu => &self.cpu,
            BlockKind::Ram => &self.ram,
            BlockKind::Fps => &self.fps,
        }
    }

    /// Moves a block by `step` places (-1 up, +1 down), where there is room.
    pub fn shift(&mut self, index: usize, step: isize)
        ensures
            final(self)@ == old(self)@.shifted(index as int, step as int),
    {
        if index >= self.order.len() {
            return ;
        }
        let target: i128 = index as i128 + step as i128;
        if target < 0 || target >= self.order.len() as i128 {
            return ;
        }
        let target: usize = target as usize;
        let moved = self.order[index];
        let other = self.order[target];
        self.order.set(index, other);
        self.order.set(target, moved);
    }

    pub fn sanitized(self) -> (r: Blocks)
        ensures
            r@ == self@.repaired(),
    {
        let mut kinds = self.order;
        let ghost given = kinds@;
        kinds.push(BlockKind::Gpu);
        kinds.push(BlockKind::Cpu);
        kinds.push(BlockKind::Ram);
        kinds.push(BlockKind::Fps);
        proof {
            assert(kinds@ =~= given + usual_order());
        }
        let mut order: Vec<BlockKind> = Vec::new();
        let mut i: usize = 0;
        while i < kinds.len()
            invariant
                i <= kinds.len(),
                order@ == distinct(kinds@.take(i as int)),
            decreases kinds.len() - i,
        {
            proof {
                assert(kinds@.take(i + 1).drop_last() =~= kinds@.take(i as int));
            }
            if !holds(&order, kinds[i]) {
                order.push(kinds[i]);
            }
            i += 1;
        }
        proof {
            assert(kinds@.take(kinds.len() as int) =~= kinds@);
        }
        Blocks {
            gpu: self.gpu.sanitized(),
            cpu: self.cpu.sanitized(),
            ram: self.ram.sanitized(),
            fps: self.fps.sanitized(),
            order,
        }
    }
}

/// The colour of a load or a temperature: none while the value is below the warning.
#[derive(Debug, Clone, Copy, PartialEq, Eq, Structural)]
pub enum Level {
    Warn,
    Critical,
}

pub open spec fn level_of(value: Option<Double>, warn: Double, critical: Double) -> Option<Level> {
    match value {
        Some(v) => if v.not_below(critical) {
            Some(Level::Critical)
        } else if v.not_below(warn) {
            Some(Level::Warn)
        } else {
            None
        },
        None => None,
    }
}

pub fn level(value: Option<Double>, warn: Double, critical: Double) -> (r: Option<Level>)
    ensures
        r == level_of(value, warn, critical),
{
    match value {
        Some(v) => if v.at_least(critical) {
            Some(Level::Critical)
        } else if v.at_least(warn) {
            Some(Level::Warn)
        } else {
            None
        },
        None => None,
    }
}

proof fn lemma_distinct(kinds: Seq<BlockKind>)
    ensures
        distinct(kinds).no_duplicates(),
        forall|k: BlockKind| #[trigger] distinct(kinds).contains(k) <==> kinds.contains(k),
    decreases kinds.len(),
{
    if kinds.len() > 0 {
        let front = kinds.drop_last();
        lemma_distinct(front);
        let rest = distinct(front);
        assert(kinds[kinds.len() - 1] == kinds.last());
        assert forall|k: BlockKind| #[trigger] distinct(kinds).contains(k) <==> kinds.contains(
            k,
        ) by {
            if kinds.contains(k) {
                let i = choose|i: int| 0 <= i < kinds.len() && kinds[i] == k;
                if i < front.len() {
                    assert(front[i] == k);
                    assert(rest.contains(k));
                    let j = choose|j: int| 0 <= j < rest.len() && rest[j] == k;
                    assert(distinct(kinds)[j] == k);
                } else if !rest.contains(k) {
                    assert(distinct(kinds)[rest.len() as int] == k);
                }
            }
            if distinct(kinds).contains(k) {
                let j = choose|j: int| 0 <= j < distinct(kinds).len() && distinct(kinds)[j] == k;
                if j < rest.len() {
                    assert(rest.contains(rest[j]));
                    assert(front.contains(k));
                    let i = choose|i: int| 0 <= i < front.len() && front[i] == k;
                    assert(kinds[i] == k);
                }
            }
        }
    }
}

proof fn lemma_distinct_settles(kinds: Seq<BlockKind>, more: Seq<BlockKind>)
    requires
        kinds.no_duplicates(),
        forall|i: int| 0 <= i < more.len() ==> kinds.contains(#[trigger] more[i]),
    ensures
        distinct(kinds + more) == kinds,
    decreases more.len(), kinds.len(),
{
    if more.len() > 0 {
        assert((kinds + more).drop_last() =~= kinds + more.drop_last());
        assert forall|i: int| 0 <= i < more.drop_last().len() implies kinds.contains(
            #[trigger] more.drop_last()[i],
        ) by {
            assert(more.drop_last()[i] == more[i]);
        }
        lemma_distinct_settles(kinds, more.drop_last());
        assert((kinds + more).last() == more[more.len() - 1]);
    } else if kinds.len() > 0 {
        let front = kinds.drop_last();
        assert(kinds + more =~= kinds);
        assert(front + more =~= front);
        lemma_distinct_settles(front, more);
        if front.contains(kinds.last()) {
            let i = choose|i: int| 0 <= i < front.len() && front[i] == kinds.last();
            assert(kinds[i] == kinds[kinds.len() - 1]);
        }
        assert(front.push(kinds.last()) =~= kinds);
    } else {
        assert(kinds + more =~= kinds);
    }
}

/// An order that holds every block once is kept as it is.
pub proof fn law_whole_order_stays(order: Seq<BlockKind>)
    requires
        order.no_duplicates(),
        forall|kind: BlockKind| order.contains(kind),
    ensures
        distinct(order + usual_order()) == order,
{
    lemma_distinct_settles(order, usual_order());
}

/// What an order says is kept: of two blocks that it holds, the one that it holds first comes
/// first in the repaired order.
pub proof fn law_repaired_order_begins_as_it_was(order: Seq<BlockKind>)
    requires
        order.no_duplicates(),
    ensures
        distinct(order + usual_order()).len() >= order.len(),
        distinct(order + usual_order()).take(order.len() as int) == order,
{
    lemma_distinct_settles(order, seq![]);
    assert(order + seq![] =~= order);
    lemma_distinct_begins(order, usual_order());
}

proof fn lemma_distinct_begins(front: Seq<BlockKind>, more: Seq<BlockKind>)
    ensures
        distinct(front + more).len() >= distinct(front).len(),
        distinct(front + more).take(distinct(front).len() as int) == distinct(front),
    decreases more.len(),
{
    if more.len() == 0 {
        assert(front + more =~= front);
        assert(distinct(front).take(distinct(front).len() as int) =~= distinct(front));
    } else {
        lemma_distinct_begins(front, more.drop_last());
        assert((front + more).drop_last() =~= front + more.drop_last());
        let rest = distinct(front + more.drop_last());
        assert(distinct(front + more).take(distinct(front).len() as int) =~= rest.take(
            distinct(front).len() as int,
        ));
    }
}

/// A repaired order holds every block exactly once, and repairing it again changes nothing.
pub proof fn law_order_is_complete(order: Seq<BlockKind>)
    ensures
        distinct(order + usual_order()).no_duplicates(),
        forall|k: BlockKind| #[trigger] distinct(order + usual_order()).contains(k),
        distinct(order + usual_order()).len() == 4,
        distinct(distinct(order + usual_order()) + usual_order()) == distinct(
            order + usual_order(),
        ),
{
    let all = order + usual_order();
    let r = distinct(all);
    lemma_distinct(all);
    assert forall|k: BlockKind| #[trigger] r.contains(k) by {
        let n = order.len() as int;
        assert(all[n] == BlockKind::Gpu && all[n + 1] == BlockKind::Cpu && all[n + 2]
            == BlockKind::Ram && all[n + 3] == BlockKind::Fps);
        assert(all.contains(k));
    }
    lemma_distinct_settles(r, usual_order());
    let kinds = set![BlockKind::Gpu, BlockKind::Cpu, BlockKind::Ram, BlockKind::Fps];
    assert(r.to_set() =~= kinds);
    assert(kinds.len() == 4);
    r.unique_seq_to_set();
}

/// A block moved one place and back stands where it stood.
pub proof fn law_shift_and_back(blocks: BlocksView, index: int, step: int)
    requires
        0 <= index < blocks.order.len(),
        0 <= index + step < blocks.order.len(),
    ensures
        blocks.shifted(index, step).shifted(index + step, -step) == blocks,
{
    let once = blocks.shifted(index, step);
    assert(once.shifted(index + step, -step).order =~= blocks.order);
}

/// A shift keeps every block: the order is a rearrangement of the one before.
pub proof fn law_shift_keeps_the_blocks(blocks: BlocksView, index: int, step: int)
    ensures
        blocks.shifted(index, step).order.to_multiset() == blocks.order.to_multiset(),
        blocks.order.no_duplicates() ==> blocks.shifted(index, step).order.no_duplicates(),
{
    let target = index + step;
    let s = blocks.order;
    if 0 <= index < s.len() && 0 <= target < s.len() {
        broadcast use vstd::seq_lib::group_to_multiset_ensures;

        let a = s.update(index, s[target]);
        assert(s.to_multiset().contains(s[index]));
        assert(a.to_multiset() =~= s.to_multiset().insert(s[target]).remove(s[index]));
        assert(a.update(target, s[index]).to_multiset() =~= a.to_multiset().insert(
            s[index],
        ).remove(a[target]));
        assert(a.update(target, s[index]).to_multiset() =~= s.to_multiset());
    }
}

proof fn lemma_default_degrees()
    ensures
        DEFAULT_WARN == whole_single(80).bits,
        DEFAULT_CRITICAL == whole_single(90).bits,
{
    vstd::arithmetic::power2::lemma2_to64();
    crate::number::lemma_whole_bits(80, 6);
    crate::number::lemma_whole_bits(90, 6);
}

/// The whole number of degrees behind a repaired threshold.
proof fn lemma_repaired_degrees(degrees: Single, fallback: u32) -> (n: nat)
    requires
        fallback == DEFAULT_WARN || fallback == DEFAULT_CRITICAL,
    ensures
        MIN_TEMPERATURE <= n <= MAX_TEMPERATURE,
        repaired_degrees(degrees, fallback) == whole_single(n),
        degrees.finite() ==> n == limited(
            degrees.rounded(),
            MIN_TEMPERATURE as int,
            MAX_TEMPERATURE as int,
        ),
        repaired_degrees(whole_single(n), fallback) == whole_single(n),
{
    lemma_default_degrees();
    let n: nat = if degrees.finite() {
        limited(degrees.rounded(), MIN_TEMPERATURE as int, MAX_TEMPERATURE as int) as nat
    } else if fallback == DEFAULT_WARN {
        80
    } else {
        90
    };
    crate::number::lemma_whole_single(n);
    n
}

/// Repaired thresholds are whole degrees within the limits, the critical one not below the
/// warning, and repairing them again changes nothing.
pub proof fn law_thresholds_settle(thresholds: Thresholds)
    ensures
        ({
            let r = thresholds.repaired();
            &&& whole_single(MIN_TEMPERATURE as nat).bits <= r.warn_c.bits <= r.critical_c.bits
                <= whole_single(MAX_TEMPERATURE as nat).bits
            &&& r.repaired() == r
            &&& r.warn_c.finite() && r.critical_c.finite()
        }),
{
    let w = lemma_repaired_degrees(thresholds.warn_c, DEFAULT_WARN);
    let c = lemma_repaired_degrees(thresholds.critical_c, DEFAULT_CRITICAL);
    crate::number::lemma_whole_single_grows(MIN_TEMPERATURE as nat, w);
    crate::number::lemma_whole_single_grows(w, MAX_TEMPERATURE as nat);
    crate::number::lemma_whole_single_grows(c, MAX_TEMPERATURE as nat);
    crate::number::lemma_whole_single(w);
    crate::number::lemma_whole_single(c);
}

/// Thresholds that are whole degrees from 40 to 110, the critical one not below the warning, are
/// kept as they are.
pub proof fn law_sound_thresholds_stay(thresholds: Thresholds, warn: nat, critical: nat)
    requires
        40 <= warn <= critical <= 110,
        thresholds.warn_c == whole_single(warn),
        thresholds.critical_c == whole_single(critical),
    ensures
        thresholds.repaired() == thresholds,
        thresholds.warn_c.finite(),
        thresholds.critical_c.finite(),
{
    crate::number::lemma_whole_single(warn);
    crate::number::lemma_whole_single(critical);
    crate::number::lemma_whole_single_grows(warn, critical);
}

/// Repair leaves alone whether a block is shown, its colours and whether it is called after its
/// device; what loads are coloured by stays too.
pub proof fn law_block_repair_keeps_the_rest(block: BlockView)
    ensures
        block.repaired().enabled == block.enabled,
        block.repaired().device_name == block.device_name,
        block.repaired().colors == block.colors,
        block.repaired().thresholds.color_load == block.thresholds.color_load,
        block.repaired().title.len() <= 32,
{
}

/// The blocks have the names that a user reads.
pub proof fn law_block_titles(value: BlockKind, r: &'static str)
    requires
        call_ensures(BlockKind::title, (value,), r),
    ensures
        value is Gpu ==> r@ == "Видеокарта"@,
        value is Cpu ==> r@ == "Процессор"@,
        value is Ram ==> r@ == "ОЗУ"@,
        value is Fps ==> r@ == "FPS"@,
{
}

/// A block that is shifted takes the place of the one it is shifted to, which takes its own; all
/// others stay, and what would leave the list does not move.
pub proof fn law_shifted_blocks_change_places(blocks: BlocksView, index: int, step: int)
    ensures
        ({
            let after = blocks.shifted(index, step);
            let n = blocks.order.len();
            &&& after.order.len() == n
            &&& 0 <= index < n && 0 <= index + step < n ==> after.order[index + step]
                == blocks.order[index] && after.order[index] == blocks.order[index + step]
            &&& forall|i: int|
                0 <= i < n && i != index && i != index + step ==> #[trigger] after.order[i]
                    == blocks.order[i]
            &&& !(0 <= index < n && 0 <= index + step < n) ==> after == blocks
            &&& forall|kind: BlockKind| #[trigger] after.of(kind) == blocks.of(kind)
        }),
{
}

} // verus!
