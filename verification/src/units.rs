//! The units in which the overlay shows its values.
//!
//! Sensors and thresholds are always in degrees Celsius, megahertz and bytes: units concern the
//! output only.

use vstd::prelude::*;

verus! {

#[derive(Debug, Clone, Copy, PartialEq, Eq, Structural)]
pub enum Temperature {
    Celsius,
    Fahrenheit,
}

#[derive(Debug, Clone, Copy, PartialEq, Eq, Structural)]
pub enum Frequency {
    /// Megahertz below a thousand of them, gigahertz from there on.
    Auto,
    Mhz,
    Ghz,
}

#[derive(Debug, Clone, Copy, PartialEq, Eq, Structural)]
pub enum Memory {
    /// Gigabytes; the memory of an application below one gigabyte is shown in megabytes.
    Gb,
    Mb,
}

#[derive(Debug, Clone, Copy, PartialEq, Eq, Structural)]
pub struct Units {
    pub temperature: Temperature,
    pub frequency: Frequency,
    pub memory: Memory,
}

impl Temperature {
    pub const ALL: [Temperature; 2] = [Temperature::Celsius, Temperature::Fahrenheit];

    pub open spec fn name(self) -> Seq<char> {
        match self {
            Temperature::Celsius => "°C (Цельсий)"@,
            Temperature::Fahrenheit => "°F (Фаренгейт)"@,
        }
    }

    pub fn title(self) -> (r: &'static str)
        ensures
            r@ == self.name(),
    {
        match self {
            Temperature::Celsius => "°C (Цельсий)",
            Temperature::Fahrenheit => "°F (Фаренгейт)",
        }
    }
}

impl Frequency {
    pub const ALL: [Frequency; 3] = [Frequency::Auto, Frequency::Mhz, Frequency::Ghz];

    pub open spec fn name(self) -> Seq<char> {
        match self {
            Frequency::Auto => "Авто (МГц / ГГц)"@,
            Frequency::Mhz => "МГц"@,
            Frequency::Ghz => "ГГц"@,
        }
    }

    pub fn title(self) -> (r: &'static str)
        ensures
            r@ == self.name(),
    {
        match self {
            Frequency::Auto => "Авто (МГц / ГГц)",
            Frequency::Mhz => "МГц",
            Frequency::Ghz => "ГГц",
        }
    }
}

impl Memory {
    pub const ALL: [Memory; 2] = [Memory::Gb, Memory::Mb];

    pub open spec fn name(self) -> Seq<char> {
        match self {
            Memory::Gb => "ГБ"@,
            Memory::Mb => "МБ"@,
        }
    }

    pub fn title(self) -> (r: &'static str)
        ensures
            r@ == self.name(),
    {
        match self {
            Memory::Gb => "ГБ",
            Memory::Mb => "МБ",
        }
    }
}

/// What a fresh installation shows.
pub open spec fn default_units() -> Units {
    Units { temperature: Temperature::Celsius, frequency: Frequency::Auto, memory: Memory::Gb }
}

impl Default for Units {
    fn default() -> (r: Units)
        ensures
            r == default_units(),
    {
        Units { temperature: Temperature::Celsius, frequency: Frequency::Auto, memory: Memory::Gb }
    }
}

/// The units to choose from have the names that a user reads.
pub proof fn law_temperature_titles(value: Temperature, r: &'static str)
    requires
        call_ensures(Temperature::title, (value,), r),
    ensures
        value is Celsius ==> r@ == "°C (Цельсий)"@,
        value is Fahrenheit ==> r@ == "°F (Фаренгейт)"@,
{
}

/// The units to choose from have the names that a user reads.
pub proof fn law_frequency_titles(value: Frequency, r: &'static str)
    requires
        call_ensures(Frequency::title, (value,), r),
    ensures
        value is Auto ==> r@ == "Авто (МГц / ГГц)"@,
        value is Mhz ==> r@ == "МГц"@,
        value is Ghz ==> r@ == "ГГц"@,
{
}

/// The units to choose from have the names that a user reads.
pub proof fn law_memory_titles(value: Memory, r: &'static str)
    requires
        call_ensures(Memory::title, (value,), r),
    ensures
        value is Gb ==> r@ == "ГБ"@,
        value is Mb ==> r@ == "МБ"@,
{
}

} // verus!
