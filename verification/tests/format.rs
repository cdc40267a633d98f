use mh_monitoring::format::api_and_resolution;
use mh_monitoring::format::bytes;
use mh_monitoring::format::bytes_pair;
use mh_monitoring::format::clock;
use mh_monitoring::format::memory_speed;
use mh_monitoring::format::short_device_name;
use mh_monitoring::units::Frequency;
use mh_monitoring::units::Memory;
use mh_monitoring::units::Temperature;

#[test]
fn memory_pairs_print_the_unit_once() {
    let gib = 1u64 << 30;
    let pair = |used, total| bytes_pair(used, total, Memory::Gb);
    assert_eq!(pair(Some(gib * 72 / 10), Some(gib * 16)).unwrap(), "7.2 / 16 GB");
    assert_eq!(pair(Some(gib), Some(gib * 8)).unwrap(), "1.0 / 8.0 GB");
    assert_eq!(pair(None, Some(gib * 16)).unwrap(), "— / 16 GB");
    assert_eq!(pair(None, None), None);
    assert_eq!(
        bytes_pair(Some(gib * 3 / 2), Some(gib * 16), Memory::Mb).unwrap(),
        "1536 / 16384 MB"
    );
}

#[test]
fn a_single_amount_switches_to_megabytes_below_a_gigabyte() {
    assert_eq!(bytes(3 * (1 << 30) + (1 << 29), Memory::Gb), "3.5 GB");
    assert_eq!(bytes(812 * (1 << 20), Memory::Gb), "812 MB");
    assert_eq!(bytes(3 * (1 << 30), Memory::Mb), "3072 MB");
}

/// Amounts are printed as the usual division and formatting of doubles would.
#[test]
fn amounts_print_as_doubles_do() {
    let gib = (1u64 << 30) as f64;
    let mib = (1u64 << 20) as f64;
    let mut amount: u64 = 1;
    let mut amounts: Vec<u64> = vec![0, u64::MAX, (1 << 53) + 1, (1 << 30) * 21 / 20];
    while amount < u64::MAX / 3 {
        amounts.push(amount);
        amount = amount * 3 + 12_345;
    }
    for tenth in 1..200u64 {
        amounts.push((1 << 30) / 20 * tenth);
    }
    for n in amounts {
        let megabytes = format!("{:.0} MB", n as f64 / mib);
        assert_eq!(bytes(n, Memory::Mb), megabytes, "{n}");
        let expected =
            if n >= 1 << 30 { format!("{:.1} GB", n as f64 / gib) } else { megabytes };
        assert_eq!(bytes(n, Memory::Gb), expected, "{n}");
        let total = n as f64 / gib;
        let total = if total >= 10.0 { format!("{total:.0}") } else { format!("{total:.1}") };
        assert_eq!(
            bytes_pair(Some(n), Some(n), Memory::Gb).unwrap(),
            format!("{:.1} / {total} GB", n as f64 / gib),
            "{n}"
        );
    }
}

#[test]
fn device_names_lose_the_obvious_parts() {
    assert_eq!(short_device_name("NVIDIA GeForce RTX 5070 Ti"), "GeForce RTX 5070 Ti");
    assert_eq!(short_device_name("AMD Radeon RX 7800 XT"), "Radeon RX 7800 XT");
    assert_eq!(short_device_name("Intel(R) Arc(TM) A770 Graphics"), "Arc A770 Graphics");
    assert_eq!(
        short_device_name("AMD Ryzen 9 5900X 12-Core Processor            "),
        "AMD Ryzen 9 5900X"
    );
    assert_eq!(
        short_device_name("Intel(R) Core(TM) i7-14700K CPU @ 3.40GHz"),
        "Intel Core i7-14700K"
    );
    assert_eq!(short_device_name("AMD Ryzen 7 5700G with Radeon Graphics"), "AMD Ryzen 7 5700G");
    assert_eq!(short_device_name(""), "");
}

#[test]
fn the_clock_has_leading_zeros() {
    assert_eq!(clock((9, 5)), "09:05");
    assert_eq!(clock((23, 59)), "23:59");
}

#[test]
fn the_way_of_drawing_and_the_size_stand_together() {
    assert_eq!(api_and_resolution(Some("DXGI"), Some((2560, 1440))).unwrap(), "DXGI · 2560×1440");
    assert_eq!(api_and_resolution(Some("DXGI"), None).unwrap(), "DXGI");
    assert_eq!(api_and_resolution(None, Some((800, 600))).unwrap(), "800×600");
    assert_eq!(api_and_resolution(None, None), None);
    assert_eq!(memory_speed(6_000), "6000 MHz");
}

#[test]
fn units_have_titles() {
    assert_eq!(Temperature::ALL.len(), 2);
    assert_eq!(Temperature::Celsius.title(), "°C (Цельсий)");
    assert_eq!(Frequency::Auto.title(), "Авто (МГц / ГГц)");
    assert_ne!(Memory::Gb.title(), Memory::Mb.title());
}
