use appdata_cleaner::utils::ScanTarget;
use appdata_cleaner::utils::format_size;
use appdata_cleaner::utils::get_appdata_dir;

#[test]
fn bytes_are_shown_plain() {
    assert_eq!(format_size(0), "0.00 B");
    assert_eq!(format_size(1), "1.00 B");
    assert_eq!(format_size(1023), "1023.00 B");
}

#[test]
fn kilobytes_show_two_decimals() {
    assert_eq!(format_size(1024), "1.00 KB");
    assert_eq!(format_size(1536), "1.50 KB");
    assert_eq!(format_size(10 * 1024 + 256), "10.25 KB");
}

#[test]
fn larger_units_are_chosen_by_magnitude() {
    assert_eq!(format_size(1048576), "1.00 MB");
    assert_eq!(format_size(5 * 1048576 + 1048576 / 2), "5.50 MB");
    assert_eq!(format_size(1073741824), "1.00 GB");
    assert_eq!(format_size(1099511627776), "1.00 TB");
    assert_eq!(format_size(3 * 1099511627776 + 1099511627776 / 4), "3.25 TB");
}

#[test]
fn fractions_round_to_the_nearest_hundredth() {
    // 1100 bytes is 1.0742... KB, 1104 is 1.078125 KB, 1126 is 1.0996... KB.
    assert_eq!(format_size(1100), "1.07 KB");
    assert_eq!(format_size(1104), "1.08 KB");
    assert_eq!(format_size(1126), "1.10 KB");
}

#[test]
fn exact_halves_round_to_the_even_neighbour() {
    // 1152 bytes is exactly 1.125 KB, 1408 exactly 1.375 KB.
    assert_eq!(format_size(1152), "1.12 KB");
    assert_eq!(format_size(1408), "1.38 KB");
}

#[test]
fn rounding_may_show_the_full_unit() {
    // 1048575 bytes is 1023.999... KB: still labelled KB, rounded up.
    assert_eq!(format_size(1048575), "1024.00 KB");
}

#[test]
fn local_low_root_always_resolves() {
    let dir = get_appdata_dir(ScanTarget::LocalLow);
    assert!(dir.is_some());
}

#[test]
fn resolution_runs_for_each_target() {
    // Whether these roots exist depends on the host; resolution itself must
    // not panic either way.
    let _ = get_appdata_dir(ScanTarget::Roaming);
    let _ = get_appdata_dir(ScanTarget::Local);
}
