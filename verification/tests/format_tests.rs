use disk_sight::format::{decimal_string, format_size, human_readable_size};

#[test]
fn zero_bytes_is_shown_with_its_unit() {
    assert_eq!(format_size(0, true), "0 B");
    assert_eq!(human_readable_size(0), "0 B");
}

#[test]
fn kilobyte_scale_is_used_from_1024_on() {
    assert_eq!(format_size(1023, true), "1023 B");
    assert_eq!(format_size(1024, true), "1.00 KB");
    assert_eq!(format_size(1536, true), "1.50 KB");
}

#[test]
fn raw_form_is_the_decimal_numeral() {
    assert_eq!(format_size(0, false), "0");
    assert_eq!(format_size(1536, false), "1536");
    assert_eq!(format_size(u64::MAX, false), u64::MAX.to_string());
    assert_eq!(decimal_string(1_000_000), "1000000");
}

#[test]
fn each_unit_starts_at_its_power_of_1024() {
    assert_eq!(human_readable_size(1), "1 B");
    assert_eq!(human_readable_size(1025), "1.00 KB");
    assert_eq!(human_readable_size(1048575), "1023.99 KB");
    assert_eq!(human_readable_size(1048576), "1.00 MB");
    assert_eq!(human_readable_size(1073741823), "1023.99 MB");
    assert_eq!(human_readable_size(1073741824), "1.00 GB");
    assert_eq!(human_readable_size(1099511627776), "1.00 TB");
    assert_eq!(human_readable_size(1125899906842624), "1.00 PB");
    assert_eq!(human_readable_size(1152921504606846976), "1.00 EB");
    assert_eq!(human_readable_size(u64::MAX), "15.99 EB");
}

#[test]
fn decimals_are_cut_off_not_rounded() {
    assert_eq!(human_readable_size(2047), "1.99 KB");
    assert_eq!(human_readable_size(1034), "1.00 KB");
    assert_eq!(human_readable_size(1035), "1.01 KB");
    assert_eq!(human_readable_size(5 * 1048576 + 52429), "5.05 MB");
    assert_eq!(human_readable_size(10 * 1024 + 512), "10.50 KB");
}

#[test]
fn numerals_have_no_leading_zeros() {
    assert_eq!(decimal_string(7), "7");
    assert_eq!(decimal_string(10), "10");
    assert_eq!(decimal_string(1005), "1005");
    assert_eq!(decimal_string(18446744073709551615), "18446744073709551615");
}
