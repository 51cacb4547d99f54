use gh_dir::format_size;

#[test]
fn test_format_size() {
    assert_eq!(format_size(0), "0 B");
    assert_eq!(format_size(512), "512 B");
    assert_eq!(format_size(1024), "1.00 KB");
    assert_eq!(format_size(1536), "1.50 KB");
    assert_eq!(format_size(1048576), "1.00 MB");
    assert_eq!(format_size(1073741824), "1.00 GB");
    assert_eq!(format_size(1099511627776), "1.00 TB");
}

#[test]
fn test_format_size_no_promotion_below_unit() {
    assert_eq!(format_size(1023), "1023 B");
    assert_eq!(format_size(1048575), "1024.00 KB");
}

#[test]
fn test_format_size_promotion_boundaries() {
    assert_eq!(format_size(1024), "1.00 KB");
    assert_eq!(format_size(1048576), "1.00 MB");
    assert_eq!(format_size(1073741824), "1.00 GB");
}

#[test]
fn test_format_size_fraction() {
    assert_eq!(format_size(1588), "1.55 KB");
    assert_eq!(format_size(10 * 1024 * 1024 + 512 * 1024), "10.50 MB");
}

#[test]
fn test_format_size_ties_round_to_even() {
    // 1152 / 1024 = 1.125 and 1408 / 1024 = 1.375: the even neighbour wins.
    assert_eq!(format_size(1152), "1.12 KB");
    assert_eq!(format_size(1408), "1.38 KB");
}
