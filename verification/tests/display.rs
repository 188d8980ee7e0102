//! Sizes and times as the window shows them.
use ebooksync::display::clock_text;
use ebooksync::display::format_bytes;

fn by_double(bytes: usize) -> String {
    let sizes = ["B", "KB", "MB", "GB", "TB"];
    let mut size = bytes as f64;
    let mut idx = 0;
    while size >= 1024.0 && idx < 4 {
        size /= 1024.0;
        idx += 1;
    }
    if idx == 0 {
        format!("{} B", bytes)
    } else {
        format!("{:.2} {}", size, sizes[idx])
    }
}

#[test]
fn sizes_are_shown_in_the_largest_unit() {
    assert_eq!(format_bytes(0), "0 B");
    assert_eq!(format_bytes(1023), "1023 B");
    assert_eq!(format_bytes(1024), "1.00 KB");
    assert_eq!(format_bytes(1536), "1.50 KB");
    assert_eq!(format_bytes(409600), "400.00 KB");
    assert_eq!(format_bytes(1048575), "1024.00 KB");
    assert_eq!(format_bytes(26214400), "25.00 MB");
    assert_eq!(format_bytes(1099511627776), "1.00 TB");
}

#[test]
fn sizes_round_as_doubles_do() {
    let mut n: usize = 1;
    for i in 0..20000usize {
        assert_eq!(format_bytes(n), by_double(n), "{}", n);
        n = n.wrapping_mul(6364136223846793005).wrapping_add(1442695040888963407) >> (i % 60);
    }
    for shift in 0..64 {
        for d in [-2i64, -1, 0, 1, 2, 3] {
            let n = ((1u64 << shift) as usize).wrapping_add(d as usize);
            assert_eq!(format_bytes(n), by_double(n), "{}", n);
        }
    }
    for n in (0..3_000_000usize).step_by(37) {
        assert_eq!(format_bytes(n), by_double(n), "{}", n);
    }
    for k in 0..400usize {
        let n = 1024 * k / 8 + 1024 * 1024 * k / 200;
        assert_eq!(format_bytes(n), by_double(n), "{}", n);
    }
    assert_eq!(format_bytes(usize::MAX), by_double(usize::MAX));
}

#[test]
fn times_have_two_digits_at_least() {
    assert_eq!(clock_text(0), "00:00");
    assert_eq!(clock_text(65), "01:05");
    assert_eq!(clock_text(3599), "59:59");
    assert_eq!(clock_text(6000), "100:00");
}
