use dsu::cli::{Hog, HogArgs};
use dsu::hog::sort_by_size_desc;

fn hog_args(human: bool, limit: usize) -> HogArgs {
    HogArgs {
        dir: ".".to_string(),
        human_readable: human,
        limit,
    }
}

#[test]
fn bytes_stay_plain() {
    let a = hog_args(true, 10);
    assert_eq!(a.human_size(0), "0 B");
    assert_eq!(a.human_size(512), "512 B");
    assert_eq!(a.human_size(1023), "1023 B");
}

#[test]
fn kilobytes_get_two_decimals() {
    let a = hog_args(true, 10);
    assert_eq!(a.human_size(1024), "1.00 KB");
    assert_eq!(a.human_size(1536), "1.50 KB");
    assert_eq!(a.human_size(2560), "2.50 KB");
}

#[test]
fn rounding_ties_go_to_the_even_hundredth() {
    let a = hog_args(true, 10);
    // 1152/1024 = 1.125 exactly: the even neighbour is 1.12.
    assert_eq!(a.human_size(1152), "1.12 KB");
    // 1408/1024 = 1.375 exactly: the even neighbour is 1.38.
    assert_eq!(a.human_size(1408), "1.38 KB");
    assert_eq!(format!("{:.2}", 1152u32 as f64 / 1024.0), "1.12");
    assert_eq!(format!("{:.2}", 1408u32 as f64 / 1024.0), "1.38");
}

#[test]
fn larger_units_cap_at_gigabytes() {
    let a = hog_args(true, 10);
    assert_eq!(a.human_size(1048576), "1.00 MB");
    assert_eq!(a.human_size(1572864), "1.50 MB");
    assert_eq!(a.human_size(1073741824), "1.00 GB");
    assert_eq!(a.human_size(3221225472), "3.00 GB");
}

#[test]
fn the_older_shape_writes_sizes_the_same_way() {
    let h = Hog {
        dir: ".".to_string(),
        human_readable: true,
        limit: 10,
    };
    assert_eq!(h.human_size(1536), "1.50 KB");
    assert_eq!(h.human_size(77), "77 B");
}

#[test]
fn sorting_orders_by_size_descending() {
    let items = vec![
        ("small".to_string(), 1usize),
        ("big".to_string(), 30usize),
        ("mid".to_string(), 7usize),
    ];
    let sorted = sort_by_size_desc(items);
    let sizes: Vec<usize> = sorted.iter().map(|e| e.1).collect();
    assert_eq!(sizes, [30, 7, 1]);
    let names: Vec<&str> = sorted.iter().map(|e| e.0.as_str()).collect();
    assert_eq!(names, ["big", "mid", "small"]);
}

#[test]
fn report_lines_show_one_more_entry_than_the_limit() {
    let a = hog_args(false, 1);
    let items = vec![
        ("b".to_string(), 30usize),
        ("m".to_string(), 7usize),
        ("s".to_string(), 1usize),
    ];
    let lines = a.report_lines(items);
    assert_eq!(lines, ["b: 30", "m: 7"]);
}

#[test]
fn report_lines_respect_the_human_switch() {
    let a = hog_args(true, 10);
    let items = vec![("big".to_string(), 1536usize)];
    let lines = a.report_lines(items);
    assert_eq!(lines, ["big: 1.50 KB"]);
}

#[test]
fn total_line_adds_all_sizes() {
    let a = hog_args(false, 10);
    let items = vec![
        ("x".to_string(), 4usize),
        ("y".to_string(), 2usize),
    ];
    assert_eq!(a.total_line(&items), "Total size: 6");
    let h = hog_args(true, 10);
    let big = vec![("x".to_string(), 1024usize)];
    assert_eq!(h.total_line(&big), "Total size: 1.00 KB");
}
