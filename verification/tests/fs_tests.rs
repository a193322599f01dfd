use filemanager::fs::dir::{preview_names, read as read_dir, sort_paths};
use filemanager::fs::file::read as read_file;
use filemanager::fs::{info, FileInfo};

fn meta(size: u64) -> FileInfo {
    FileInfo {
        size,
        is_symlink: false,
        is_dir: true,
        mode: 16877,
        readonly: false,
        modified_secs: 12,
        accessed_secs: 3,
    }
}

fn size_line(size: u64) -> String {
    let text = info(Ok(meta(size)));
    text.lines().next().unwrap().to_string()
}

/// The size line computed with floats and `{:.2}`.
fn float_size_line(size: u64) -> String {
    let size_kb = size as f64 / 1024f64;
    let shown = if size_kb as u64 > 1024 {
        format!("{:.2}mb", size_kb / 1024f64)
    } else {
        format!("{:.2}kb", size_kb)
    };
    format!("Size: {}", shown)
}

#[test]
fn info_shows_every_field() {
    let text = info(Ok(FileInfo {
        size: 2048,
        is_symlink: false,
        is_dir: false,
        mode: 33188,
        readonly: true,
        modified_secs: 75,
        accessed_secs: 4294967298,
    }));
    assert_eq!(
        text,
        "Size: 2.00kb\nSymlink: false\nDirectory: false\nPermissions: 33188\nRead-only: true\nTime since modification: 75s\nTime since accessed: 2s"
    );
}

#[test]
fn info_passes_the_error_on() {
    assert_eq!(info(Err("No such file or directory (os error 2)".to_string())), "No such file or directory (os error 2)");
}

#[test]
fn info_size_examples() {
    assert_eq!(size_line(0), "Size: 0.00kb");
    assert_eq!(size_line(1), "Size: 0.00kb");
    assert_eq!(size_line(1536), "Size: 1.50kb");
    assert_eq!(size_line(1024 * 1024), "Size: 1024.00kb");
    assert_eq!(size_line(1025 * 1024 - 1), "Size: 1025.00kb");
    assert_eq!(size_line(1025 * 1024), "Size: 1.00mb");
    assert_eq!(size_line(5 * 1024 * 1024 + 512 * 1024), "Size: 5.50mb");
}

#[test]
fn info_size_rounds_ties_to_even() {
    // 5 / 1024 * 100 = 0.48828125 and 133 / 1024 = 0.1298828125
    assert_eq!(size_line(1024 + 5), float_size_line(1024 + 5));
    // a tie on the hundredths: 25.6 bytes per hundredth, x.125 and x.375
    assert_eq!(size_line(128), "Size: 0.12kb");
    assert_eq!(size_line(384), "Size: 0.38kb");
    assert_eq!(size_line(128), float_size_line(128));
    assert_eq!(size_line(384), float_size_line(384));
}

#[test]
fn info_size_agrees_with_float_formatting() {
    let mut sizes: Vec<u64> = (0..5000u64).collect();
    for k in 0..64u32 {
        let p = 1u64 << k;
        sizes.push(p);
        sizes.push(p - 1);
        sizes.push(p.wrapping_add(1));
        sizes.push(p.wrapping_mul(3) / 2);
    }
    for base in [1025u64 * 1024, 1u64 << 53, (1u64 << 53) + 1, (1u64 << 60) + 12345, u64::MAX - 1, u64::MAX] {
        for d in 0..200u64 {
            sizes.push(base.saturating_sub(d));
            sizes.push(base.saturating_add(d * 977));
        }
    }
    let mut x: u64 = 0x9E37_79B9_7F4A_7C15;
    for _ in 0..20000 {
        x ^= x << 13;
        x ^= x >> 7;
        x ^= x << 17;
        sizes.push(x >> (x % 64));
    }
    for size in sizes {
        assert_eq!(size_line(size), float_size_line(size), "size {}", size);
    }
}

#[test]
fn dir_read_passes_the_error_on() {
    assert_eq!(read_dir(Err("Permission denied (os error 13)".to_string())), vec!["Permission denied (os error 13)".to_string()]);
}

#[test]
fn dir_read_of_an_empty_directory() {
    assert_eq!(read_dir(Ok(vec![])), vec!["No files in directory".to_string()]);
}

#[test]
fn dir_read_sorts_by_bytes() {
    let paths: Vec<String> = ["/t/b", "/t/B", "/t/é", "/t/a.txt", "/t/a", "/t/Z", "/t/ab", "/t/é", "/t/ü", "/t/~"]
        .iter()
        .map(|s| s.to_string())
        .collect();
    let mut expected = paths.clone();
    expected.sort();
    assert_eq!(read_dir(Ok(paths)), expected);
}

#[test]
fn dir_read_does_not_depend_on_the_order_given() {
    let a: Vec<String> = ["/x/c", "/x/a", "/x/b"].iter().map(|s| s.to_string()).collect();
    let b: Vec<String> = ["/x/b", "/x/c", "/x/a"].iter().map(|s| s.to_string()).collect();
    assert_eq!(read_dir(Ok(a)), read_dir(Ok(b)));
}

#[test]
fn sort_paths_of_one_and_none() {
    assert_eq!(sort_paths(vec![]), Vec::<String>::new());
    assert_eq!(sort_paths(vec!["z".to_string()]), vec!["z".to_string()]);
}

#[test]
fn preview_names_strip_the_directory_and_sort() {
    let lines: Vec<String> = ["/d/sub/zeta", "/d/sub/alpha", "/d/sub/mid"].iter().map(|s| s.to_string()).collect();
    assert_eq!(preview_names(lines, "/d/sub"), vec!["alpha".to_string(), "mid".to_string(), "zeta".to_string()]);
}

#[test]
fn preview_names_take_out_every_occurrence() {
    let lines = vec!["/x/y/x/z".to_string()];
    assert_eq!(preview_names(lines, "/x"), vec!["/x/y/x/z".replace("/x/", "")]);
}

#[test]
fn file_read_shows_contents_or_error() {
    assert_eq!(read_file(Ok("hello\n".to_string())), "hello\n");
    assert_eq!(read_file(Err("Is a directory (os error 21)".to_string())), "Is a directory (os error 21)");
}
