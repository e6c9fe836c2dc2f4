use activity_logger::api::{count_files, files_to_clear, log_stats, screenshot_listing, tally_removed, DirEntryInfo};

fn file(name: &str) -> DirEntryInfo {
    DirEntryInfo { name: Some(name.to_string()), is_file: true }
}

fn dir(name: &str) -> DirEntryInfo {
    DirEntryInfo { name: Some(name.to_string()), is_file: false }
}

#[test]
fn listing_newest_first() {
    let entries = vec![
        file("screenshot_2024-05-01_10-00-00.jpg"),
        dir("nested"),
        file("screenshot_2024-05-02_09-00-00.jpg"),
        DirEntryInfo { name: None, is_file: true },
        file("screenshot_2024-04-30_23-59-59.jpg"),
    ];
    let got = screenshot_listing(&entries);
    let names: Vec<&str> = got.iter().map(|e| e.name.as_str()).collect();
    assert_eq!(
        names,
        vec![
            "screenshot_2024-05-02_09-00-00.jpg",
            "screenshot_2024-05-01_10-00-00.jpg",
            "screenshot_2024-04-30_23-59-59.jpg",
        ]
    );
    assert_eq!(got[0].url, "/screenshots/screenshot_2024-05-02_09-00-00.jpg");
}

#[test]
fn listing_order_matches_str_order() {
    let names = ["b", "a", "ab", "é", "B", "", "aa"];
    let entries: Vec<DirEntryInfo> = names.iter().map(|n| file(n)).collect();
    let got: Vec<String> = screenshot_listing(&entries).into_iter().map(|e| e.name).collect();
    let mut want: Vec<String> = names.iter().map(|n| n.to_string()).collect();
    want.sort_by(|a, b| b.cmp(a));
    assert_eq!(got, want);
}

#[test]
fn clear_five_screenshots() {
    let entries: Vec<DirEntryInfo> = (1..=5).map(|i| file(&format!("s{i}.jpg"))).collect();
    let plan = files_to_clear(&entries);
    assert_eq!(plan, vec![0, 1, 2, 3, 4]);
    let outcomes = vec![true; plan.len()];
    assert_eq!(tally_removed(&outcomes), 5);
}

#[test]
fn clear_skips_directories_and_counts_failures_out() {
    let entries = vec![dir("d"), file("a.jpg"), file("b.jpg")];
    assert_eq!(files_to_clear(&entries), vec![1, 2]);
    assert_eq!(tally_removed(&vec![true, false]), 1);
}

#[test]
fn clear_of_empty_directory_reports_zero() {
    let empty: Vec<DirEntryInfo> = vec![];
    assert!(files_to_clear(&empty).is_empty());
    assert_eq!(tally_removed(&vec![]), 0);
    assert!(files_to_clear(&vec![dir("only_a_dir")]).is_empty());
}

#[test]
fn stats_counts() {
    let entries = vec![file("a.jpg"), dir("x"), file("b.jpg")];
    assert_eq!(count_files(&entries), 2);
    let s = log_stats("{}\n{}\n{}\n", "{}", &entries);
    assert_eq!(s.key_logs, 3);
    assert_eq!(s.window_logs, 1);
    assert_eq!(s.screenshots, 2);
}
