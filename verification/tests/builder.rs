use rarscanner::builder::{configure, dispatch};
use rarscanner::record::ScanConfig;
use rarscanner::walker::WalkPlan;

fn plan(follow_links: bool, skip_hidden: bool, git: bool) -> WalkPlan {
    WalkPlan {
        root: "some/root".to_string(),
        follow_links,
        skip_hidden,
        git_ignore: git,
        git_global: git,
        git_exclude: git,
    }
}

#[test]
fn builder_takes_every_setting_of_the_plan() {
    let shown = format!("{:?}", configure(&plan(true, false, true)));
    assert!(shown.contains("some/root"));
    assert!(shown.contains("follow_links: true"));
    assert!(shown.contains("hidden: false"));
    assert!(shown.contains("git_ignore: true"));
    assert!(shown.contains("git_global: true"));
    assert!(shown.contains("git_exclude: true"));

    let shown = format!("{:?}", configure(&plan(false, true, false)));
    assert!(shown.contains("follow_links: false"));
    assert!(shown.contains("hidden: true"));
    assert!(shown.contains("git_ignore: false"));
    assert!(shown.contains("git_global: false"));
    assert!(shown.contains("git_exclude: false"));
}

#[test]
fn one_builder_per_root_with_the_scan_settings() {
    let config = ScanConfig::new(vec!["first".to_string(), "second".to_string()], 3, true);
    let builders = dispatch(&config);
    assert_eq!(builders.len(), 2);
    let first = format!("{:?}", builders[0]);
    let second = format!("{:?}", builders[1]);
    assert!(first.contains("\"first\"") && !first.contains("\"second\""));
    assert!(second.contains("\"second\"") && !second.contains("\"first\""));
    for shown in [first, second] {
        assert!(shown.contains("follow_links: true"));
        assert!(shown.contains("hidden: false"));
        assert!(shown.contains("git_ignore: true"));
    }
    let plain = dispatch(&ScanConfig::new(Vec::new(), 0, false));
    assert_eq!(plain.len(), 1);
    let shown = format!("{:?}", plain[0]);
    assert!(shown.contains("\".\""));
    assert!(shown.contains("follow_links: false"));
}
