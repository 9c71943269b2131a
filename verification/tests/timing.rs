use cargo_goodtimes::model::{BuildGraph, CrateId, CrateNode, DepEdge};
use cargo_goodtimes::time::Milliseconds;
use cargo_goodtimes::timing::{aggregate, apply_timings, names_build_script, UnitTiming, FRESH_BELOW_NANOS};

/// A span of `seconds`, to the nearest nanosecond.
fn seconds(seconds: f64) -> Milliseconds {
    Milliseconds::from_nanos((seconds * 1e9).round() as u64)
}

fn millis(t: Option<Milliseconds>) -> Option<f64> {
    t.map(|t| t.as_nanos() as f64 / 1e6)
}

fn unit(name: &str, version: &str, target: &str, start: f64, duration: f64) -> UnitTiming {
    UnitTiming {
        name: name.to_string(),
        version: version.to_string(),
        target: target.to_string(),
        start: seconds(start),
        duration: seconds(duration),
    }
}

fn package(name: &str, version: &str) -> CrateNode {
    CrateNode {
        id: CrateId::new(format!("{name} {version}")),
        name: name.to_string(),
        version: version.to_string(),
        is_workspace_member: true,
        duration_ms: None,
        start_ms: None,
        fresh: false,
        features: Vec::new(),
    }
}

fn graph_of(packages: &[(&str, &str)]) -> BuildGraph {
    let mut g = BuildGraph::new();
    for (name, version) in packages {
        assert!(g.add_node(package(name, version)));
    }
    g
}

#[test]
fn build_scripts_are_left_out_of_the_sum() {
    let mut g = graph_of(&[("p", "1.0")]);
    let units = vec![
        unit("p", "1.0", "lib", 0.0, 2.0),
        unit("p", "1.0", "build script", 0.0, 0.5),
    ];
    apply_timings(&mut g, &units);
    assert_eq!(Some(2000.0), millis(g.nodes()[0].duration_ms));
    assert_ne!(Some(2500.0), millis(g.nodes()[0].duration_ms));
    assert_eq!(Some(0.0), millis(g.nodes()[0].start_ms));
}

#[test]
fn a_package_of_build_scripts_only_falls_back_to_them() {
    let mut g = graph_of(&[("q", "1.0")]);
    let units = vec![unit("q", "1.0", "build script", 0.0, 0.3)];
    apply_timings(&mut g, &units);
    assert_eq!(Some(300.0), millis(g.nodes()[0].duration_ms));
    assert!(!g.nodes()[0].fresh);
}

#[test]
fn a_negligible_duration_means_fresh() {
    let mut g = graph_of(&[("quick", "1.0"), ("slow", "1.0")]);
    let units = vec![
        unit("quick", "1.0", "lib", 0.0, 0.0000001),
        unit("slow", "1.0", "lib", 0.0, 0.5),
    ];
    apply_timings(&mut g, &units);
    assert!(g.nodes()[0].fresh);
    assert_eq!(Some(Milliseconds::from_nanos(100)), g.nodes()[0].duration_ms);
    assert!(!g.nodes()[1].fresh);
    assert_eq!(Some(500.0), millis(g.nodes()[1].duration_ms));
}

#[test]
fn fresh_ends_at_one_millisecond() {
    assert_eq!(1_000_000, FRESH_BELOW_NANOS);
    let mut g = graph_of(&[("under", "1.0"), ("at", "1.0"), ("zero", "1.0")]);
    let units = vec![
        UnitTiming {
            name: "under".to_string(),
            version: "1.0".to_string(),
            target: "lib".to_string(),
            start: Milliseconds::zero(),
            duration: Milliseconds::from_nanos(999_999),
        },
        UnitTiming {
            name: "at".to_string(),
            version: "1.0".to_string(),
            target: "lib".to_string(),
            start: Milliseconds::zero(),
            duration: Milliseconds::from_nanos(1_000_000),
        },
        unit("zero", "1.0", "lib", 0.0, 0.0),
    ];
    apply_timings(&mut g, &units);
    assert!(g.nodes()[0].fresh);
    assert!(!g.nodes()[1].fresh);
    assert!(g.nodes()[2].fresh);
}

#[test]
fn durations_add_up_and_the_earliest_start_counts() {
    let mut g = graph_of(&[("p", "1.0")]);
    let units = vec![
        unit("p", "1.0", "lib", 3.5, 2.0),
        unit("p", "1.0", "bin \"p\"", 1.25, 0.75),
        unit("p", "1.0", "lib (test)", 4.0, 1.0),
        unit("p", "1.0", "build script (run)", 0.5, 10.0),
    ];
    apply_timings(&mut g, &units);
    assert_eq!(Some(3750.0), millis(g.nodes()[0].duration_ms));
    assert_eq!(Some(1250.0), millis(g.nodes()[0].start_ms));
}

#[test]
fn the_fallback_takes_every_unit() {
    let mut g = graph_of(&[("p", "1.0")]);
    let units = vec![
        unit("p", "1.0", "build script", 2.0, 0.25),
        unit("p", "1.0", "build script (run)", 1.0, 0.5),
    ];
    apply_timings(&mut g, &units);
    assert_eq!(Some(750.0), millis(g.nodes()[0].duration_ms));
    assert_eq!(Some(1000.0), millis(g.nodes()[0].start_ms));
}

#[test]
fn units_count_for_their_name_and_version_only() {
    let mut g = graph_of(&[("p", "1.0"), ("p", "2.0"), ("r", "1.0")]);
    let units = vec![
        unit("p", "1.0", "lib", 0.0, 1.0),
        unit("p", "2.0", "lib", 1.0, 4.0),
        unit("other", "1.0", "lib", 0.0, 9.0),
    ];
    apply_timings(&mut g, &units);
    assert_eq!(Some(1000.0), millis(g.nodes()[0].duration_ms));
    assert_eq!(Some(4000.0), millis(g.nodes()[1].duration_ms));
    assert_eq!(Some(1000.0), millis(g.nodes()[1].start_ms));
    assert_eq!(None, g.nodes()[2].duration_ms);
    assert_eq!(None, g.nodes()[2].start_ms);
    assert!(!g.nodes()[2].fresh);
}

#[test]
fn a_package_without_units_keeps_what_it_had() {
    let mut g = BuildGraph::new();
    let mut p = package("p", "1.0");
    p.duration_ms = Some(Milliseconds::from_millis(7));
    p.start_ms = Some(Milliseconds::from_millis(1));
    p.fresh = true;
    g.add_node(p);
    apply_timings(&mut g, &Vec::new());
    assert_eq!(Some(Milliseconds::from_millis(7)), g.nodes()[0].duration_ms);
    assert_eq!(Some(Milliseconds::from_millis(1)), g.nodes()[0].start_ms);
    assert!(g.nodes()[0].fresh);
}

#[test]
fn a_sum_beyond_the_largest_span_stays_there() {
    let mut g = graph_of(&[("p", "1.0")]);
    let big = |start: u64| UnitTiming {
        name: "p".to_string(),
        version: "1.0".to_string(),
        target: "lib".to_string(),
        start: Milliseconds::from_nanos(start),
        duration: Milliseconds::from_nanos(u64::MAX - 1),
    };
    apply_timings(&mut g, &vec![big(9), big(4), big(6)]);
    assert_eq!(Some(Milliseconds::from_nanos(u64::MAX)), g.nodes()[0].duration_ms);
    assert_eq!(Some(Milliseconds::from_nanos(4)), g.nodes()[0].start_ms);
    assert!(!g.nodes()[0].fresh);
}

#[test]
fn aggregate_gives_start_and_duration() {
    let units = vec![
        unit("p", "1.0", "lib", 2.0, 1.0),
        unit("p", "1.0", "build script", 0.0, 0.5),
    ];
    let name = "p".to_string();
    assert_eq!(
        Some((seconds(2.0), seconds(1.0))),
        aggregate(&units, &name, &"1.0".to_string())
    );
    assert_eq!(None, aggregate(&units, &name, &"1.1".to_string()));
    assert_eq!(None, aggregate(&Vec::new(), &name, &"1.0".to_string()));
}

#[test]
fn build_script_labels() {
    assert!(names_build_script("build script"));
    assert!(names_build_script("build script (run)"));
    assert!(names_build_script(" custom-build script"));
    assert!(!names_build_script("lib"));
    assert!(!names_build_script(""));
    assert!(!names_build_script("build  script"));
    assert!(!names_build_script("Build Script"));
    assert!(!names_build_script("build scrip"));
    assert!(names_build_script("\u{e9}t\u{e9} build script \u{1f980}"));
}

#[test]
fn timings_settle_the_critical_path() {
    let mut g = graph_of(&[("a", "1.0"), ("b", "1.0"), ("c", "1.0")]);
    for (from, to) in [("a 1.0", "b 1.0"), ("b 1.0", "c 1.0")] {
        assert!(g.add_edge(DepEdge {
            from: CrateId::new(from.to_string()),
            to: CrateId::new(to.to_string()),
            dep_kinds: vec!["Normal".to_string()],
        }));
    }
    let units = vec![
        unit("a", "1.0", "lib", 0.05, 0.01),
        unit("b", "1.0", "lib", 0.03, 0.02),
        unit("c", "1.0", "lib", 0.0, 0.03),
        unit("c", "1.0", "build script", 0.0, 5.0),
    ];
    apply_timings(&mut g, &units);
    let path: Vec<&str> = g.critical_path().iter().map(|id| id.as_str()).collect();
    assert_eq!(vec!["c 1.0", "b 1.0", "a 1.0"], path);
    assert_eq!(Some(30.0), millis(g.nodes()[2].duration_ms));
}
