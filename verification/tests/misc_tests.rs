use cargo_vendormod::atlas_math::{calculate_alternating_order, calculate_lie_type_order, is_prime};
use cargo_vendormod::flake_check::{classify, flake_coverage, target_projects, ProjectFlakeStatus};
use cargo_vendormod::goal_tracker::{CrqStatus, DmaicPhase, Goal, GoalTracker};
use cargo_vendormod::lang_detect::{describe_manifest, detect_language, discover_projects, DirListing, DirTree, Language};
use cargo_vendormod::lean4_driver::{find_ancestor, plan_decl, Lean4Driver};
use cargo_vendormod::test_results::{TestResult, ZkperfIntegrationResult, ZkperfTestResult};

#[test]
fn test_goal_tracker() {
    let mut tracker = GoalTracker::new();
    let goal = Goal::new("g1", "Test");
    tracker.add_goal(goal);
    assert_eq!(tracker.goals.len(), 1);
}

#[test]
fn goal_advances_to_control_and_stays() {
    let mut tracker = GoalTracker::new();
    tracker.add_goal(Goal::new("g1", "Test"));
    for _ in 0..6 {
        tracker.advance_phase("g1").unwrap();
    }
    assert_eq!(tracker.goals.get("g1").unwrap().dmaic_phase, DmaicPhase::Control);
    assert_eq!(tracker.advance_phase("nope"), Err("Goal not found".to_string()));
    tracker.update_crq_status("g1", CrqStatus::Done).unwrap();
    assert_eq!(tracker.goals.get("g1").unwrap().crq_status, CrqStatus::Done);
    assert_eq!(tracker.update_crq_status("x", CrqStatus::Open), Err("Goal not found".to_string()));
    assert_eq!(DmaicPhase::default(), DmaicPhase::Define);
    assert_eq!(DmaicPhase::Define.next(), DmaicPhase::Measure);
    assert_eq!(DmaicPhase::Improve.to_string(), "Improve");
}

#[test]
fn readding_a_goal_replaces_it() {
    let mut tracker = GoalTracker::new();
    tracker.add_goal(Goal::new("g1", "First"));
    tracker.add_goal(Goal::new("g1", "Second"));
    assert_eq!(tracker.goals.len(), 1);
    assert_eq!(tracker.goals.get("g1").unwrap().name, "Second");
}

#[test]
fn flake_status_counts() {
    assert_eq!(classify(true, true), ProjectFlakeStatus::Complete);
    assert_eq!(classify(true, false), ProjectFlakeStatus::Partial);
    assert_eq!(classify(false, true), ProjectFlakeStatus::Missing);
    let targets = target_projects();
    assert_eq!(targets.len(), 9);
    assert_eq!(targets[0].name, "dasl");
    let (projects, counts) = flake_coverage(&vec![(true, true), (true, false)]);
    assert_eq!(projects.len(), 9);
    assert_eq!(counts.total, 9);
    assert_eq!(counts.complete, 1);
    assert_eq!(counts.partial, 1);
    assert_eq!(counts.missing, 7);
    assert_eq!(projects[1].status, ProjectFlakeStatus::Partial);
}

fn listing(cargo: Option<&str>, present: &[&str], files: Option<&[&str]>) -> DirListing {
    DirListing {
        cargo_toml: cargo.map(|s| s.to_string()),
        present: present.iter().map(|s| s.to_string()).collect(),
        files: files.map(|fs| fs.iter().map(|s| s.to_string()).collect()),
    }
}

#[test]
fn detect_languages_from_listings() {
    assert_eq!(detect_language(&listing(Some("[package]\nname = \"test\"\n"), &["Cargo.toml"], None)), Language::Rust);
    assert_eq!(detect_language(&listing(None, &["go.mod"], None)), Language::Go);
    assert_eq!(detect_language(&listing(None, &["pyproject.toml"], None)), Language::Python);
    assert_eq!(detect_language(&listing(None, &["package.json"], None)), Language::JavaScript);
    assert_eq!(detect_language(&listing(None, &["pom.xml"], None)), Language::Java);
    assert_eq!(detect_language(&listing(None, &["CMakeLists.txt"], None)), Language::C);
    assert_eq!(detect_language(&listing(None, &[], Some(&["main.c"]))), Language::C);
    assert_eq!(detect_language(&listing(None, &[], Some(&["README.md"]))), Language::Unknown);
    assert!(describe_manifest(&listing(None, &["go.mod"], None)).contains("go.mod"));
}

#[test]
fn discovery_skips_hidden_and_stops_at_projects() {
    let leaf = |path: &str, present: &[&str]| DirTree {
        path: path.to_string(),
        listing: listing(None, present, Some(&[])),
        subdirs: vec![],
    };
    let root = DirTree {
        path: "/r".to_string(),
        listing: listing(None, &[], Some(&[])),
        subdirs: vec![
            ("a".to_string(), leaf("/r/a", &["go.mod"])),
            (".hidden".to_string(), leaf("/r/.hidden", &["go.mod"])),
            ("target".to_string(), leaf("/r/target", &["pom.xml"])),
        ],
    };
    let found = discover_projects(&root, 3);
    assert_eq!(found, vec![("/r/a".to_string(), Language::Go)]);
    assert!(discover_projects(&root, 0).is_empty());
}

#[test]
fn lean_driver_plans() {
    let d = Lean4Driver::new();
    assert_eq!(d.name(), "lean4");
    assert!(d.detect(false, false, true, false, false));
    assert!(!d.detect(false, false, false, false, false));
    let plan = plan_decl(&d, "/out", "Mathlib/Algebra/Group.lean");
    assert_eq!(plan.module_name, "Mathlib.Algebra.Group");
    assert_eq!(plan.decl_dir, "/out/flakes/Mathlib_Algebra_Group");
    assert_eq!(plan.source_copy, "/out/flakes/Mathlib_Algebra_Group/Group.lean");
    assert_eq!(plan.flake.0, "/out/flakes/Mathlib_Algebra_Group/flake.nix");
    assert_eq!(find_ancestor("/a/b/c", "lakefile.lean", &vec![false, true, true]), Some("/a/b/lakefile.lean".to_string()));
}

#[test]
fn prime_and_group_orders() {
    let primes: Vec<usize> = (0..30).filter(|&n| is_prime(n)).collect();
    assert_eq!(primes, vec![2, 3, 5, 7, 11, 13, 17, 19, 23, 29]);
    assert!(is_prime(7919));
    assert!(!is_prime(7917));
    assert_eq!(calculate_alternating_order(4), 1);
    assert_eq!(calculate_alternating_order(5), 60);
    assert_eq!(calculate_alternating_order(6), 360);
    assert_eq!(calculate_lie_type_order(2), 6);
    assert_eq!(calculate_lie_type_order(3), 168);
    assert_eq!(calculate_lie_type_order(4), 16000);
}

#[test]
fn result_constructors_keep_fields() {
    let r = TestResult::new("t".to_string(), true, 5, None);
    assert_eq!(r.test_name, "t");
    assert!(r.passed);
    let z = ZkperfTestResult::new("z".to_string(), false, 1, Some("c".to_string()), None, Some("e".to_string()));
    assert_eq!(z.coverage_data, Some("c".to_string()));
    let i = ZkperfIntegrationResult::new("i".to_string(), true, 2, vec!["f".to_string()], None, None);
    assert_eq!(i.output_files, vec!["f".to_string()]);
}
