use engine_bridge::error::EngineError;
use engine_bridge::resolver::{
    engine_candidates, next_probe, Candidate, ProbeStep, Strategy, NOT_FOUND_MESSAGE,
};
use std::collections::HashSet;

const FALLBACK: &str = "/srv/fallback";

fn candidates(cwd: Option<&str>, exe: Option<&str>) -> Vec<Candidate> {
    engine_candidates(cwd.map(String::from), exe.map(String::from), FALLBACK.to_string())
}

/// Runs the search against a set of existing paths; returns the outcome and
/// the paths that were looked at, in order.
fn search(
    cwd: Option<&str>,
    exe: Option<&str>,
    existing: &[&str],
) -> (Result<(String, Strategy), EngineError>, Vec<String>) {
    let fs: HashSet<&str> = existing.iter().copied().collect();
    let cands = candidates(cwd, exe);
    let mut answers: Vec<bool> = Vec::new();
    let mut checked: Vec<String> = Vec::new();
    loop {
        match next_probe(&cands, &answers) {
            ProbeStep::Check(p) => {
                answers.push(fs.contains(p.as_str()));
                checked.push(p);
            }
            ProbeStep::Found(d, s) => return (Ok((d, s)), checked),
            ProbeStep::NotFound(e) => return (Err(e), checked),
        }
    }
}

#[test]
fn candidates_follow_strategy_order() {
    let c = candidates(Some("/home/u/proj/ui"), Some("/home/u/proj/ui/target/debug/app"));
    let dirs: Vec<(&str, Strategy)> = c.iter().map(|c| (c.dir.as_str(), c.strategy)).collect();
    assert_eq!(
        dirs,
        vec![
            ("/home/u/proj", Strategy::ParentOfWorkingDir),
            ("/home/u/proj/ui", Strategy::WorkingDir),
            ("/home/u/proj/ui/target/debug", Strategy::ExecutableAncestor),
            ("/home/u/proj/ui/target", Strategy::ExecutableAncestor),
            ("/home/u/proj/ui", Strategy::ExecutableAncestor),
            ("/home/u/proj", Strategy::ExecutableAncestor),
            ("/home/u", Strategy::ExecutableAncestor),
            (FALLBACK, Strategy::Fallback),
        ]
    );
    assert_eq!(c[0].marker, "/home/u/proj/engine");
    assert_eq!(c[7].marker, "/srv/fallback/engine");
}

#[test]
fn executable_walk_stops_at_root() {
    let c = candidates(None, Some("/bin/tool"));
    let dirs: Vec<&str> = c.iter().map(|c| c.dir.as_str()).collect();
    assert_eq!(dirs, vec!["/bin", "/", FALLBACK]);
}

#[test]
fn unknown_locations_leave_only_fallback() {
    let c = candidates(None, None);
    assert_eq!(c.len(), 1);
    assert_eq!(c[0].strategy, Strategy::Fallback);
}

#[test]
fn parent_of_working_dir_wins_first() {
    let (r, checked) = search(
        Some("/p/ui"),
        Some("/x/bin/app"),
        &["/p/engine", "/p/ui/engine", "/x/engine", "/srv/fallback/engine"],
    );
    assert_eq!(r.unwrap(), ("/p".to_string(), Strategy::ParentOfWorkingDir));
    assert_eq!(checked, vec!["/p/engine"]);
}

#[test]
fn working_dir_wins_before_executable() {
    let (r, _) = search(Some("/p/ui"), Some("/p/ui/bin/app"), &["/p/ui/engine", "/srv/fallback/engine"]);
    assert_eq!(r.unwrap(), ("/p/ui".to_string(), Strategy::WorkingDir));
}

#[test]
fn engine_two_levels_above_executable() {
    let (r, checked) = search(Some("/home/u/work"), Some("/opt/app/bin/app"), &["/opt/app/engine"]);
    assert_eq!(r.unwrap(), ("/opt/app".to_string(), Strategy::ExecutableAncestor));
    assert_eq!(
        checked,
        vec!["/home/u/engine", "/home/u/work/engine", "/opt/app/bin/engine", "/opt/app/engine"]
    );
}

#[test]
fn executable_walk_is_bounded() {
    // The sixth level above the executable's directory is not looked at.
    let (r, _) = search(None, Some("/a/b/c/d/e/f/app"), &["/a/engine"]);
    assert!(matches!(r, Err(EngineError::DirectoryNotFound(_))));
    let (r, _) = search(None, Some("/a/b/c/d/e/f/app"), &["/a/b/engine"]);
    assert_eq!(r.unwrap(), ("/a/b".to_string(), Strategy::ExecutableAncestor));
}

#[test]
fn fallback_is_last() {
    let (r, checked) = search(Some("/p/ui"), None, &["/srv/fallback/engine"]);
    assert_eq!(r.unwrap(), (FALLBACK.to_string(), Strategy::Fallback));
    assert_eq!(checked.len(), 3);
}

#[test]
fn no_match_is_directory_not_found() {
    let (r, checked) = search(Some("/p/ui"), Some("/x/bin/app"), &["/p/ui/other"]);
    match r {
        Err(EngineError::DirectoryNotFound(m)) => assert_eq!(m, NOT_FOUND_MESSAGE),
        other => panic!("unexpected {:?}", other),
    }
    assert_eq!(checked.len(), 2 + 3 + 1);
    assert_eq!(
        EngineError::DirectoryNotFound(NOT_FOUND_MESSAGE.to_string()).message(),
        "Could not find engine directory. Make sure the 'engine' folder exists."
    );
}

#[test]
fn resolution_is_repeatable() {
    let fs = ["/opt/app/engine", "/srv/fallback/engine"];
    let first = search(Some("/w"), Some("/opt/app/bin/app"), &fs);
    let second = search(Some("/w"), Some("/opt/app/bin/app"), &fs);
    assert_eq!(first.0.unwrap(), second.0.unwrap());
    assert_eq!(first.1, second.1);
}

#[test]
fn extra_answers_are_ignored() {
    let cands = candidates(None, None);
    match next_probe(&cands, &vec![false, true, true]) {
        ProbeStep::NotFound(_) => {}
        _ => panic!("expected NotFound"),
    }
    match next_probe(&cands, &vec![]) {
        ProbeStep::Check(p) => assert_eq!(p, "/srv/fallback/engine"),
        _ => panic!("expected Check"),
    }
}
