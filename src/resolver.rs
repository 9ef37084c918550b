//! Finding the engine's root directory.
//!
//! The strategies are tried in a fixed order, and the first directory that
//! holds an `engine` directory wins:
//! 1. the parent of the working directory;
//! 2. the working directory itself;
//! 3. the directory of the executable and its ancestors, at most five levels;
//! 4. a fallback directory chosen by the host.
//!
//! Each candidate directory becomes a [`Candidate`]; the host asks
//! [`next_probe`] which marker path to look at next, answers with whether it
//! exists, and stops at the first `Found` or `NotFound`.
use crate::error::EngineError;
use crate::paths::{join_path, joined_path, parent_of, parent_path};
use vstd::prelude::*;

verus! {

/// The name of the directory whose presence marks an engine root.
pub const ENGINE_DIR_NAME: &'static str = "engine";

/// How many levels, starting at the executable's directory, strategy 3 looks at.
pub const EXECUTABLE_SEARCH_DEPTH: usize = 5;

/// The strategy that proposed a candidate directory.
#[derive(Debug, Clone, Copy, PartialEq, Eq, Structural)]
pub enum Strategy {
    ParentOfWorkingDir,
    WorkingDir,
    ExecutableAncestor,
    Fallback,
}

impl Strategy {
    /// Position of the strategy in the order in which they are tried.
    pub open spec fn rank(self) -> nat {
        match self {
            Strategy::ParentOfWorkingDir => 1,
            Strategy::WorkingDir => 2,
            Strategy::ExecutableAncestor => 3,
            Strategy::Fallback => 4,
        }
    }
}

/// A directory that may be the engine root, with the path whose existence
/// decides it.
#[derive(Debug)]
pub struct Candidate {
    pub dir: String,
    pub marker: String,
    pub strategy: Strategy,
}

/// What a [`Candidate`] stands for.
pub ghost struct CandidateView {
    pub dir: Seq<char>,
    pub marker: Seq<char>,
    pub strategy: Strategy,
}

impl View for Candidate {
    type V = CandidateView;

    open spec fn view(&self) -> CandidateView {
        CandidateView { dir: self.dir@, marker: self.marker@, strategy: self.strategy }
    }
}

/// The marker path of a directory: `<dir>/engine`.
pub open spec fn engine_marker(dir: Seq<char>) -> Seq<char> {
    joined_path(dir, ENGINE_DIR_NAME@)
}

pub open spec fn candidate(dir: Seq<char>, strategy: Strategy) -> CandidateView {
    CandidateView { dir, marker: engine_marker(dir), strategy }
}

/// `start` and its ancestors, at most `n` of them, nearest first.
pub open spec fn ancestors(start: Option<Seq<char>>, n: nat) -> Seq<Seq<char>>
    decreases n,
{
    if n == 0 {
        seq![]
    } else {
        match start {
            None => seq![],
            Some(d) => seq![d] + ancestors(parent_path(d), (n - 1) as nat),
        }
    }
}

/// The candidates that one strategy proposes, in the order it proposes them.
pub open spec fn strategy_candidates(
    s: Strategy,
    cwd: Option<Seq<char>>,
    exe: Option<Seq<char>>,
    fallback: Seq<char>,
) -> Seq<CandidateView> {
    match s {
        Strategy::ParentOfWorkingDir => match cwd {
            Some(c) => match parent_path(c) {
                Some(p) => seq![candidate(p, s)],
                None => seq![],
            },
            None => seq![],
        },
        Strategy::WorkingDir => match cwd {
            Some(c) => seq![candidate(c, s)],
            None => seq![],
        },
        Strategy::ExecutableAncestor => match exe {
            Some(e) => ancestors(parent_path(e), EXECUTABLE_SEARCH_DEPTH as nat).map_values(
                |d: Seq<char>| candidate(d, s),
            ),
            None => seq![],
        },
        Strategy::Fallback => seq![candidate(fallback, s)],
    }
}

/// All candidates, strategy by strategy in the fixed order.
pub open spec fn candidate_list(
    cwd: Option<Seq<char>>,
    exe: Option<Seq<char>>,
    fallback: Seq<char>,
) -> Seq<CandidateView> {
    strategy_candidates(Strategy::ParentOfWorkingDir, cwd, exe, fallback) + strategy_candidates(
        Strategy::WorkingDir,
        cwd,
        exe,
        fallback,
    ) + strategy_candidates(Strategy::ExecutableAncestor, cwd, exe, fallback)
        + strategy_candidates(Strategy::Fallback, cwd, exe, fallback)
}

/// The first candidate whose marker exists in the set of existing paths `fs`.
pub open spec fn first_existing(cands: Seq<CandidateView>, fs: Set<Seq<char>>) -> Option<
    CandidateView,
>
    decreases cands.len(),
{
    if cands.len() == 0 {
        None
    } else if fs.contains(cands[0].marker) {
        Some(cands[0])
    } else {
        first_existing(cands.drop_first(), fs)
    }
}

/// The candidate that strategy `s` settles on, if any, over the paths `fs`.
pub open spec fn strategy_match(
    s: Strategy,
    cwd: Option<Seq<char>>,
    exe: Option<Seq<char>>,
    fallback: Seq<char>,
    fs: Set<Seq<char>>,
) -> Option<CandidateView> {
    first_existing(strategy_candidates(s, cwd, exe, fallback), fs)
}

/// The engine root over the paths `fs`: the first match over all strategies.
pub open spec fn resolved(
    cwd: Option<Seq<char>>,
    exe: Option<Seq<char>>,
    fallback: Seq<char>,
    fs: Set<Seq<char>>,
) -> Option<CandidateView> {
    first_existing(candidate_list(cwd, exe, fallback), fs)
}

/// The candidates of strategy 3 for an executable path `exe`.
fn executable_candidates(exe: &str) -> (r: Vec<Candidate>)
    ensures
        r@.map_values(|c: Candidate| c@) == strategy_candidates(
            Strategy::ExecutableAncestor,
            None,
            Some(exe@),
            seq![],
        ),
{
    let mut r: Vec<Candidate> = Vec::new();
    let mut dir: Option<String> = parent_of(exe);
    let mut level: usize = 0;
    while level < EXECUTABLE_SEARCH_DEPTH
        invariant
            level <= EXECUTABLE_SEARCH_DEPTH,
            r@.map_values(|c: Candidate| c@) + ancestors(
                dir.deep_view(),
                (EXECUTABLE_SEARCH_DEPTH - level) as nat,
            ).map_values(|d: Seq<char>| candidate(d, Strategy::ExecutableAncestor))
                == ancestors(parent_path(exe@), EXECUTABLE_SEARCH_DEPTH as nat).map_values(
                |d: Seq<char>| candidate(d, Strategy::ExecutableAncestor),
            ),
        decreases EXECUTABLE_SEARCH_DEPTH - level,
    {
        let ghost before = r@.map_values(|c: Candidate| c@);
        let current = dir;
        match current {
            Some(d) => {
                let marker = join_path(d.as_str(), ENGINE_DIR_NAME);
                let next = parent_of(d.as_str());
                let ghost rest = ancestors(
                    parent_path(d@),
                    (EXECUTABLE_SEARCH_DEPTH - level - 1) as nat,
                );
                r.push(Candidate { dir: d, marker, strategy: Strategy::ExecutableAncestor });
                assert(r@.map_values(|c: Candidate| c@) =~= before.push(
                    candidate(d@, Strategy::ExecutableAncestor),
                ));
                assert((seq![d@] + rest).map_values(
                    |x: Seq<char>| candidate(x, Strategy::ExecutableAncestor),
                ) =~= seq![candidate(d@, Strategy::ExecutableAncestor)] + rest.map_values(
                    |x: Seq<char>| candidate(x, Strategy::ExecutableAncestor),
                ));
                dir = next;
            },
            None => {
                assert(r@.map_values(|c: Candidate| c@) =~= before);
                dir = None;
            },
        }
        level = level + 1;
    }
    assert(ancestors(dir.deep_view(), 0) =~= seq![]);
    r
}

/// Every candidate directory, in the order in which they are tried.
///
/// `cwd` and `exe` are the working directory and the executable's path,
/// `None` where the host could not learn them; `fallback` is the directory
/// consulted last.
pub fn engine_candidates(cwd: Option<String>, exe: Option<String>, fallback: String) -> (r: Vec<
    Candidate,
>)
    ensures
        r@.map_values(|c: Candidate| c@) == candidate_list(
            cwd.deep_view(),
            exe.deep_view(),
            fallback@,
        ),
{
    let ghost cwd_v = cwd.deep_view();
    let ghost exe_v = exe.deep_view();
    let ghost fb = fallback@;
    let mut r: Vec<Candidate> = Vec::new();
    match cwd {
        Some(c) => {
            match parent_of(c.as_str()) {
                Some(p) => {
                    let marker = join_path(p.as_str(), ENGINE_DIR_NAME);
                    r.push(Candidate { dir: p, marker, strategy: Strategy::ParentOfWorkingDir });
                },
                None => {},
            }
            let marker = join_path(c.as_str(), ENGINE_DIR_NAME);
            r.push(Candidate { dir: c, marker, strategy: Strategy::WorkingDir });
        },
        None => {},
    }
    assert(r@.map_values(|c: Candidate| c@) =~= strategy_candidates(
        Strategy::ParentOfWorkingDir,
        cwd_v,
        exe_v,
        fb,
    ) + strategy_candidates(Strategy::WorkingDir, cwd_v, exe_v, fb));
    let ghost front = r@.map_values(|c: Candidate| c@);
    let mut from_exe = match exe {
        Some(e) => executable_candidates(e.as_str()),
        None => Vec::new(),
    };
    assert(from_exe@.map_values(|c: Candidate| c@) =~= strategy_candidates(
        Strategy::ExecutableAncestor,
        cwd_v,
        exe_v,
        fb,
    ));
    let ghost middle = from_exe@.map_values(|c: Candidate| c@);
    r.append(&mut from_exe);
    let marker = join_path(fallback.as_str(), ENGINE_DIR_NAME);
    r.push(Candidate { dir: fallback, marker, strategy: Strategy::Fallback });
    assert(r@.map_values(|c: Candidate| c@) =~= front + middle + strategy_candidates(
        Strategy::Fallback,
        cwd_v,
        exe_v,
        fb,
    ));
    r
}

/// What the resolver asks for next, or how it ended.
pub enum ProbeStep {
    /// Report whether this path exists.
    Check(String),
    /// The engine root, and the strategy that proposed it.
    Found(String, Strategy),
    /// No candidate holds an `engine` directory.
    NotFound(EngineError),
}

/// What a [`ProbeStep`] stands for; the error of `NotFound` is fixed.
pub ghost enum ProbeOutcome {
    Check(Seq<char>),
    Found(Seq<char>, Strategy),
    NotFound,
}

impl View for ProbeStep {
    type V = ProbeOutcome;

    open spec fn view(&self) -> ProbeOutcome {
        match self {
            ProbeStep::Check(p) => ProbeOutcome::Check(p@),
            ProbeStep::Found(d, s) => ProbeOutcome::Found(d@, *s),
            ProbeStep::NotFound(_) => ProbeOutcome::NotFound,
        }
    }
}

/// The next step, once `answers[i]` tells whether the marker of `cands[i]`
/// exists, for each answered candidate in turn.
pub open spec fn probe_outcome(cands: Seq<CandidateView>, answers: Seq<bool>) -> ProbeOutcome
    decreases cands.len(),
{
    if cands.len() == 0 {
        ProbeOutcome::NotFound
    } else if answers.len() == 0 {
        ProbeOutcome::Check(cands[0].marker)
    } else if answers[0] {
        ProbeOutcome::Found(cands[0].dir, cands[0].strategy)
    } else {
        probe_outcome(cands.drop_first(), answers.drop_first())
    }
}

/// The message of the failure that ends a search with no match.
pub const NOT_FOUND_MESSAGE: &'static str =
    "Could not find engine directory. Make sure the 'engine' folder exists.";

/// Decides the next step of the search over `cands`, given the existence
/// answers so far: the first candidate answered `true` is the engine root; an
/// unanswered candidate is checked next; with every candidate answered
/// `false` the search fails with `DirectoryNotFound`. Answers beyond the last
/// candidate are ignored.
pub fn next_probe(cands: &Vec<Candidate>, answers: &Vec<bool>) -> (r: ProbeStep)
    ensures
        r@ == probe_outcome(cands@.map_values(|c: Candidate| c@), answers@),
        r matches ProbeStep::NotFound(e) ==> e matches EngineError::DirectoryNotFound(_)
            && e.text() == NOT_FOUND_MESSAGE@,
{
    let ghost all = cands@.map_values(|c: Candidate| c@);
    let mut i: usize = 0;
    assert(all.skip(0) =~= all);
    assert(answers@.skip(0) =~= answers@);
    while i < cands.len()
        invariant
            i <= cands.len(),
            all == cands@.map_values(|c: Candidate| c@),
            i <= answers.len(),
            probe_outcome(all, answers@) == probe_outcome(all.skip(i as int), answers@.skip(
                i as int,
            )),
        decreases cands.len() - i,
    {
        assert(all.skip(i as int)[0] == cands@[i as int]@);
        if i >= answers.len() {
            return ProbeStep::Check(cands[i].marker.clone());
        }
        if answers[i] {
            return ProbeStep::Found(cands[i].dir.clone(), cands[i].strategy);
        }
        assert(all.skip(i as int).drop_first() =~= all.skip(i + 1));
        assert(answers@.skip(i as int).drop_first() =~= answers@.skip(i + 1));
        i = i + 1;
    }
    ProbeStep::NotFound(EngineError::DirectoryNotFound(String::from_str(NOT_FOUND_MESSAGE)))
}

/// The answers agree with the paths `fs`: each answered candidate's marker
/// exists exactly when it is in `fs`.
pub open spec fn answers_agree(
    cands: Seq<CandidateView>,
    answers: Seq<bool>,
    fs: Set<Seq<char>>,
) -> bool {
    forall|i: int|
        0 <= i < cands.len() && 0 <= i < answers.len() ==> answers[i] == fs.contains(
            #[trigger] cands[i].marker,
        )
}

proof fn lemma_first_existing_append(a: Seq<CandidateView>, b: Seq<CandidateView>, fs: Set<Seq<char>>)
    ensures
        first_existing(a + b, fs) == match first_existing(a, fs) {
            Some(c) => Some(c),
            None => first_existing(b, fs),
        },
    decreases a.len(),
{
    if a.len() == 0 {
        assert(a + b =~= b);
    } else {
        assert((a + b)[0] == a[0]);
        assert((a + b).drop_first() =~= a.drop_first() + b);
        lemma_first_existing_append(a.drop_first(), b, fs);
    }
}

proof fn lemma_first_existing_member(cands: Seq<CandidateView>, fs: Set<Seq<char>>)
    ensures
        first_existing(cands, fs) matches Some(c) ==> exists|i: int|
            0 <= i < cands.len() && cands[i] == c && fs.contains(c.marker),
    decreases cands.len(),
{
    if cands.len() > 0 && !fs.contains(cands[0].marker) {
        lemma_first_existing_member(cands.drop_first(), fs);
        if let Some(c) = first_existing(cands.drop_first(), fs) {
            let i = choose|i: int|
                0 <= i < cands.drop_first().len() && cands.drop_first()[i] == c && fs.contains(
                    c.marker,
                );
            assert(cands[i + 1] == c);
        }
    }
}

/// Every candidate that strategy `s` proposes is tagged with `s`.
proof fn lemma_strategy_tags(
    s: Strategy,
    cwd: Option<Seq<char>>,
    exe: Option<Seq<char>>,
    fallback: Seq<char>,
    fs: Set<Seq<char>>,
)
    ensures
        strategy_match(s, cwd, exe, fallback, fs) matches Some(c) ==> c.strategy == s
            && fs.contains(c.marker) && c.marker == engine_marker(c.dir),
{
    let cands = strategy_candidates(s, cwd, exe, fallback);
    lemma_first_existing_member(cands, fs);
    if let Some(c) = first_existing(cands, fs) {
        let i = choose|i: int| 0 <= i < cands.len() && cands[i] == c && fs.contains(c.marker);
        assert(cands[i].strategy == s && cands[i].marker == engine_marker(cands[i].dir));
    }
}

/// The search protocol follows the paths `fs`: while candidates remain
/// unanswered it asks for the first of them; once it ends, it has found
/// exactly the first candidate whose marker exists, or failed where none
/// exists.
pub proof fn lemma_probe_follows_paths(
    cands: Seq<CandidateView>,
    answers: Seq<bool>,
    fs: Set<Seq<char>>,
)
    requires
        answers_agree(cands, answers, fs),
    ensures
        match probe_outcome(cands, answers) {
            ProbeOutcome::Found(d, s) => first_existing(cands, fs) matches Some(c) && c.dir == d
                && c.strategy == s,
            ProbeOutcome::NotFound => first_existing(cands, fs) is None,
            ProbeOutcome::Check(m) => answers.len() < cands.len() && m
                == cands[answers.len() as int].marker,
        },
        answers.len() >= cands.len() ==> !(probe_outcome(cands, answers) is Check),
    decreases cands.len(),
{
    if cands.len() > 0 && answers.len() > 0 {
        assert(answers[0] == fs.contains(cands[0].marker));
        if !answers[0] {
            assert(answers_agree(cands.drop_first(), answers.drop_first(), fs)) by {
                assert forall|i: int|
                    0 <= i < cands.drop_first().len() && 0 <= i < answers.drop_first().len()
                        implies answers.drop_first()[i] == fs.contains(
                        #[trigger] cands.drop_first()[i].marker,
                    ) by {
                    assert(cands.drop_first()[i] == cands[i + 1]);
                    assert(answers[i + 1] == fs.contains(cands[i + 1].marker));
                }
            }
            lemma_probe_follows_paths(cands.drop_first(), answers.drop_first(), fs);
        }
    }
}

/// The strategies are tried in order: where strategy `k` matches and no
/// strategy before it does, the engine root is `k`'s candidate, and a
/// finished search with truthful answers reports that directory and `k`.
pub proof fn lemma_first_matching_strategy_wins(
    k: Strategy,
    cwd: Option<Seq<char>>,
    exe: Option<Seq<char>>,
    fallback: Seq<char>,
    fs: Set<Seq<char>>,
    answers: Seq<bool>,
)
    requires
        forall|j: Strategy|
            j.rank() < k.rank() ==> #[trigger] strategy_match(j, cwd, exe, fallback, fs) is None,
        strategy_match(k, cwd, exe, fallback, fs) is Some,
        answers_agree(candidate_list(cwd, exe, fallback), answers, fs),
    ensures
        resolved(cwd, exe, fallback, fs) == strategy_match(k, cwd, exe, fallback, fs),
        !(probe_outcome(candidate_list(cwd, exe, fallback), answers) is Check) ==> probe_outcome(
            candidate_list(cwd, exe, fallback),
            answers,
        ) == ProbeOutcome::Found(strategy_match(k, cwd, exe, fallback, fs)->Some_0.dir, k),
{
    let c1 = strategy_candidates(Strategy::ParentOfWorkingDir, cwd, exe, fallback);
    let c2 = strategy_candidates(Strategy::WorkingDir, cwd, exe, fallback);
    let c3 = strategy_candidates(Strategy::ExecutableAncestor, cwd, exe, fallback);
    let c4 = strategy_candidates(Strategy::Fallback, cwd, exe, fallback);
    assert(strategy_match(Strategy::ParentOfWorkingDir, cwd, exe, fallback, fs) == first_existing(c1, fs));
    assert(strategy_match(Strategy::WorkingDir, cwd, exe, fallback, fs) == first_existing(c2, fs));
    assert(strategy_match(Strategy::ExecutableAncestor, cwd, exe, fallback, fs) == first_existing(c3, fs));
    lemma_first_existing_append(c1 + c2 + c3, c4, fs);
    lemma_first_existing_append(c1 + c2, c3, fs);
    lemma_first_existing_append(c1, c2, fs);
    lemma_strategy_tags(k, cwd, exe, fallback, fs);
    lemma_probe_follows_paths(candidate_list(cwd, exe, fallback), answers, fs);
}

/// No guessed directory: where no strategy matches, the search never reports
/// a directory, and once every candidate is answered it fails.
pub proof fn lemma_no_match_fails(
    cwd: Option<Seq<char>>,
    exe: Option<Seq<char>>,
    fallback: Seq<char>,
    fs: Set<Seq<char>>,
    answers: Seq<bool>,
)
    requires
        forall|j: Strategy| #[trigger] strategy_match(j, cwd, exe, fallback, fs) is None,
        answers_agree(candidate_list(cwd, exe, fallback), answers, fs),
    ensures
        resolved(cwd, exe, fallback, fs) is None,
        !(probe_outcome(candidate_list(cwd, exe, fallback), answers) is Found),
        answers.len() >= candidate_list(cwd, exe, fallback).len() ==> probe_outcome(
            candidate_list(cwd, exe, fallback),
            answers,
        ) == ProbeOutcome::NotFound,
{
    let c1 = strategy_candidates(Strategy::ParentOfWorkingDir, cwd, exe, fallback);
    let c2 = strategy_candidates(Strategy::WorkingDir, cwd, exe, fallback);
    let c3 = strategy_candidates(Strategy::ExecutableAncestor, cwd, exe, fallback);
    let c4 = strategy_candidates(Strategy::Fallback, cwd, exe, fallback);
    assert(strategy_match(Strategy::ParentOfWorkingDir, cwd, exe, fallback, fs) is None);
    assert(strategy_match(Strategy::WorkingDir, cwd, exe, fallback, fs) is None);
    assert(strategy_match(Strategy::ExecutableAncestor, cwd, exe, fallback, fs) is None);
    assert(strategy_match(Strategy::Fallback, cwd, exe, fallback, fs) is None);
    lemma_first_existing_append(c1 + c2 + c3, c4, fs);
    lemma_first_existing_append(c1 + c2, c3, fs);
    lemma_first_existing_append(c1, c2, fs);
    lemma_probe_follows_paths(candidate_list(cwd, exe, fallback), answers, fs);
}

/// Resolution is repeatable: two finished searches over the same inputs,
/// answered truthfully against the same paths, end the same way.
pub proof fn lemma_resolution_repeatable(
    cwd: Option<Seq<char>>,
    exe: Option<Seq<char>>,
    fallback: Seq<char>,
    fs: Set<Seq<char>>,
    first: Seq<bool>,
    second: Seq<bool>,
)
    requires
        answers_agree(candidate_list(cwd, exe, fallback), first, fs),
        answers_agree(candidate_list(cwd, exe, fallback), second, fs),
        !(probe_outcome(candidate_list(cwd, exe, fallback), first) is Check),
        !(probe_outcome(candidate_list(cwd, exe, fallback), second) is Check),
    ensures
        probe_outcome(candidate_list(cwd, exe, fallback), first) == probe_outcome(
            candidate_list(cwd, exe, fallback),
            second,
        ),
{
    lemma_probe_follows_paths(candidate_list(cwd, exe, fallback), first, fs);
    lemma_probe_follows_paths(candidate_list(cwd, exe, fallback), second, fs);
}

} // verus!
