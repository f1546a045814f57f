//! Splitting a command line into pipeline stages, and deciding for each
//! stage how it runs and how its input and output are wired.

use vstd::prelude::*;
use crate::text::{strings_view, same_text};
use crate::redirect::{Target, target_view};
use crate::builtins::{
    is_builtin_name, is_shell_builtin, stage_echo_line, stage_echo_text, stage_type_line,
    stage_type_text, stage_pwd_line, stage_pwd_text, cwd_view, found_view,
};

verus! {

pub open spec fn stages_view(v: Seq<Vec<String>>) -> Seq<Seq<Seq<char>>> {
    v.map_values(|st: Vec<String>| strings_view(st@))
}

/// The tokens cut at every `|` token; a line with no `|` is one stage.
pub open spec fn split_stages(ts: Seq<Seq<char>>) -> Seq<Seq<Seq<char>>>
    decreases ts.len(),
{
    if ts.len() == 0 {
        seq![Seq::empty()]
    } else {
        let before = split_stages(ts.drop_last());
        if ts.last() == "|"@ {
            before.push(Seq::empty())
        } else {
            before.update(before.len() - 1, before.last().push(ts.last()))
        }
    }
}

/// Cuts the tokens of a line into pipeline stages.
pub fn split_pipeline(tokens: &Vec<String>) -> (r: Vec<Vec<String>>)
    ensures
        stages_view(r@) == split_stages(strings_view(tokens@)),
{
    let ghost tv = strings_view(tokens@);
    let mut r: Vec<Vec<String>> = Vec::new();
    let first: Vec<String> = Vec::new();
    assert(strings_view(first@) =~= Seq::<Seq<char>>::empty());
    r.push(first);
    assert(tv.take(0) =~= Seq::<Seq<char>>::empty());
    assert(stages_view(r@) =~= seq![Seq::<Seq<char>>::empty()]);
    let mut i: usize = 0;
    while i < tokens.len()
        invariant
            i <= tokens@.len(),
            tv == strings_view(tokens@),
            stages_view(r@) == split_stages(tv.take(i as int)),
            r@.len() >= 1,
        decreases tokens@.len() - i,
    {
        assert(tv.take(i + 1).drop_last() =~= tv.take(i as int));
        assert(tv.take(i + 1).last() == tokens@[i as int]@);
        let ghost before = stages_view(r@);
        if same_text(tokens[i].as_str(), "|") {
            let next: Vec<String> = Vec::new();
            assert(strings_view(next@) =~= Seq::<Seq<char>>::empty());
            r.push(next);
            assert(stages_view(r@) =~= before.push(Seq::empty()));
        } else {
            let last = r.len() - 1;
            let mut stage = r.remove(last);
            stage.push(tokens[i].clone());
            assert(strings_view(stage@) =~= before.last().push(tv[i as int]));
            r.push(stage);
            assert(stages_view(r@) =~= before.update(before.len() - 1, before.last().push(tv[i as int])));
        }
        i = i + 1;
    }
    assert(tv.take(i as int) =~= tv);
    r
}

/// Where a spawned stage reads its input from.
#[derive(Clone, Debug, PartialEq, Eq)]
pub enum StdinFrom {
    Inherit,
    /// The output of the stage spawned just before.
    Previous,
    /// Bytes written by the shell: the output of a built-in stage.
    Seed(String),
}

/// Where a spawned stage writes its output.
#[derive(Clone, Debug, PartialEq, Eq)]
pub enum StdoutTo {
    Inherit,
    Pipe,
    File(Target),
}

/// What to do for one stage of a pipeline.
#[derive(Clone, Debug, PartialEq, Eq)]
pub enum StageAction {
    /// An empty stage.
    Skip,
    /// The last stage is a built-in: print its output.
    Show(String),
    /// The last stage is a built-in: write its output to the redirection target.
    Write(Target, String),
    /// A built-in that is not last: its output seeds the next spawned stage.
    Hold(String),
    /// `cd` or `exit`, which do not run in a pipeline: print the message.
    Unsupported(String),
    /// Start the external command of the stage.
    Spawn(StdinFrom, StdoutTo),
    /// The command was not found: print the message and start no more stages.
    NotFound(String),
}

pub enum InView {
    Inherit,
    Previous,
    Seed(Seq<char>),
}

pub enum OutView {
    Inherit,
    Pipe,
    File(Seq<char>, bool),
}

pub enum ActionView {
    Skip,
    Show(Seq<char>),
    Write(Seq<char>, bool, Seq<char>),
    Hold(Seq<char>),
    Unsupported(Seq<char>),
    Spawn(InView, OutView),
    NotFound(Seq<char>),
}

impl View for StageAction {
    type V = ActionView;

    open spec fn view(&self) -> ActionView {
        match self {
            StageAction::Skip => ActionView::Skip,
            StageAction::Show(t) => ActionView::Show(t@),
            StageAction::Write(f, t) => ActionView::Write(f.path@, f.append, t@),
            StageAction::Hold(t) => ActionView::Hold(t@),
            StageAction::Unsupported(m) => ActionView::Unsupported(m@),
            StageAction::Spawn(i, o) => ActionView::Spawn(
                match i {
                    StdinFrom::Inherit => InView::Inherit,
                    StdinFrom::Previous => InView::Previous,
                    StdinFrom::Seed(s) => InView::Seed(s@),
                },
                match o {
                    StdoutTo::Inherit => OutView::Inherit,
                    StdoutTo::Pipe => OutView::Pipe,
                    StdoutTo::File(f) => OutView::File(f.path@, f.append),
                },
            ),
            StageAction::NotFound(m) => ActionView::NotFound(m@),
        }
    }
}

/// What earlier stages leave for the next one: whether the stage just
/// before was spawned with a piped output, and a built-in's output not yet
/// handed to a spawned stage.
pub struct PipeModel {
    pub piped: bool,
    pub seed: Option<Seq<char>>,
}

/// The output of a built-in stage.
pub open spec fn builtin_stage_text(
    stage: Seq<Seq<char>>,
    first_path: Option<Seq<char>>,
    cwd: Result<Seq<char>, Seq<char>>,
) -> Seq<char> {
    let args = stage.drop_first();
    if stage[0] == "echo"@ {
        stage_echo_line(args)
    } else if stage[0] == "type"@ {
        stage_type_line(args, first_path)
    } else {
        stage_pwd_line(cwd)
    }
}

/// The decision for one stage. `found` says whether the executable search
/// found the stage's command, `first_path` where it found the stage's first
/// argument, and `out` is the target of an output redirection, if any.
pub open spec fn stage_step(
    st: PipeModel,
    stage: Seq<Seq<char>>,
    is_last: bool,
    found: bool,
    first_path: Option<Seq<char>>,
    cwd: Result<Seq<char>, Seq<char>>,
    out: Option<(Seq<char>, bool)>,
) -> (PipeModel, ActionView) {
    if stage.len() == 0 {
        (st, ActionView::Skip)
    } else if is_builtin_name(stage[0]) {
        if stage[0] == "cd"@ || stage[0] == "exit"@ {
            (st, ActionView::Unsupported(stage[0] + ": cannot run in a pipeline\n"@))
        } else {
            let text = builtin_stage_text(stage, first_path, cwd);
            if !is_last {
                (PipeModel { piped: false, seed: Some(text) }, ActionView::Hold(text))
            } else {
                match out {
                    Some((path, append)) => (st, ActionView::Write(path, append, text)),
                    None => (st, ActionView::Show(text)),
                }
            }
        }
    } else if !found {
        (st, ActionView::NotFound(stage[0] + ": command not found\n"@))
    } else {
        let (stdin, seed) = if st.piped {
            (InView::Previous, st.seed)
        } else {
            match st.seed {
                Some(s) => (InView::Seed(s), None),
                None => (InView::Inherit, None),
            }
        };
        let stdout = if !is_last {
            OutView::Pipe
        } else {
            match out {
                Some((path, append)) => OutView::File(path, append),
                None => OutView::Inherit,
            }
        };
        (PipeModel { piped: !is_last, seed }, ActionView::Spawn(stdin, stdout))
    }
}

/// The decisions for the stages from `i` on; none after a command that was
/// not found.
pub open spec fn plan_from(
    stages: Seq<Seq<Seq<char>>>,
    found: Seq<bool>,
    first_paths: Seq<Option<Seq<char>>>,
    cwd: Result<Seq<char>, Seq<char>>,
    out: Option<(Seq<char>, bool)>,
    i: int,
    st: PipeModel,
) -> Seq<ActionView>
    decreases stages.len() - i,
{
    if i < 0 || i >= stages.len() {
        Seq::empty()
    } else {
        let (st2, a) = stage_step(
            st,
            stages[i],
            i == stages.len() - 1,
            found[i],
            first_paths[i],
            cwd,
            out,
        );
        if a is NotFound {
            seq![a]
        } else {
            seq![a] + plan_from(stages, found, first_paths, cwd, out, i + 1, st2)
        }
    }
}

pub open spec fn plan(
    stages: Seq<Seq<Seq<char>>>,
    found: Seq<bool>,
    first_paths: Seq<Option<Seq<char>>>,
    cwd: Result<Seq<char>, Seq<char>>,
    out: Option<(Seq<char>, bool)>,
) -> Seq<ActionView> {
    plan_from(stages, found, first_paths, cwd, out, 0, PipeModel { piped: false, seed: None })
}

pub open spec fn seed_view(seed: &Option<String>) -> Option<Seq<char>> {
    match seed {
        Some(s) => Some(s@),
        None => None,
    }
}

pub open spec fn actions_view(v: Seq<StageAction>) -> Seq<ActionView> {
    v.map_values(|a: StageAction| a@)
}

fn copy_target(t: &Option<Target>) -> (r: Option<Target>)
    ensures
        target_view(r) == target_view(*t),
{
    match t {
        Some(t) => Some(Target { path: t.path.clone(), append: t.append }),
        None => None,
    }
}

/// Decides how each stage of a pipeline runs. `found[i]` says whether the
/// executable search found the command of `stages[i]`, `first_paths[i]`
/// where it found that stage's first argument, `cwd` is the working
/// directory or why it could not be read, and `out` is where an output
/// redirection of the line sends the last stage's output.
pub fn plan_pipeline(
    stages: &Vec<Vec<String>>,
    found: &Vec<bool>,
    first_paths: &Vec<Option<String>>,
    cwd: &Result<String, String>,
    out: &Option<Target>,
) -> (r: Vec<StageAction>)
    requires
        found@.len() == stages@.len(),
        first_paths@.len() == stages@.len(),
    ensures
        actions_view(r@) == plan(
            stages_view(stages@),
            found@,
            found_view(first_paths@),
            cwd_view(*cwd),
            target_view(*out),
        ),
{
    let ghost sv = stages_view(stages@);
    let ghost fv = found_view(first_paths@);
    let ghost cv = cwd_view(*cwd);
    let ghost ov = target_view(*out);
    let n = stages.len();
    let mut r: Vec<StageAction> = Vec::new();
    let mut piped = false;
    let mut seed: Option<String> = None;
    let mut i: usize = 0;
    assert(actions_view(r@) =~= Seq::<ActionView>::empty());
    while i < n
        invariant
            i <= n,
            n == stages@.len(),
            found@.len() == n,
            first_paths@.len() == n,
            sv == stages_view(stages@),
            fv == found_view(first_paths@),
            cv == cwd_view(*cwd),
            ov == target_view(*out),
            plan(sv, found@, fv, cv, ov) == actions_view(r@) + plan_from(
                sv,
                found@,
                fv,
                cv,
                ov,
                i as int,
                PipeModel { piped, seed: seed_view(&seed) },
            ),
        decreases n - i,
    {
        let ghost st = PipeModel { piped, seed: seed_view(&seed) };
        let ghost before = actions_view(r@);
        let stage = &stages[i];
        let is_last = i == n - 1;
        assert(sv[i as int] == strings_view(stage@));
        assert(fv[i as int] == match first_paths@[i as int] {
            Some(p) => Some(p@),
            None => None,
        });
        let ghost (st2, want) = stage_step(st, sv[i as int], is_last, found@[i as int], fv[i as int], cv, ov);
        let action: StageAction;
        if stage.len() == 0 {
            action = StageAction::Skip;
        } else if is_shell_builtin(stage[0].as_str()) {
            assert(strings_view(stage@)[0] == stage@[0]@);
            if same_text(stage[0].as_str(), "cd") || same_text(stage[0].as_str(), "exit") {
                let mut m = stage[0].clone();
                m.append(": cannot run in a pipeline\n");
                action = StageAction::Unsupported(m);
            } else {
                let args = stage.as_slice().split_at(1).1;
                assert(strings_view(args@) =~= sv[i as int].drop_first());
                let text = if same_text(stage[0].as_str(), "echo") {
                    stage_echo_text(args)
                } else if same_text(stage[0].as_str(), "type") {
                    stage_type_text(args, &first_paths[i])
                } else {
                    stage_pwd_text(cwd)
                };
                if !is_last {
                    piped = false;
                    seed = Some(text.clone());
                    action = StageAction::Hold(text);
                } else {
                    match out {
                        Some(t) => {
                            action = StageAction::Write(Target { path: t.path.clone(), append: t.append }, text);
                        },
                        None => {
                            action = StageAction::Show(text);
                        },
                    }
                }
            }
        } else if !found[i] {
            assert(strings_view(stage@)[0] == stage@[0]@);
            let mut m = stage[0].clone();
            m.append(": command not found\n");
            action = StageAction::NotFound(m);
        } else {
            let stdin = if piped {
                StdinFrom::Previous
            } else {
                let taken = seed;
                seed = None;
                match taken {
                    Some(s) => StdinFrom::Seed(s),
                    None => StdinFrom::Inherit,
                }
            };
            let stdout = if !is_last {
                StdoutTo::Pipe
            } else {
                match copy_target(out) {
                    Some(t) => StdoutTo::File(t),
                    None => StdoutTo::Inherit,
                }
            };
            piped = !is_last;
            action = StageAction::Spawn(stdin, stdout);
        }
        assert(action@ == want);
        let stop = match action {
            StageAction::NotFound(_) => true,
            _ => false,
        };
        r.push(action);
        assert(actions_view(r@) =~= before.push(want));
        if stop {
            assert(actions_view(r@) + Seq::<ActionView>::empty() =~= actions_view(r@));
            assert(before + seq![want] =~= before.push(want));
            return r;
        }
        assert(before + (seq![want] + plan_from(sv, found@, fv, cv, ov, i + 1, st2)) =~= before.push(want)
            + plan_from(sv, found@, fv, cv, ov, i + 1, st2));
        i = i + 1;
    }
    assert(actions_view(r@) + Seq::<ActionView>::empty() =~= actions_view(r@));
    r
}

/// Every stage names an external command that the search found.
pub open spec fn all_external(stages: Seq<Seq<Seq<char>>>, found: Seq<bool>) -> bool {
    forall|k: int|
        0 <= k < stages.len() ==> (#[trigger] stages[k]).len() > 0 && !is_builtin_name(stages[k][0])
            && found[k]
}

/// The action of stage `k` of `n` in a chain of spawned stages.
pub open spec fn chained(a: ActionView, k: int, n: int, out: Option<(Seq<char>, bool)>) -> bool {
    match a {
        ActionView::Spawn(stdin, stdout) => {
            &&& (if k == 0 {
                stdin is Inherit
            } else {
                stdin is Previous
            })
            &&& (if k < n - 1 {
                stdout is Pipe
            } else {
                stdout == match out {
                    Some((path, append)) => OutView::File(path, append),
                    None => OutView::Inherit,
                }
            })
        },
        _ => false,
    }
}

proof fn lemma_chain_from(
    stages: Seq<Seq<Seq<char>>>,
    found: Seq<bool>,
    first_paths: Seq<Option<Seq<char>>>,
    cwd: Result<Seq<char>, Seq<char>>,
    out: Option<(Seq<char>, bool)>,
    i: int,
)
    requires
        0 <= i <= stages.len(),
        found.len() == stages.len(),
        all_external(stages, found),
    ensures
        ({
            let p = plan_from(stages, found, first_paths, cwd, out, i, PipeModel { piped: i > 0, seed: None });
            &&& p.len() == stages.len() - i
            &&& forall|k: int| 0 <= k < p.len() ==> chained(#[trigger] p[k], i + k, stages.len() as int, out)
        }),
    decreases stages.len() - i,
{
    if i < stages.len() {
        assert(stages[i].len() > 0 && !is_builtin_name(stages[i][0]) && found[i]);
        lemma_chain_from(stages, found, first_paths, cwd, out, i + 1);
        let n = stages.len() as int;
        let p = plan_from(stages, found, first_paths, cwd, out, i, PipeModel { piped: i > 0, seed: None });
        let q = plan_from(stages, found, first_paths, cwd, out, i + 1, PipeModel { piped: i + 1 > 0, seed: None });
        let (st2, a) = stage_step(
            PipeModel { piped: i > 0, seed: None },
            stages[i],
            i == n - 1,
            found[i],
            first_paths[i],
            cwd,
            out,
        );
        assert(a is Spawn);
        assert(p == seq![a] + plan_from(stages, found, first_paths, cwd, out, i + 1, st2));
        if i + 1 < n {
            assert(st2 == PipeModel { piped: true, seed: None });
        } else {
            assert(plan_from(stages, found, first_paths, cwd, out, i + 1, st2).len() == 0);
        }
        assert(chained(a, i, n, out));
        assert forall|k: int| 0 < k < p.len() implies p[k] == q[k - 1] by {}
        assert forall|k: int| 0 <= k < p.len() implies chained(#[trigger] p[k], i + k, stages.len() as int, out) by {
            if k > 0 {
                assert(p[k] == q[k - 1]);
                assert(chained(q[k - 1], i + 1 + (k - 1), stages.len() as int, out));
            }
        }
    }
}

/// A pipeline of external commands that were all found spawns one process
/// per stage, so the shell waits once per stage. The first reads the
/// terminal, every other one reads the stage before it; every stage but the
/// last writes to a pipe, and the last writes where the redirection says.
pub proof fn lemma_pipeline_spawns_every_stage(
    stages: Seq<Seq<Seq<char>>>,
    found: Seq<bool>,
    first_paths: Seq<Option<Seq<char>>>,
    cwd: Result<Seq<char>, Seq<char>>,
    out: Option<(Seq<char>, bool)>,
)
    requires
        found.len() == stages.len(),
        all_external(stages, found),
    ensures
        plan(stages, found, first_paths, cwd, out).len() == stages.len(),
        forall|k: int|
            0 <= k < stages.len() ==> chained(
                #[trigger] plan(stages, found, first_paths, cwd, out)[k],
                k,
                stages.len() as int,
                out,
            ),
{
    lemma_chain_from(stages, found, first_paths, cwd, out, 0);
}

} // verus!
