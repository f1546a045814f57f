use minishell::pipeline::{plan_pipeline, split_pipeline, StageAction, StdinFrom, StdoutTo};
use minishell::redirect::Target;

fn strings(v: &[&str]) -> Vec<String> {
    v.iter().map(|s| s.to_string()).collect()
}

fn cwd() -> Result<String, String> {
    Ok("/work".to_string())
}

#[test]
fn split_on_bars() {
    let stages = split_pipeline(&strings(&["echo", "abc", "|", "wc", "-c"]));
    assert_eq!(stages, vec![strings(&["echo", "abc"]), strings(&["wc", "-c"])]);
    assert_eq!(split_pipeline(&strings(&["ls"])), vec![strings(&["ls"])]);
    assert_eq!(split_pipeline(&vec![]), vec![Vec::<String>::new()]);
    assert_eq!(split_pipeline(&strings(&["a", "|"])), vec![strings(&["a"]), vec![]]);
}

#[test]
fn builtin_output_seeds_next_stage() {
    let stages = split_pipeline(&strings(&["echo", "abc", "|", "wc", "-c"]));
    let plan = plan_pipeline(&stages, &vec![false, true], &vec![None, None], &cwd(), &None);
    assert_eq!(
        plan,
        vec![
            StageAction::Hold("abc\n".to_string()),
            StageAction::Spawn(StdinFrom::Seed("abc\n".to_string()), StdoutTo::Inherit),
        ]
    );
}

#[test]
fn external_stages_are_chained() {
    let stages = vec![strings(&["cat", "f"]), strings(&["sort"]), strings(&["uniq"])];
    let plan = plan_pipeline(&stages, &vec![true, true, true], &vec![None, None, None], &cwd(), &None);
    assert_eq!(
        plan,
        vec![
            StageAction::Spawn(StdinFrom::Inherit, StdoutTo::Pipe),
            StageAction::Spawn(StdinFrom::Previous, StdoutTo::Pipe),
            StageAction::Spawn(StdinFrom::Previous, StdoutTo::Inherit),
        ]
    );
    let spawned = plan.iter().filter(|a| matches!(a, StageAction::Spawn(_, _))).count();
    assert_eq!(spawned, stages.len());
}

#[test]
fn last_stage_writes_redirect_target() {
    let out = Some(Target { path: "o.txt".to_string(), append: true });
    let stages = vec![strings(&["cat", "f"]), strings(&["sort"])];
    let plan = plan_pipeline(&stages, &vec![true, true], &vec![None, None], &cwd(), &out);
    assert_eq!(plan[1], StageAction::Spawn(StdinFrom::Previous, StdoutTo::File(out.clone().unwrap())));
    let stages = vec![strings(&["ls"]), strings(&["pwd"])];
    let plan = plan_pipeline(&stages, &vec![true, false], &vec![None, None], &cwd(), &out);
    assert_eq!(plan[1], StageAction::Write(out.unwrap(), "/work\n".to_string()));
}

#[test]
fn last_builtin_is_shown() {
    let stages = vec![strings(&["ls"]), strings(&["type", "echo"])];
    let plan = plan_pipeline(&stages, &vec![true, false], &vec![None, None], &cwd(), &None);
    assert_eq!(plan[1], StageAction::Show("echo is a shell builtin\n".to_string()));
}

#[test]
fn missing_command_stops_the_pipeline() {
    let stages = vec![strings(&["nosuch"]), strings(&["wc"])];
    let plan = plan_pipeline(&stages, &vec![false, true], &vec![None, None], &cwd(), &None);
    assert_eq!(plan, vec![StageAction::NotFound("nosuch: command not found\n".to_string())]);
}

#[test]
fn cd_and_exit_are_skipped() {
    let stages = vec![strings(&["cd", "/"]), strings(&["exit"]), strings(&["ls"])];
    let plan = plan_pipeline(&stages, &vec![false, false, true], &vec![None, None, None], &cwd(), &None);
    assert_eq!(
        plan,
        vec![
            StageAction::Unsupported("cd: cannot run in a pipeline\n".to_string()),
            StageAction::Unsupported("exit: cannot run in a pipeline\n".to_string()),
            StageAction::Spawn(StdinFrom::Inherit, StdoutTo::Inherit),
        ]
    );
}

#[test]
fn empty_stage_is_skipped() {
    let stages = vec![strings(&["ls"]), vec![]];
    let plan = plan_pipeline(&stages, &vec![true, false], &vec![None, None], &cwd(), &None);
    assert_eq!(plan, vec![StageAction::Spawn(StdinFrom::Inherit, StdoutTo::Pipe), StageAction::Skip]);
}
