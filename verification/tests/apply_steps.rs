use specprobe::apply::{apply_patch, apply_step, ApplyAction, ApplyOptions, ApplyStage};
use specprobe::patch::GeneratedPatch;

fn args(action: &ApplyAction) -> Vec<String> {
    match action {
        ApplyAction::RunGit(command) => command.args.clone(),
        ApplyAction::Finished(result) => panic!("finished early: {result:?}"),
    }
}

fn patch() -> GeneratedPatch {
    GeneratedPatch {
        issue_id: "ISSUE-001".to_owned(),
        target_files: vec!["public/app.js".to_owned()],
        diff: "--- a/public/app.js\n+++ b/public/app.js\n".to_owned(),
    }
}

/// Runs the procedure up to the final checkout of the original branch.
fn up_to_restore() -> specprobe::apply::ApplyMachine {
    let (mut m, a) = apply_patch("/tmp/project", &patch(), &ApplyOptions { allow_dirty: false });
    assert_eq!(args(&a), vec!["rev-parse", "--is-inside-work-tree"]);
    let replies: Vec<(Result<String, String>, Vec<&str>)> = vec![
        (Ok("true\n".to_owned()), vec!["rev-parse", "--abbrev-ref", "HEAD"]),
        (Ok("main\n".to_owned()), vec!["status", "--porcelain"]),
        (Ok(String::new()), vec!["rev-parse", "--verify", "refs/heads/specprobe/fix-issue-001"]),
        (Err("fatal: not a valid ref".to_owned()), vec!["checkout", "-b", "specprobe/fix-issue-001"]),
        (Ok(String::new()), vec!["apply", "--recount", "--index", "-"]),
        (Ok(String::new()), vec!["commit", "-m", "fix(ISSUE-001): apply specprobe-generated patch"]),
        (Ok(String::new()), vec!["rev-parse", "--short", "HEAD"]),
        (Ok("abc1234\n".to_owned()), vec!["checkout", "main"]),
    ];
    for (reply, expected) in replies {
        let a = apply_step(&mut m, reply);
        assert_eq!(args(&a), expected);
    }
    assert_eq!(m.stage, ApplyStage::Restore);
    m
}

#[test]
fn successful_apply_restores_the_original_branch() {
    let mut m = up_to_restore();
    match apply_step(&mut m, Ok(String::new())) {
        ApplyAction::Finished(Ok(outcome)) => {
            assert_eq!(outcome.branch, "specprobe/fix-issue-001");
            assert_eq!(outcome.restored_branch, "main");
            assert_eq!(outcome.commit, "abc1234");
        }
        other => panic!("unexpected {other:?}"),
    }
}

#[test]
fn failed_final_checkout_rolls_back_the_fix_branch() {
    let mut m = up_to_restore();
    let a = apply_step(&mut m, Err("error: cannot checkout".to_owned()));
    assert_eq!(args(&a), vec!["checkout", "--force", "main"]);
    let a = apply_step(&mut m, Ok(String::new()));
    assert_eq!(args(&a), vec!["branch", "-D", "specprobe/fix-issue-001"]);
    match apply_step(&mut m, Ok(String::new())) {
        ApplyAction::Finished(Err(e)) => {
            assert_eq!(e.message(), "git checkout restore failed: error: cannot checkout")
        }
        other => panic!("unexpected {other:?}"),
    }
}
