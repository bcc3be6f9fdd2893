use ghwf::convert::{build_and_swap, report, resolve, siblings, Facts, Step};

fn facts() -> Facts {
    Facts {
        inside: true,
        top: "/src/proj".to_string(),
        git_is_file: false,
        backup_exists: false,
        temp_exists: false,
        url: Ok("https://github.com/o/proj.git".to_string()),
    }
}

#[test]
fn a_plain_clone_can_be_converted() {
    let plan = resolve("/src/proj/deep", &facts()).ok().unwrap();
    assert_eq!(plan.top, "/src/proj");
    assert_eq!(plan.url, "https://github.com/o/proj.git");
    assert_eq!(plan.name, "proj");
    assert_eq!(plan.backup, "/src/proj.pre-ghwf");
    assert_eq!(plan.temp, "/src/proj.ghwf-converting");
    let text = report(&plan, Some("main"));
    assert!(text.starts_with("Converted `/src/proj` into ghwf's preferred layout:\n- `proj.git`"));
    assert!(text.contains("preserved at `/src/proj.pre-ghwf`"));
}

#[test]
fn what_cannot_be_converted_says_why() {
    let why = |f: Facts| resolve("/x", &f).err().unwrap();
    assert!(why(Facts { inside: false, ..facts() }).starts_with("`/x` is not inside an ordinary"));
    assert!(why(Facts { git_is_file: true, ..facts() }).contains("linked worktree or submodule"));
    assert!(why(Facts { top: "/".to_string(), ..facts() }).contains("no directory name"));
    assert_eq!(
        why(Facts { backup_exists: true, ..facts() }),
        "backup path `/src/proj.pre-ghwf` already exists; move it aside first"
    );
    assert_eq!(
        why(Facts { temp_exists: true, ..facts() }),
        "scratch path `/src/proj.ghwf-converting` already exists; move it aside first"
    );
    assert!(why(Facts { url: Err("no such remote".to_string()), ..facts() })
        .ends_with("does this clone have one?: no such remote"));
    assert!(siblings("/").is_none());
    assert_eq!(siblings("/proj").unwrap().backup, "/proj.pre-ghwf");
}

/// The steps taken from the start, with `fails` failing.
fn steps(fails: Option<Step>, relinks: bool) -> Vec<Step> {
    let mut step = Step::CreateScratch;
    let mut taken = vec![step];
    while step != Step::Done && step != Step::Failed {
        step = build_and_swap(step, Some(step) != fails, relinks);
        taken.push(step);
    }
    taken
}

#[test]
fn the_layout_is_built_before_anything_moves() {
    assert_eq!(
        steps(None, true),
        [
            Step::CreateScratch,
            Step::Build,
            Step::MoveAside,
            Step::MoveIn,
            Step::Relink,
            Step::Done
        ]
    );
    assert_eq!(steps(None, false).last(), Some(&Step::Done));
    assert!(!steps(None, false).contains(&Step::Relink));
}

#[test]
fn a_failed_conversion_is_rolled_back() {
    assert_eq!(
        steps(Some(Step::Build), true),
        [Step::CreateScratch, Step::Build, Step::ClearScratch, Step::Failed]
    );
    assert_eq!(
        steps(Some(Step::MoveIn), true),
        [
            Step::CreateScratch,
            Step::Build,
            Step::MoveAside,
            Step::MoveIn,
            Step::PutBack,
            Step::ClearScratch,
            Step::Failed
        ]
    );
}

#[test]
fn a_failed_tidying_up_still_ends() {
    // The scratch cannot be cleared, or the clone not be put back: the conversion ends.
    for failing in [Step::CreateScratch, Step::MoveAside, Step::Relink] {
        let taken = steps(Some(failing), true);
        assert!(taken.len() <= 7, "{taken:?}");
    }
    assert_eq!(build_and_swap(Step::ClearScratch, false, true), Step::Failed);
}
