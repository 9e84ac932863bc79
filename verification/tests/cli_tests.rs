use cargo_prod::cli::{packager_for, plan_steps, Args, Packager, Step};

fn args_with(targets: Option<Vec<&str>>) -> Args {
    let mut a = Args::default();
    a.targets = targets.map(|v| v.into_iter().map(String::from).collect());
    a
}

#[test]
fn default_args() {
    let a = Args::default();
    assert_eq!(a.revision, 1);
    assert!(a.targets.is_none());
    assert!(!a.install && !a.fast && !a.quiet);
}

#[test]
fn target_names_select_packagers() {
    assert_eq!(packager_for(&"deb".to_string(), true, false), Some(Packager::Deb));
    assert_eq!(packager_for(&"appimage".to_string(), true, false), Some(Packager::AppImage));
    assert_eq!(packager_for(&"aur".to_string(), true, false), Some(Packager::Aur));
    assert_eq!(packager_for(&"xbps".to_string(), true, false), None);
    assert_eq!(packager_for(&"xbps".to_string(), true, true), Some(Packager::Xbps));
    assert_eq!(packager_for(&"rpm".to_string(), true, true), None);
    assert_eq!(packager_for(&"Deb".to_string(), true, true), None);
    assert_eq!(packager_for(&"deb".to_string(), false, true), None);
}

#[test]
fn requested_targets_keep_their_order() {
    let steps = plan_steps(&args_with(Some(vec!["appimage", "rpm", "deb"])), true, false);
    assert_eq!(steps.len(), 3);
    assert!(matches!(steps[0], Step::Package(Packager::AppImage)));
    assert!(matches!(&steps[1], Step::Invalid(n) if n == "rpm"));
    assert!(matches!(steps[2], Step::Package(Packager::Deb)));
}

#[test]
fn no_target_runs_every_packager() {
    let steps = plan_steps(&args_with(None), true, false);
    let kinds: Vec<Packager> = steps
        .iter()
        .map(|s| match s {
            Step::Package(p) => *p,
            Step::Invalid(_) => panic!("unexpected invalid step"),
        })
        .collect();
    assert_eq!(kinds, vec![Packager::Deb, Packager::Aur, Packager::AppImage]);
    let steps = plan_steps(&args_with(None), false, true);
    assert_eq!(steps.len(), 4);
    assert!(matches!(steps[2], Step::Package(Packager::Xbps)));
}

#[test]
fn targets_off_linux_are_invalid() {
    let steps = plan_steps(&args_with(Some(vec!["deb"])), false, false);
    assert!(matches!(&steps[0], Step::Invalid(n) if n == "deb"));
}

#[test]
fn empty_target_list_runs_nothing() {
    assert!(plan_steps(&args_with(Some(vec![])), true, true).is_empty());
}
