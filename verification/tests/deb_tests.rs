use cargo_prod::cli::Args;
use cargo_prod::deb::{
    because_lines, debian_binary_member, failure_report, cli_options, error_headline, member_name, ratio_message, without_deb_flag,
    CliOptions, Compression, DebAction, DebEvent, DebPhase, DebRun, ListenerKind,
};

fn options(install: bool, quiet: bool, target: Option<&str>) -> CliOptions {
    let mut a = Args::default();
    a.install = install;
    a.quiet = quiet;
    a.target = target.map(String::from);
    cli_options(&a)
}

#[test]
fn options_handed_over_by_cargo_prod() {
    let mut a = Args::default();
    a.install = true;
    a.deb_version = Some("1.2".into());
    let o = cli_options(&a);
    assert!(o.no_build);
    assert!(o.fast, "an install allows the faster compression");
    assert_eq!(o.output_path.as_deref(), Some("target/package/"));
    assert_eq!(o.deb_version.as_deref(), Some("1.2"));
    assert!(o.cargo_build_flags.is_empty());
    let b = cli_options(&Args::default());
    assert!(!b.fast);
}

#[test]
fn leading_deb_flag_is_dropped() {
    let f = |v: &[&str]| v.iter().map(|s| s.to_string()).collect::<Vec<_>>();
    assert_eq!(without_deb_flag(f(&["deb", "--release"])), f(&["--release"]));
    assert_eq!(without_deb_flag(f(&["--release", "deb"])), f(&["--release", "deb"]));
    assert_eq!(without_deb_flag(f(&[])), f(&[]));
}

#[test]
fn member_names_and_ratio() {
    assert_eq!(member_name("control", Compression::Xz), "control.tar.xz");
    assert_eq!(member_name("data", Compression::Gzip), "data.tar.gz");
    assert_eq!(ratio_message(250, 1000), "compressed/original ratio 250/1000 (25%)");
    assert_eq!(ratio_message(999, 1000), "compressed/original ratio 999/1000 (99%)");
}

#[test]
fn failure_headline_and_causes() {
    assert_eq!(error_headline("boom"), "cargo-deb: boom");
    let causes: Vec<String> = (1..=6).map(|i| format!("c{}", i)).collect();
    let lines = because_lines(&causes, 3);
    assert_eq!(lines, vec!["  because: c1", "  because: c2", "  because: c3", "  because: c4"]);
    assert_eq!(because_lines(&causes[..2].to_vec(), 3).len(), 2);
    assert_eq!(because_lines(&causes, 0), vec!["  because: c1"]);
}

fn name_of(a: &DebAction) -> String {
    format!("{:?}", a).split(|c: char| !c.is_alphanumeric()).next().unwrap().to_string()
}

#[test]
fn full_run_in_debian_order() {
    let mut run = DebRun::new(options(false, false, None));
    let mut seen = Vec::new();
    let mut a = run.step(DebEvent::Proceed);
    loop {
        seen.push(name_of(&a));
        let event = match run.phase {
            DebPhase::LoadingConfig => {
                if let DebAction::LoadConfig { manifest_path, listener, output_path, .. } = &a {
                    assert_eq!(manifest_path, "Cargo.toml");
                    assert_eq!(*listener, ListenerKind::StdErr { verbose: false });
                    assert_eq!(output_path.as_deref(), Some("target/package/"));
                }
                DebEvent::ConfigLoaded { strip: true }
            }
            DebPhase::ReadingClock => DebEvent::ClockRead { time: 1_700_000_000 },
            DebPhase::GeneratingData => DebEvent::DataGenerated { original_size: 400 },
            DebPhase::CompressingArchives => DebEvent::ArchivesCompressed {
                control: Compression::Gzip,
                data: Compression::Xz,
                data_size: 100,
            },
            DebPhase::Done | DebPhase::Failed => break,
            _ => DebEvent::Proceed,
        };
        if let DebAction::Report { message } = &a {
            assert_eq!(message, "compressed/original ratio 100/400 (25%)");
        }
        a = run.step(event);
    }
    assert_eq!(
        seen,
        vec![
            "WarnIfNotLinux", "LoadConfig", "ResetTempDir", "ResolveAssets", "CompressAssets",
            "StripBinaries", "ReadClock", "OpenArchive", "AddDebianBinary", "GenerateData", "CompressArchives",
            "AddMember", "Report", "AddMember", "Finish", "PrintPath", "RemoveTempDir", "Exit",
        ]
    );
    assert!(matches!(a, DebAction::Exit { success: true }));
}

#[test]
fn members_named_by_their_compression() {
    let mut run = DebRun::new(options(false, true, Some("x86_64-unknown-linux-gnu")));
    let mut names = Vec::new();
    let mut a = run.step(DebEvent::Proceed);
    assert!(matches!(a, DebAction::LoadConfig { listener: ListenerKind::Silent, .. }));
    while run.phase != DebPhase::Done {
        match &a {
            DebAction::AddMember { name, time } => {
                assert_eq!(*time, 42);
                names.push(name.clone());
            }
            DebAction::AddDebianBinary { name, contents, time } => {
                assert_eq!(name, "debian-binary");
                assert_eq!(contents, b"2.0\n");
                assert_eq!(*time, 42);
            }
            DebAction::GenerateData { time } | DebAction::CompressArchives { time, .. } => {
                assert_eq!(*time, 42);
            }
            _ => {}
        }
        assert!(!matches!(a, DebAction::PrintPath), "quiet builds print nothing");
        let event = match run.phase {
            DebPhase::LoadingConfig => DebEvent::ConfigLoaded { strip: false },
            DebPhase::ReadingClock => DebEvent::ClockRead { time: 42 },
            DebPhase::GeneratingData => DebEvent::DataGenerated { original_size: 10 },
            DebPhase::CompressingArchives => DebEvent::ArchivesCompressed {
                control: Compression::Gzip,
                data: Compression::Xz,
                data_size: 3,
            },
            _ => DebEvent::Proceed,
        };
        assert!(!matches!(a, DebAction::StripBinaries { .. }));
        a = run.step(event);
    }
    assert_eq!(names, vec!["control.tar.gz", "data.tar.xz"]);
}

#[test]
fn failure_ends_the_build() {
    let mut run = DebRun::new(options(true, false, None));
    let a = run.step(DebEvent::Proceed);
    assert!(matches!(a, DebAction::WarnIfNotLinux));
    let a = run.step(DebEvent::Proceed);
    assert!(matches!(a, DebAction::LoadConfig { .. }));
    let a = run.step(DebEvent::Failed);
    assert!(matches!(a, DebAction::Exit { success: false }));
    assert_eq!(run.phase, DebPhase::Failed);
}

#[test]
fn install_runs_last() {
    let mut run = DebRun::new(options(true, true, None));
    let mut last = None;
    let mut a = run.step(DebEvent::Proceed);
    while !matches!(a, DebAction::Exit { .. }) {
        last = Some(name_of(&a));
        let event = match run.phase {
            DebPhase::LoadingConfig => DebEvent::ConfigLoaded { strip: false },
            DebPhase::ReadingClock => DebEvent::ClockRead { time: 7 },
            DebPhase::GeneratingData => DebEvent::DataGenerated { original_size: 1 },
            DebPhase::CompressingArchives => DebEvent::ArchivesCompressed {
                control: Compression::Xz,
                data: Compression::Xz,
                data_size: 1,
            },
            _ => DebEvent::Proceed,
        };
        a = run.step(event);
    }
    assert_eq!(last.as_deref(), Some("Install"));
}

#[test]
fn build_flags_without_deb() {
    let mut o = options(false, false, None);
    o.no_build = false;
    o.cargo_build_flags = vec!["deb".into(), "--locked".into()];
    let mut run = DebRun::new(o);
    let mut a = run.step(DebEvent::Proceed);
    loop {
        if let DebAction::Build { flags, .. } = &a {
            assert_eq!(flags, &vec!["--locked".to_string()]);
            break;
        }
        let event = match run.phase {
            DebPhase::LoadingConfig => DebEvent::ConfigLoaded { strip: false },
            _ => DebEvent::Proceed,
        };
        a = run.step(event);
    }
}

#[test]
fn debian_binary_and_failure_report() {
    let (name, contents) = debian_binary_member();
    assert_eq!(name, "debian-binary");
    assert_eq!(contents, b"2.0\n".to_vec());
    let causes: Vec<String> = (1..=5).map(|i| format!("c{}", i)).collect();
    assert_eq!(
        failure_report("boom", &causes),
        vec!["cargo-deb: boom", "  because: c1", "  because: c2", "  because: c3", "  because: c4"]
    );
    assert_eq!(failure_report("x", &vec![]), vec!["cargo-deb: x"]);
}
