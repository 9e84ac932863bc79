use cargo_prod::appimage::{
    appimage_settings, binary_plan, bin_name, binary_path, build_dir, built_appimage_name,
    desktop_entry, icon_step, join_path, lib_link_path, linked_libraries, packaged_appimage_path, table_get,
    target_release_dir, without_first_char, IconStep, MetaValue,
};

fn table(entries: Vec<(&str, MetaValue)>) -> MetaValue {
    MetaValue::Table(entries.into_iter().map(|(k, v)| (k.to_string(), v)).collect())
}

#[test]
fn settings_from_metadata() {
    let meta = Some(table(vec![(
        "appimage",
        table(vec![
            (
                "assets",
                MetaValue::Array(vec![
                    MetaValue::Str("res".into()),
                    MetaValue::Bool(true),
                    MetaValue::Str("README.md".into()),
                ]),
            ),
            ("auto_link", MetaValue::Bool(true)),
        ]),
    )]));
    let s = appimage_settings(&meta);
    assert_eq!(s.assets, vec!["res".to_string(), "README.md".to_string()]);
    assert!(s.auto_link);
}

#[test]
fn settings_default_when_absent_or_mistyped() {
    let s = appimage_settings(&None);
    assert!(s.assets.is_empty() && !s.auto_link);
    let s = appimage_settings(&Some(MetaValue::Str("x".into())));
    assert!(s.assets.is_empty() && !s.auto_link);
    let meta = Some(table(vec![(
        "appimage",
        table(vec![("assets", MetaValue::Str("res".into())), ("auto_link", MetaValue::Other)]),
    )]));
    let s = appimage_settings(&meta);
    assert!(s.assets.is_empty() && !s.auto_link);
    let meta = Some(table(vec![("other", table(vec![("auto_link", MetaValue::Bool(true))]))]));
    assert!(!appimage_settings(&meta).auto_link);
}

#[test]
fn table_lookup_takes_the_first_match() {
    let entries = vec![
        ("a".to_string(), MetaValue::Bool(false)),
        ("b".to_string(), MetaValue::Bool(true)),
    ];
    assert!(matches!(table_get(&entries, "b"), Some(MetaValue::Bool(true))));
    assert!(table_get(&entries, "c").is_none());
}

fn bytes(args: &[&str]) -> Vec<Vec<u8>> {
    args.iter().map(|a| a.as_bytes().to_vec()).collect()
}

#[test]
fn target_from_command_line() {
    let dir = target_release_dir(&bytes(&["cargo-prod", "prod", "--target=x86_64-unknown-linux-musl"]));
    assert_eq!(dir, Some(b"x86_64-unknown-linux-musl/release".to_vec()));
    assert_eq!(target_release_dir(&bytes(&["cargo-prod", "prod", "-t", "deb"])), None);
    // The program and subcommand names are not looked at.
    assert_eq!(target_release_dir(&bytes(&["--target=a", "--target=b"])), None);
    // The first matching argument wins, cut after its ninth byte wherever the flag stands.
    let dir = target_release_dir(&bytes(&["p", "s", "ab--target=x", "--target=y"]));
    assert_eq!(dir, Some(b"t=x/release".to_vec()));
    assert_eq!(target_release_dir(&bytes(&["p", "s", "--target="])), Some(b"/release".to_vec()));
}

#[test]
fn icon_decisions() {
    assert!(matches!(icon_step(&Some("logo.png".into()), true), IconStep::Conflict));
    assert!(matches!(icon_step(&Some("logo.png".into()), false), IconStep::Copy(f) if f == "logo.png"));
    assert!(matches!(icon_step(&None, true), IconStep::CreateEmpty));
}

#[test]
fn file_names() {
    assert_eq!(bin_name(&None, &"pkg".to_string()), "pkg");
    assert_eq!(bin_name(&Some("tool".into()), &"pkg".to_string()), "tool");
    assert_eq!(build_dir(&None), "release");
    assert_eq!(build_dir(&Some("musl/release".into())), "musl/release");
    assert_eq!(binary_path("release", "tool"), "target/release/tool");
    assert_eq!(built_appimage_name("tool", "1.0.0", "x86_64"), "tool-1.0.0-x86_64.AppImage");
    assert_eq!(packaged_appimage_path("tool"), "target/package/tool.AppImage");
}

#[test]
fn desktop_entry_names_the_binary() {
    assert_eq!(
        desktop_entry("tool"),
        "[Desktop Entry]\nName=tool\nExec=bin\nIcon=icon\nType=Application\nCategories=Utility;"
    );
}

#[test]
fn libraries_from_listing() {
    let listing = "linux-vdso.so.1\n/lib/x86_64-linux-gnu/libc.so.6\r\n\n/lib64/ld-linux-x86-64.so.2";
    assert_eq!(
        linked_libraries(listing),
        vec!["/lib/x86_64-linux-gnu/libc.so.6".to_string(), "/lib64/ld-linux-x86-64.so.2".to_string()]
    );
    assert!(linked_libraries("").is_empty());
    assert_eq!(without_first_char("/lib/libc.so.6"), "lib/libc.so.6");
}

#[test]
fn paths_join_like_std() {
    for (base, rest) in [("target/", "tool.AppDir"), ("libs", "lib/libc.so.6"), ("libs", "/abs"), ("", "x"), ("libs", ""), ("a/", "")] {
        let expected = std::path::Path::new(base).join(rest);
        assert_eq!(join_path(base, rest), expected.to_str().unwrap(), "{:?} + {:?}", base, rest);
    }
    assert_eq!(lib_link_path("/lib/libc.so.6"), "libs/lib/libc.so.6");
}

#[test]
fn plan_of_one_binary() {
    let plan = binary_plan(&None, &"tool".to_string(), "release", "1.2.3", "x86_64");
    assert_eq!(plan.name, "tool");
    assert_eq!(plan.app_dir, "target/tool.AppDir");
    assert_eq!(plan.binary, "target/release/tool");
    assert_eq!(plan.built, "tool-1.2.3-x86_64.AppImage");
    assert_eq!(plan.packaged, "target/package/tool.AppImage");
    assert!(plan.desktop_entry.contains("\nName=tool\n"));
    let plan = binary_plan(&Some("other".into()), &"tool".to_string(), "musl/release", "1", "aarch64");
    assert_eq!(plan.app_dir, "target/other.AppDir");
    assert_eq!(plan.binary, "target/musl/release/other");
}
