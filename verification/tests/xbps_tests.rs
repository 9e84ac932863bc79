use cargo_prod::xbps::{join_strings, xbps_template, XbpsPackage};

fn package() -> XbpsPackage {
    XbpsPackage {
        name: "cargo-prod".to_string(),
        version: "0.3.1".to_string(),
        description: "package your rust application".to_string(),
        authors: vec!["Ann <ann@example.org>".to_string(), "Bo".to_string()],
        license: "GPL-3.0".to_string(),
        homepage: "https://example.org".to_string(),
    }
}

#[test]
fn join_matches_std() {
    let v: Vec<String> = vec!["a".into(), "b".into(), "c".into()];
    assert_eq!(join_strings(&v, ","), v.join(","));
    assert_eq!(join_strings(&vec![], ","), "");
    assert_eq!(join_strings(&vec!["x".to_string()], ", "), "x");
}

#[test]
fn template_lines_in_order() {
    let t = xbps_template(&package(), &None, 1, "https://example.org/src.tar.gz", "abc123");
    assert_eq!(
        t,
        "pkgname=cargo-prod\nversion=0.3.1\nrevision=1\nshort_desc=package your rust application\nmaintainer=Ann <ann@example.org>,Bo\nlicense=GPL-3.0\nhomepage=https://example.org\ndistfiles=https://example.org/src.tar.gz\nchecksum=abc123\n"
    );
}

#[test]
fn template_prefers_deb_version_and_renders_negative_revision() {
    let t = xbps_template(&package(), &Some("9.9".to_string()), -2, "u", "c");
    assert!(t.contains("\nversion=9.9\n"));
    assert!(t.contains("\nrevision=-2\n"));
    assert_eq!(t.lines().count(), 9);
}
