//! The xbps build template (`target/package/template`).
use vstd::prelude::*;

use crate::text::{i64_to_decimal, spec_signed_decimal};

verus! {

/// What the xbps template takes from the `[package]` table of Cargo.toml.
pub struct XbpsPackage {
    pub name: String,
    pub version: String,
    pub description: String,
    pub authors: Vec<String>,
    pub license: String,
    pub homepage: String,
}

/// The strings of `list` with `sep` between each two of them.
pub open spec fn spec_join(list: Seq<Seq<char>>, sep: Seq<char>) -> Seq<char>
    decreases list.len(),
{
    if list.len() == 0 {
        Seq::empty()
    } else if list.len() == 1 {
        list[0]
    } else {
        spec_join(list.drop_last(), sep) + sep + list.last()
    }
}

/// Joining a list that starts with `x` puts `x` and a separator in front of
/// the join of the rest.
pub proof fn lemma_join_prepend(x: Seq<char>, list: Seq<Seq<char>>, sep: Seq<char>)
    requires
        list.len() > 0,
    ensures
        spec_join(seq![x] + list, sep) == x + sep + spec_join(list, sep),
    decreases list.len(),
{
    let whole = seq![x] + list;
    assert(whole.last() == list.last());
    if list.len() == 1 {
        assert(whole.drop_last() =~= seq![x]);
        assert(whole.len() == 2);
        assert(spec_join(seq![x], sep) == x);
        assert(spec_join(whole, sep) == spec_join(whole.drop_last(), sep) + sep + whole.last());
        assert(spec_join(whole, sep) == x + sep + list[0]);
    } else {
        lemma_join_prepend(x, list.drop_last(), sep);
        assert(whole.drop_last() =~= seq![x] + list.drop_last());
        let j = spec_join(list.drop_last(), sep);
        assert(spec_join(whole, sep) == (x + sep + j) + sep + list.last());
        assert(spec_join(list, sep) == j + sep + list.last());
        assert((x + sep + j) + sep + list.last() =~= x + sep + (j + sep + list.last()));
    }
}

/// Joining: nothing for no strings, the string itself for one, and for
/// more the first string, the separator and the join of the others.
pub proof fn lemma_join_laws(list: Seq<Seq<char>>, sep: Seq<char>)
    ensures
        list.len() == 0 ==> spec_join(list, sep) == Seq::<char>::empty(),
        list.len() == 1 ==> spec_join(list, sep) == list[0],
        list.len() > 1 ==> spec_join(list, sep) == list[0] + sep + spec_join(list.drop_first(), sep),
{
    if list.len() > 1 {
        lemma_join_prepend(list[0], list.drop_first(), sep);
        assert(seq![list[0]] + list.drop_first() =~= list);
    }
}

/// Joins strings with a separator, as `[String]::join` does.
pub fn join_strings(list: &Vec<String>, sep: &str) -> (res: String)
    ensures
        res@ == spec_join(list.deep_view(), sep@),
{
    let mut res = String::new();
    let ghost dv = list.deep_view();
    let n = list.len();
    let mut i: usize = 0;
    while i < n
        invariant
            n == list.len(),
            dv == list.deep_view(),
            i <= n,
            res@ == spec_join(dv.take(i as int), sep@),
        decreases n - i,
    {
        if i != 0 {
            res.append(sep);
        }
        res.append(list[i].as_str());
        proof {
            assert(dv.take(i + 1).drop_last() =~= dv.take(i as int));
            if i == 0 {
                assert(res@ =~= dv.take(1)[0]);
            }
        }
        i += 1;
    }
    proof {
        assert(dv.take(n as int) =~= dv);
    }
    res
}

/// One `key=value` line of the template.
pub open spec fn template_line(key: Seq<char>, value: Seq<char>) -> Seq<char> {
    key + "="@ + value + "\n"@
}

/// The xbps template: the lines `pkgname`, `version`, `revision`,
/// `short_desc`, `maintainer` (the authors joined by `,`), `license`,
/// `homepage`, `distfiles` and `checksum`, in that order.
pub open spec fn spec_xbps_template(
    pkg: XbpsPackage,
    version: Seq<char>,
    revision: int,
    distfiles: Seq<char>,
    checksum: Seq<char>,
) -> Seq<char> {
    template_line("pkgname"@, pkg.name@)
        + template_line("version"@, version)
        + template_line("revision"@, spec_signed_decimal(revision))
        + template_line("short_desc"@, pkg.description@)
        + template_line("maintainer"@, spec_join(pkg.authors.deep_view(), ","@))
        + template_line("license"@, pkg.license@)
        + template_line("homepage"@, pkg.homepage@)
        + template_line("distfiles"@, distfiles)
        + template_line("checksum"@, checksum)
}

/// The version written into the template: the one given for the Debian
/// package when there is one, else the crate's version.
pub open spec fn template_version(pkg: XbpsPackage, deb_version: Option<String>) -> Seq<char> {
    match deb_version {
        Some(v) => v@,
        None => pkg.version@,
    }
}

/// The template in full: `pkgname=`, `version=`, `revision=`,
/// `short_desc=`, `maintainer=`, `license=`, `homepage=`, `distfiles=` and
/// `checksum=` lines, in that order, each ending with a newline; the version
/// is the Debian version when one is given.
pub proof fn lemma_template_text(
    pkg: XbpsPackage,
    deb_version: Option<String>,
    revision: int,
    distfiles: Seq<char>,
    checksum: Seq<char>,
)
    ensures
        spec_xbps_template(pkg, template_version(pkg, deb_version), revision, distfiles, checksum)
            == "pkgname="@ + pkg.name@ + "\n"@ + "version="@ + (match deb_version {
            Some(v) => v@,
            None => pkg.version@,
        }) + "\n"@ + "revision="@ + spec_signed_decimal(revision) + "\n"@ + "short_desc="@
            + pkg.description@ + "\n"@ + "maintainer="@ + spec_join(pkg.authors.deep_view(), ","@)
            + "\n"@ + "license="@ + pkg.license@ + "\n"@ + "homepage="@ + pkg.homepage@ + "\n"@
            + "distfiles="@ + distfiles + "\n"@ + "checksum="@ + checksum + "\n"@,
{
    reveal_strlit("pkgname");
    reveal_strlit("pkgname=");
    reveal_strlit("version");
    reveal_strlit("version=");
    reveal_strlit("revision");
    reveal_strlit("revision=");
    reveal_strlit("short_desc");
    reveal_strlit("short_desc=");
    reveal_strlit("maintainer");
    reveal_strlit("maintainer=");
    reveal_strlit("license");
    reveal_strlit("license=");
    reveal_strlit("homepage");
    reveal_strlit("homepage=");
    reveal_strlit("distfiles");
    reveal_strlit("distfiles=");
    reveal_strlit("checksum");
    reveal_strlit("checksum=");
    reveal_strlit("=");
    assert(spec_xbps_template(pkg, template_version(pkg, deb_version), revision, distfiles, checksum)
        =~= "pkgname="@ + pkg.name@ + "\n"@ + "version="@ + (match deb_version {
        Some(v) => v@,
        None => pkg.version@,
    }) + "\n"@ + "revision="@ + spec_signed_decimal(revision) + "\n"@ + "short_desc="@
        + pkg.description@ + "\n"@ + "maintainer="@ + spec_join(pkg.authors.deep_view(), ","@)
        + "\n"@ + "license="@ + pkg.license@ + "\n"@ + "homepage="@ + pkg.homepage@ + "\n"@
        + "distfiles="@ + distfiles + "\n"@ + "checksum="@ + checksum + "\n"@);
}

fn append_line(out: &mut String, key: &str, value: &str)
    ensures
        final(out)@ == old(out)@ + template_line(key@, value@),
{
    let eq = "=";
    let nl = "\n";
    out.append(key);
    out.append(eq);
    out.append(value);
    out.append(nl);
    proof {
        assert(final(out)@ =~= old(out)@ + template_line(key@, value@));
    }
}

/// Writes the xbps template for a package. `distfiles` is the URL of the
/// source archive and `checksum` its SHA-256 sum.
pub fn xbps_template(
    pkg: &XbpsPackage,
    deb_version: &Option<String>,
    revision: i32,
    distfiles: &str,
    checksum: &str,
) -> (t: String)
    ensures
        t@ == spec_xbps_template(
            *pkg,
            template_version(*pkg, *deb_version),
            revision as int,
            distfiles@,
            checksum@,
        ),
{
    let mut t = String::new();
    append_line(&mut t, "pkgname", pkg.name.as_str());
    let version: &String = match deb_version {
        Some(v) => v,
        None => &pkg.version,
    };
    append_line(&mut t, "version", version.as_str());
    let rev = i64_to_decimal(revision as i64);
    append_line(&mut t, "revision", rev.as_str());
    append_line(&mut t, "short_desc", pkg.description.as_str());
    let maintainer = join_strings(&pkg.authors, ",");
    append_line(&mut t, "maintainer", maintainer.as_str());
    append_line(&mut t, "license", pkg.license.as_str());
    append_line(&mut t, "homepage", pkg.homepage.as_str());
    append_line(&mut t, "distfiles", distfiles);
    append_line(&mut t, "checksum", checksum);
    proof {
        assert(t@ =~= spec_xbps_template(
            *pkg,
            template_version(*pkg, *deb_version),
            revision as int,
            distfiles@,
            checksum@,
        ));
    }
    t
}

} // verus!
