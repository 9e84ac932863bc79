//! The command line of `cargo prod` and the choice of packagers it selects.
use vstd::prelude::*;

verus! {

/// The top-level command line: `cargo prod ...`.
pub struct Cli {
    pub command: Commands,
}

/// The subcommands of the top-level command line.
pub enum Commands {
    Prod(Args),
}

/// The options of `cargo prod`.
pub struct Args {
    /// The packagers to run, by name; all of them when absent.
    pub targets: Option<Vec<String>>,
    pub musl: bool,
    pub no_build: bool,
    pub no_strip: bool,
    pub separate_debug_symbols: bool,
    pub quiet: bool,
    pub verbose: bool,
    pub install: bool,
    pub fast: bool,
    /// The package revision written into the xbps template.
    pub revision: i32,
    pub variant: Option<String>,
    pub target: Option<String>,
    pub package_name: Option<String>,
    pub manifest_path: Option<String>,
    pub deb_version: Option<String>,
    /// Location of the icon file used for the AppImage.
    pub icon_file: Option<String>,
}

impl Default for Args {
    /// The options when nothing is given on the command line: no flag set,
    /// no value given, revision 1.
    fn default() -> (a: Args)
        ensures
            a.targets is None,
            !a.musl && !a.no_build && !a.no_strip && !a.separate_debug_symbols,
            !a.quiet && !a.verbose && !a.install && !a.fast,
            a.revision == 1,
            a.variant is None && a.target is None && a.package_name is None,
            a.manifest_path is None && a.deb_version is None && a.icon_file is None,
    {
        Args {
            targets: None,
            musl: false,
            no_build: false,
            no_strip: false,
            separate_debug_symbols: false,
            quiet: false,
            verbose: false,
            install: false,
            fast: false,
            revision: 1,
            variant: None,
            target: None,
            package_name: None,
            manifest_path: None,
            deb_version: None,
            icon_file: None,
        }
    }
}

/// The kinds of package that `cargo prod` can produce.
#[derive(Clone, Copy, Debug, PartialEq, Eq, Structural)]
pub enum Packager {
    AppImage,
    Deb,
    Aur,
    Xbps,
}

/// One step of a `cargo prod` run: run a packager, or report a requested
/// target name that is not a valid target.
#[derive(Debug)]
pub enum Step {
    Package(Packager),
    Invalid(String),
}

/// The packager that a target name selects. Packagers exist on Linux only,
/// and xbps only where it was enabled.
pub open spec fn spec_packager_for(name: Seq<char>, on_linux: bool, xbps_enabled: bool) -> Option<
    Packager,
> {
    if !on_linux {
        None
    } else if name == "appimage"@ {
        Some(Packager::AppImage)
    } else if name == "deb"@ {
        Some(Packager::Deb)
    } else if name == "aur"@ {
        Some(Packager::Aur)
    } else if name == "xbps"@ && xbps_enabled {
        Some(Packager::Xbps)
    } else {
        None
    }
}

/// The step that a requested target name gives.
pub open spec fn step_for_name(step: Step, name: Seq<char>, on_linux: bool, xbps_enabled: bool) -> bool {
    match spec_packager_for(name, on_linux, xbps_enabled) {
        Some(p) => step == Step::Package(p),
        None => step matches Step::Invalid(n) && n@ == name,
    }
}

/// The packagers run when no target is requested, in their order.
pub open spec fn default_packagers(xbps_enabled: bool) -> Seq<Packager> {
    if xbps_enabled {
        seq![Packager::Deb, Packager::Aur, Packager::Xbps, Packager::AppImage]
    } else {
        seq![Packager::Deb, Packager::Aur, Packager::AppImage]
    }
}

/// The target name of each packager.
pub open spec fn packager_name(p: Packager) -> Seq<char> {
    match p {
        Packager::AppImage => "appimage"@,
        Packager::Deb => "deb"@,
        Packager::Aur => "aur"@,
        Packager::Xbps => "xbps"@,
    }
}

/// A name selects a packager exactly when it is that packager's target
/// name, the host is Linux, and, for xbps, xbps is enabled; any other name
/// selects nothing.
pub proof fn lemma_packager_names(name: Seq<char>, on_linux: bool, xbps_enabled: bool, p: Packager)
    ensures
        spec_packager_for(name, on_linux, xbps_enabled) == Some(p) <==> (on_linux && name
            == packager_name(p) && (p == Packager::Xbps ==> xbps_enabled)),
        spec_packager_for(name, on_linux, xbps_enabled) is None <==> (!on_linux || (name
            != "appimage"@ && name != "deb"@ && name != "aur"@ && (name != "xbps"@
            || !xbps_enabled))),
{
    reveal_strlit("appimage");
    reveal_strlit("deb");
    reveal_strlit("aur");
    reveal_strlit("xbps");
    assert("appimage"@.len() != "deb"@.len());
    assert("appimage"@.len() != "aur"@.len());
    assert("appimage"@.len() != "xbps"@.len());
    assert("deb"@.len() != "xbps"@.len());
    assert("aur"@.len() != "xbps"@.len());
    assert("deb"@[0] != "aur"@[0]);
}

/// A requested name gives a run of the packager it names, or, when it names
/// none (or none available here), a report of that very name.
pub proof fn lemma_step_for_name(step: Step, name: Seq<char>, on_linux: bool, xbps_enabled: bool)
    requires
        step_for_name(step, name, on_linux, xbps_enabled),
    ensures
        step matches Step::Package(p) ==> on_linux && packager_name(p) == name && (p
            == Packager::Xbps ==> xbps_enabled),
        step matches Step::Invalid(n) ==> n@ == name && spec_packager_for(
            name,
            on_linux,
            xbps_enabled,
        ) is None,
{
    if let Step::Package(p) = step {
        lemma_packager_names(name, on_linux, xbps_enabled, p);
    }
}

/// Without requested targets every packager runs once: the Debian package
/// first, then the AUR package, then (when enabled) xbps, the AppImage last.
pub proof fn lemma_default_order(xbps_enabled: bool)
    ensures
        default_packagers(xbps_enabled)[0] == Packager::Deb,
        default_packagers(xbps_enabled)[1] == Packager::Aur,
        default_packagers(xbps_enabled).last() == Packager::AppImage,
        xbps_enabled ==> default_packagers(xbps_enabled).len() == 4 && default_packagers(
            xbps_enabled,
        )[2] == Packager::Xbps,
        !xbps_enabled ==> default_packagers(xbps_enabled).len() == 3,
{
}

/// Looks up the packager for a target name.
pub fn packager_for(name: &String, on_linux: bool, xbps_enabled: bool) -> (p: Option<Packager>)
    ensures
        p == spec_packager_for(name@, on_linux, xbps_enabled),
{
    if !on_linux {
        return None;
    }
    let appimage = String::from_str("appimage");
    let deb = String::from_str("deb");
    let aur = String::from_str("aur");
    let xbps = String::from_str("xbps");
    if *name == appimage {
        Some(Packager::AppImage)
    } else if *name == deb {
        Some(Packager::Deb)
    } else if *name == aur {
        Some(Packager::Aur)
    } else if *name == xbps && xbps_enabled {
        Some(Packager::Xbps)
    } else {
        None
    }
}

/// The steps of a run: one per requested target, in the order requested,
/// or, when no target is requested, every packager in the default order.
pub fn plan_steps(args: &Args, on_linux: bool, xbps_enabled: bool) -> (steps: Vec<Step>)
    ensures
        match args.targets {
            Some(names) => {
                &&& steps.len() == names.len()
                &&& forall|i: int|
                    0 <= i < names.len() ==> step_for_name(
                        #[trigger] steps@[i],
                        names@[i]@,
                        on_linux,
                        xbps_enabled,
                    )
            },
            None => {
                &&& steps.len() == default_packagers(xbps_enabled).len()
                &&& forall|i: int|
                    0 <= i < steps.len() ==> #[trigger] steps@[i] == Step::Package(
                        default_packagers(xbps_enabled)[i],
                    )
            },
        },
{
    let mut steps: Vec<Step> = Vec::new();
    match &args.targets {
        Some(names) => {
            let n = names.len();
            let mut i: usize = 0;
            while i < n
                invariant
                    n == names.len(),
                    i <= n,
                    steps.len() == i,
                    forall|j: int|
                        0 <= j < i ==> step_for_name(
                            #[trigger] steps@[j],
                            names@[j]@,
                            on_linux,
                            xbps_enabled,
                        ),
                decreases n - i,
            {
                let step = match packager_for(&names[i], on_linux, xbps_enabled) {
                    Some(p) => Step::Package(p),
                    None => Step::Invalid(names[i].clone()),
                };
                steps.push(step);
                i += 1;
            }
        },
        None => {
            steps.push(Step::Package(Packager::Deb));
            steps.push(Step::Package(Packager::Aur));
            if xbps_enabled {
                steps.push(Step::Package(Packager::Xbps));
            }
            steps.push(Step::Package(Packager::AppImage));
        },
    }
    steps
}

} // verus!
