//! The AppImage packager: its settings in Cargo.toml, the build directory
//! named on the command line, the libraries to bundle, and the names of the
//! files it writes.
use vstd::prelude::*;

use crate::text::{chars_of, spec_lines, string_from_chars, text_lines};

verus! {

/// A value of the `[package.metadata]` table of Cargo.toml, as far as the
/// packager reads it: strings, booleans, arrays and tables; every other
/// kind of value is `Other`.
#[derive(Debug)]
pub enum MetaValue {
    Str(String),
    Bool(bool),
    Array(Vec<MetaValue>),
    /// The entries of a table, keys unique, in table order.
    Table(Vec<(String, MetaValue)>),
    Other,
}

/// The value of the first entry of `entries` whose key is `key`.
pub open spec fn spec_table_get(entries: Seq<(String, MetaValue)>, key: Seq<char>) -> Option<
    MetaValue,
>
    decreases entries.len(),
{
    if entries.len() == 0 {
        None
    } else if entries[0].0@ == key {
        Some(entries[0].1)
    } else {
        spec_table_get(entries.drop_first(), key)
    }
}

/// The strings among `items`, in order; other items are skipped.
pub open spec fn spec_strings(items: Seq<MetaValue>) -> Seq<Seq<char>>
    decreases items.len(),
{
    if items.len() == 0 {
        Seq::empty()
    } else {
        let rest = spec_strings(items.drop_first());
        match items[0] {
            MetaValue::Str(s) => seq![s@] + rest,
            _ => rest,
        }
    }
}

/// The AppImage table, `[package.metadata.appimage]`, when there is one.
pub open spec fn spec_appimage_table(meta: Option<MetaValue>) -> Option<Seq<(String, MetaValue)>> {
    match meta {
        Some(MetaValue::Table(t)) => match spec_table_get(t@, "appimage"@) {
            Some(MetaValue::Table(a)) => Some(a@),
            _ => None,
        },
        _ => None,
    }
}

/// The extra files copied into the AppDir: the strings of the `assets`
/// array of the AppImage table; none without such an array.
pub open spec fn spec_assets(meta: Option<MetaValue>) -> Seq<Seq<char>> {
    match spec_appimage_table(meta) {
        Some(a) => match spec_table_get(a, "assets"@) {
            Some(MetaValue::Array(items)) => spec_strings(items@),
            _ => Seq::empty(),
        },
        None => Seq::empty(),
    }
}

/// Whether the shared libraries of the binary are bundled: the boolean
/// `auto_link` of the AppImage table; false without one.
pub open spec fn spec_auto_link(meta: Option<MetaValue>) -> bool {
    match spec_appimage_table(meta) {
        Some(a) => match spec_table_get(a, "auto_link"@) {
            Some(MetaValue::Bool(b)) => b,
            _ => false,
        },
        None => false,
    }
}

/// What the packager reads from `[package.metadata.appimage]`.
pub struct AppImageSettings {
    pub assets: Vec<String>,
    pub auto_link: bool,
}

/// Looks up a key in the entries of a table.
pub fn table_get<'a>(entries: &'a Vec<(String, MetaValue)>, key: &str) -> (v: Option<&'a MetaValue>)
    ensures
        match spec_table_get(entries@, key@) {
            Some(x) => v matches Some(y) && *y == x,
            None => v is None,
        },
{
    let k = String::from_str(key);
    let n = entries.len();
    let mut i: usize = 0;
    assert(entries@.skip(0) =~= entries@);
    while i < n
        invariant
            n == entries.len(),
            i <= n,
            k@ == key@,
            spec_table_get(entries@, key@) == spec_table_get(entries@.skip(i as int), key@),
        decreases n - i,
    {
        assert(entries@.skip(i as int).drop_first() =~= entries@.skip(i + 1));
        if entries[i].0 == k {
            return Some(&entries[i].1);
        }
        i += 1;
    }
    None
}

/// The strings among a list of values, in order.
pub fn strings_of(items: &Vec<MetaValue>) -> (out: Vec<String>)
    ensures
        out.deep_view() == spec_strings(items@),
{
    let mut out: Vec<String> = Vec::new();
    let n = items.len();
    let mut i: usize = n;
    // Collected from the back, so that each step puts one item in front.
    let mut rev: Vec<String> = Vec::new();
    while i > 0
        invariant
            n == items.len(),
            i <= n,
            spec_strings(items@.skip(i as int)) =~= rev.deep_view().reverse(),
        decreases i,
    {
        i -= 1;
        assert(items@.skip(i as int).drop_first() =~= items@.skip(i + 1));
        match &items[i] {
            MetaValue::Str(s) => {
                let ghost before = rev.deep_view();
                rev.push(s.clone());
                assert(rev.deep_view() =~= before.push(s@));
                assert(rev.deep_view().reverse() =~= seq![s@] + before.reverse());
            },
            _ => {},
        }
    }
    assert(items@.skip(0) =~= items@);
    let m = rev.len();
    let mut j: usize = m;
    while j > 0
        invariant
            m == rev.len(),
            j <= m,
            out.deep_view() =~= rev.deep_view().skip(j as int).reverse(),
        decreases j,
    {
        j -= 1;
        let ghost before = out.deep_view();
        out.push(rev[j].clone());
        assert(out.deep_view() =~= before.push(rev.deep_view()[j as int]));
        assert(rev.deep_view().skip(j as int) =~= seq![rev.deep_view()[j as int]] + rev.deep_view().skip(j + 1));
    }
    assert(rev.deep_view().skip(0) =~= rev.deep_view());
    out
}

/// Reads the AppImage settings from the package metadata.
pub fn appimage_settings(meta: &Option<MetaValue>) -> (s: AppImageSettings)
    ensures
        s.assets.deep_view() == spec_assets(*meta),
        s.auto_link == spec_auto_link(*meta),
{
    let table: Option<&Vec<(String, MetaValue)>> = match meta {
        Some(MetaValue::Table(t)) => match table_get(t, "appimage") {
            Some(MetaValue::Table(a)) => Some(a),
            _ => None,
        },
        _ => None,
    };
    match table {
        Some(a) => {
            let assets = match table_get(a, "assets") {
                Some(MetaValue::Array(items)) => strings_of(items),
                _ => Vec::new(),
            };
            let auto_link = match table_get(a, "auto_link") {
                Some(MetaValue::Bool(b)) => *b,
                _ => false,
            };
            AppImageSettings { assets, auto_link }
        },
        None => AppImageSettings { assets: Vec::new(), auto_link: false },
    }
}

/// The bytes of `--target=`.
pub open spec fn target_flag() -> Seq<u8> {
    seq![45u8, 45u8, 116u8, 97u8, 114u8, 103u8, 101u8, 116u8, 61u8]
}

/// The bytes of `/release`.
pub open spec fn release_suffix() -> Seq<u8> {
    seq![47u8, 114u8, 101u8, 108u8, 101u8, 97u8, 115u8, 101u8]
}

/// Whether `pat` occurs in `s`.
pub open spec fn bytes_contain(s: Seq<u8>, pat: Seq<u8>) -> bool {
    exists|i: int| 0 <= i && i + pat.len() <= s.len() && #[trigger] s.subrange(i, i + pat.len()) == pat
}

/// The first argument, from the `from`-th on, that contains `--target=`.
pub open spec fn first_target_arg(args: Seq<Seq<u8>>, from: int) -> Option<int>
    decreases args.len() - from,
{
    if from < 0 || from >= args.len() {
        None
    } else if bytes_contain(args[from], target_flag()) {
        Some(from)
    } else {
        first_target_arg(args, from + 1)
    }
}

/// The build directory named on the command line: the first argument after
/// the program and subcommand names that contains `--target=` gives, from its
/// tenth byte on, the target, whose binaries are in `<target>/release`.
pub open spec fn spec_target_release_dir(args: Seq<Seq<u8>>) -> Option<Seq<u8>> {
    match first_target_arg(args, 2) {
        Some(i) => Some(args[i].subrange(9, args[i].len() as int) + release_suffix()),
        None => None,
    }
}

fn contains_target_flag(arg: &Vec<u8>) -> (b: bool)
    ensures
        b == bytes_contain(arg@, target_flag()),
{
    let pat: Vec<u8> = vec![45u8, 45u8, 116u8, 97u8, 114u8, 103u8, 101u8, 116u8, 61u8];
    assert(pat@ =~= target_flag());
    let n = arg.len();
    if n < 9 {
        assert(!bytes_contain(arg@, target_flag()));
        return false;
    }
    let mut i: usize = 0;
    while i <= n - 9
        invariant
            9 <= n,
            n == arg.len(),
            pat@ == target_flag(),
            forall|k: int| 0 <= k < i ==> #[trigger] arg@.subrange(k, k + 9) != target_flag(),
        decreases n - i,
    {
        let mut j: usize = 0;
        let mut same = true;
        while j < 9
            invariant
                j <= 9,
                i + 9 <= n,
                n == arg.len(),
                pat@ == target_flag(),
                same == (forall|m: int| 0 <= m < j ==> arg@[i + m] == pat@[m]),
            decreases 9 - j,
        {
            if arg[i + j] != pat[j] {
                same = false;
            }
            j += 1;
        }
        if same {
            assert(arg@.subrange(i as int, i + 9) =~= target_flag());
            return true;
        }
        assert(arg@.subrange(i as int, i + 9)[0] == arg@[i as int]);
        assert(arg@.subrange(i as int, i + 9) != target_flag()) by {
            let m = choose|m: int| 0 <= m < 9 && arg@[i + m] != pat@[m];
            assert(arg@.subrange(i as int, i + 9)[m] == arg@[i + m]);
        }
        i += 1;
    }
    assert(!bytes_contain(arg@, target_flag()));
    false
}

/// Finds the build directory named on the command line (`args` being all
/// the arguments, program name first, as bytes).
pub fn target_release_dir(args: &Vec<Vec<u8>>) -> (dir: Option<Vec<u8>>)
    ensures
        match spec_target_release_dir(args.deep_view()) {
            Some(d) => dir matches Some(v) && v@ == d,
            None => dir is None,
        },
{
    let ghost av = args.deep_view();
    let n = args.len();
    let mut i: usize = 2;
    if n <= 2 {
        return None;
    }
    while i < n
        invariant
            n == args.len(),
            av == args.deep_view(),
            2 <= i <= n,
            first_target_arg(av, 2) == first_target_arg(av, i as int),
        decreases n - i,
    {
        assert(av[i as int] == args@[i as int]@);
        if contains_target_flag(&args[i]) {
            let arg = &args[i];
            let mut out: Vec<u8> = Vec::new();
            let len = arg.len();
            let mut k: usize = 9;
            while k < len
                invariant
                    9 <= len,
                    len == arg.len(),
                    9 <= k <= len,
                    out@ == arg@.subrange(9, k as int),
                decreases len - k,
            {
                out.push(arg[k]);
                assert(arg@.subrange(9, k + 1) =~= arg@.subrange(9, k as int).push(arg@[k as int]));
                k += 1;
            }
            let suffix: Vec<u8> = vec![47u8, 114u8, 101u8, 108u8, 101u8, 97u8, 115u8, 101u8];
            let mut m: usize = 0;
            let ghost base = out@;
            while m < 8
                invariant
                    m <= 8,
                    suffix@ == release_suffix(),
                    out@ == base + release_suffix().take(m as int),
                decreases 8 - m,
            {
                out.push(suffix[m]);
                assert(release_suffix().take(m + 1) =~= release_suffix().take(m as int).push(release_suffix()[m as int]));
                m += 1;
            }
            assert(release_suffix().take(8) =~= release_suffix());
            return Some(out);
        }
        i += 1;
    }
    None
}

/// What to do about the AppImage icon: refuse when the project already has
/// an `icon.png` that would be overwritten, else copy the given icon file to
/// `icon.png`, else write an empty `icon.png`.
#[derive(Debug)]
pub enum IconStep {
    Conflict,
    Copy(String),
    CreateEmpty,
}

/// Decides what to do about the AppImage icon.
pub fn icon_step(icon_file: &Option<String>, icon_png_exists: bool) -> (step: IconStep)
    ensures
        match icon_file {
            Some(f) => if icon_png_exists {
                step is Conflict
            } else {
                step matches IconStep::Copy(g) && g@ == f@
            },
            None => step is CreateEmpty,
        },
{
    match icon_file {
        Some(f) => if icon_png_exists {
            IconStep::Conflict
        } else {
            IconStep::Copy(f.clone())
        },
        None => IconStep::CreateEmpty,
    }
}

/// The name of a binary: its own, or else the package's.
pub fn bin_name(own: &Option<String>, package: &String) -> (name: String)
    ensures
        name@ == (match own {
            Some(n) => n@,
            None => package@,
        }),
{
    match own {
        Some(n) => n.clone(),
        None => package.clone(),
    }
}

/// The AppDir of a binary: `target/<name>.AppDir`, relative to the project;
/// a name that is an absolute path stands for itself.
pub open spec fn spec_app_dir(name: Seq<char>) -> Seq<char> {
    if name.len() > 0 && name[0] == '/' {
        name + ".AppDir"@
    } else {
        "target/"@ + name + ".AppDir"@
    }
}

/// The directory of the built binaries: the one named on the command line,
/// else `release`.
pub fn build_dir(named: &Option<String>) -> (dir: String)
    ensures
        dir@ == (match named {
            Some(d) => d@,
            None => "release"@,
        }),
{
    match named {
        Some(d) => d.clone(),
        None => String::from_str("release"),
    }
}

/// The built binary: `target/<build dir>/<name>`.
pub fn binary_path(build_dir: &str, name: &str) -> (path: String)
    ensures
        path@ == "target/"@ + build_dir@ + "/"@ + name@,
{
    let mut path = String::from_str("target/");
    path.append(build_dir);
    path.append("/");
    path.append(name);
    path
}

/// The desktop entry of the AppImage of a binary.
pub open spec fn spec_desktop_entry(name: Seq<char>) -> Seq<char> {
    "[Desktop Entry]\nName="@ + name + "\nExec=bin\nIcon=icon\nType=Application\nCategories=Utility;"@
}

/// Writes the desktop entry of the AppImage of a binary.
pub fn desktop_entry(name: &str) -> (entry: String)
    ensures
        entry@ == spec_desktop_entry(name@),
{
    let mut entry = String::from_str("[Desktop Entry]\nName=");
    entry.append(name);
    entry.append("\nExec=bin\nIcon=icon\nType=Application\nCategories=Utility;");
    entry
}

/// The file that `appimagetool` writes: `<name>-<version>-<arch>.AppImage`.
pub fn built_appimage_name(name: &str, version: &str, arch: &str) -> (file: String)
    ensures
        file@ == name@ + "-"@ + version@ + "-"@ + arch@ + ".AppImage"@,
{
    let mut file = String::from_str(name);
    file.append("-");
    file.append(version);
    file.append("-");
    file.append(arch);
    file.append(".AppImage");
    file
}

/// Where the AppImage of a binary ends up: `target/package/<name>.AppImage`.
pub fn packaged_appimage_path(name: &str) -> (path: String)
    ensures
        path@ == "target/package/"@ + name@ + ".AppImage"@,
{
    let mut path = String::from_str("target/package/");
    path.append(name);
    path.append(".AppImage");
    path
}

/// Whether a line names a file by an absolute path.
pub open spec fn is_absolute_line(line: Seq<char>) -> bool {
    line.len() > 0 && line[0] == '/'
}

/// The lines of `lines` that are absolute paths, in order.
pub open spec fn spec_absolute_lines(lines: Seq<Seq<char>>) -> Seq<Seq<char>>
    decreases lines.len(),
{
    if lines.len() == 0 {
        Seq::empty()
    } else if is_absolute_line(lines.last()) {
        spec_absolute_lines(lines.drop_last()).push(lines.last())
    } else {
        spec_absolute_lines(lines.drop_last())
    }
}

/// The shared libraries that a listing of the binary's dependencies names:
/// its lines that are absolute paths, in order.
pub fn linked_libraries(listing: &str) -> (libs: Vec<String>)
    ensures
        libs.deep_view() == spec_absolute_lines(spec_lines(listing@)),
{
    let lines = text_lines(listing);
    let ghost lv = lines.deep_view();
    let mut libs: Vec<String> = Vec::new();
    let n = lines.len();
    let mut i: usize = 0;
    while i < n
        invariant
            n == lines.len(),
            lv == lines.deep_view(),
            i <= n,
            libs.deep_view() == spec_absolute_lines(lv.take(i as int)),
        decreases n - i,
    {
        let cs = chars_of(lines[i].as_str());
        assert(lv.take(i + 1).drop_last() =~= lv.take(i as int));
        if cs.len() > 0 && cs[0] == '/' {
            let ghost before = libs.deep_view();
            libs.push(lines[i].clone());
            assert(libs.deep_view() =~= before.push(lv[i as int]));
        }
        i += 1;
    }
    assert(lv.take(n as int) =~= lv);
    libs
}

/// A path without its first character, as slicing from byte 1 does; the
/// first character must take one byte.
pub fn without_first_char(s: &str) -> (rest: String)
    requires
        s@.len() > 0,
        (s@[0] as u32) < 128,
    ensures
        rest@ == s@.drop_first(),
{
    let cs = chars_of(s);
    let rest = string_from_chars(&cs, 1, cs.len());
    assert(cs@.subrange(1, cs@.len() as int) =~= s@.drop_first());
    rest
}

/// Joining a path onto a base path, as `Path::join` does on Unix: an
/// absolute path replaces the base; otherwise a `/` separates the two unless
/// the base is empty or already ends with one.
pub open spec fn spec_join_path(base: Seq<char>, rest: Seq<char>) -> Seq<char> {
    if rest.len() > 0 && rest[0] == '/' {
        rest
    } else if base.len() == 0 || base.last() == '/' {
        base + rest
    } else {
        base + "/"@ + rest
    }
}

/// Joins a path onto a base path.
pub fn join_path(base: &str, rest: &str) -> (path: String)
    ensures
        path@ == spec_join_path(base@, rest@),
{
    let rc = chars_of(rest);
    if rc.len() > 0 && rc[0] == '/' {
        return String::from_str(rest);
    }
    let bc = chars_of(base);
    let mut path = String::from_str(base);
    if bc.len() > 0 && bc[bc.len() - 1] != '/' {
        path.append("/");
    }
    path.append(rest);
    proof {
        assert(path@ =~= spec_join_path(base@, rest@));
    }
    path
}

/// Where a bundled library is linked: its absolute path, without the
/// leading `/`, under `libs`.
pub fn lib_link_path(line: &str) -> (path: String)
    requires
        is_absolute_line(line@),
    ensures
        path@ == spec_join_path("libs"@, line@.drop_first()),
{
    let rest = without_first_char(line);
    join_path("libs", rest.as_str())
}

/// The files of the AppImage of one binary.
pub struct BinaryPlan {
    /// The binary's name.
    pub name: String,
    /// The AppDir that `appimagetool` packs.
    pub app_dir: String,
    /// The built binary, copied to `usr/bin/bin` in the AppDir.
    pub binary: String,
    /// The desktop entry, written to `cargo-appimage.desktop` in the AppDir.
    pub desktop_entry: String,
    /// The AppImage that `appimagetool` writes.
    pub built: String,
    /// Where the AppImage is moved to.
    pub packaged: String,
}

/// Plans the AppImage of one binary of the package.
pub fn binary_plan(
    own_name: &Option<String>,
    package_name: &String,
    build_dir: &str,
    version: &str,
    arch: &str,
) -> (plan: BinaryPlan)
    ensures
        plan.name@ == (match own_name {
            Some(n) => n@,
            None => package_name@,
        }),
        plan.app_dir@ == spec_join_path("target/"@, plan.name@ + ".AppDir"@),
        plan.app_dir@ == spec_app_dir(plan.name@),
        plan.binary@ == "target/"@ + build_dir@ + "/"@ + plan.name@,
        plan.desktop_entry@ == spec_desktop_entry(plan.name@),
        plan.built@ == plan.name@ + "-"@ + version@ + "-"@ + arch@ + ".AppImage"@,
        plan.packaged@ == "target/package/"@ + plan.name@ + ".AppImage"@,
{
    let name = bin_name(own_name, package_name);
    let mut dir_name = name.clone();
    dir_name.append(".AppDir");
    let app_dir = join_path("target/", dir_name.as_str());
    proof {
        let n = name@;
        if n.len() > 0 && n[0] == '/' {
            assert(dir_name@[0] == '/');
        } else if dir_name@.len() > 0 {
            assert(dir_name@[0] == n[0] || n.len() == 0);
            if n.len() == 0 {
                assert(dir_name@ =~= ".AppDir"@);
                reveal_strlit(".AppDir");
            }
        }
        assert("target/"@.last() == '/') by {
            reveal_strlit("target/");
        }
        assert(app_dir@ =~= spec_app_dir(n));
    }
    let binary = binary_path(build_dir, name.as_str());
    let desktop_entry = desktop_entry(name.as_str());
    let built = built_appimage_name(name.as_str(), version, arch);
    let packaged = packaged_appimage_path(name.as_str());
    BinaryPlan { name, app_dir, binary, desktop_entry, built, packaged }
}

/// Looking a key up in a table gives the value of the first entry with that
/// key, and nothing exactly when no entry has that key.
pub proof fn lemma_table_get_first(entries: Seq<(String, MetaValue)>, key: Seq<char>)
    ensures
        spec_table_get(entries, key) is None <==> (forall|k: int|
            0 <= k < entries.len() ==> (#[trigger] entries[k]).0@ != key),
        spec_table_get(entries, key) matches Some(v) ==> exists|k: int|
            0 <= k < entries.len() && (#[trigger] entries[k]).0@ == key && entries[k].1 == v
                && forall|j: int| 0 <= j < k ==> (#[trigger] entries[j]).0@ != key,
    decreases entries.len(),
{
    if entries.len() > 0 {
        let rest = entries.drop_first();
        lemma_table_get_first(rest, key);
        if entries[0].0@ != key {
            assert forall|k: int| 1 <= k < entries.len() implies entries[k] == rest[k - 1] by {}
            if spec_table_get(entries, key) is None {
                assert forall|k: int| 0 <= k < entries.len() implies (#[trigger] entries[k]).0@
                    != key by {
                    if k > 0 {
                        assert(entries[k] == rest[k - 1]);
                    }
                }
            } else {
                let v = spec_table_get(entries, key)->0;
                let k = choose|k: int|
                    0 <= k < rest.len() && (#[trigger] rest[k]).0@ == key && rest[k].1 == v
                        && forall|j: int| 0 <= j < k ==> (#[trigger] rest[j]).0@ != key;
                assert(entries[k + 1] == rest[k]);
                assert forall|j: int| 0 <= j < k + 1 implies (#[trigger] entries[j]).0@ != key by {
                    if j > 0 {
                        assert(entries[j] == rest[j - 1]);
                    }
                }
            }
            if forall|k: int| 0 <= k < entries.len() ==> (#[trigger] entries[k]).0@ != key {
                assert forall|k: int| 0 <= k < rest.len() implies (#[trigger] rest[k]).0@ != key by {
                    assert(rest[k] == entries[k + 1]);
                }
            }
        } else {
            assert(entries[0].0@ == key);
        }
    }
}

/// Libraries are bundled only when asked for: `auto_link` is on exactly
/// when the AppImage table has an `auto_link` entry holding `true`; without
/// an `auto_link` entry, or without an AppImage table, it is off.
pub proof fn lemma_auto_link_only_when_true(meta: Option<MetaValue>)
    ensures
        spec_auto_link(meta) <==> (spec_appimage_table(meta) matches Some(a) && spec_table_get(
            a,
            "auto_link"@,
        ) == Some(MetaValue::Bool(true))),
        spec_appimage_table(meta) is None ==> !spec_auto_link(meta),
        spec_appimage_table(meta) matches Some(a) && (forall|k: int|
            0 <= k < a.len() ==> (#[trigger] a[k]).0@ != "auto_link"@) ==> !spec_auto_link(meta),
        spec_auto_link(meta) ==> (spec_appimage_table(meta) matches Some(a) && exists|k: int|
            0 <= k < a.len() && (#[trigger] a[k]).0@ == "auto_link"@ && a[k].1 == MetaValue::Bool(
                true,
            )),
{
    if let Some(a) = spec_appimage_table(meta) {
        lemma_table_get_first(a, "auto_link"@);
    }
}

/// The text of a string value; other values have none.
pub open spec fn str_text(v: MetaValue) -> Seq<char> {
    match v {
        MetaValue::Str(s) => s@,
        _ => Seq::empty(),
    }
}

proof fn lemma_strings_push(items: Seq<MetaValue>, x: MetaValue)
    ensures
        spec_strings(items.push(x)) == spec_strings(items) + (if x is Str {
            seq![str_text(x)]
        } else {
            Seq::<Seq<char>>::empty()
        }),
    decreases items.len(),
{
    if items.len() == 0 {
        assert(items.push(x).drop_first() =~= Seq::<MetaValue>::empty());
        assert(items.push(x)[0] == x);
        assert(spec_strings(Seq::<MetaValue>::empty()) == Seq::<Seq<char>>::empty());
        assert(items =~= Seq::<MetaValue>::empty());
        assert(spec_strings(items.push(x)) =~= spec_strings(items) + (if x is Str {
            seq![str_text(x)]
        } else {
            Seq::<Seq<char>>::empty()
        }));
    } else {
        lemma_strings_push(items.drop_first(), x);
        assert(items.push(x).drop_first() =~= items.drop_first().push(x));
        assert(items.push(x)[0] == items[0]);
        let tail = if x is Str {
            seq![str_text(x)]
        } else {
            Seq::<Seq<char>>::empty()
        };
        let r = spec_strings(items.drop_first());
        match items[0] {
            MetaValue::Str(s) => {
                assert(seq![s@] + (r + tail) =~= (seq![s@] + r) + tail);
            },
            _ => {},
        }
    }
}

/// The assets are exactly the string items of the `assets` array, in
/// order: every string is kept and nothing else is.
pub proof fn lemma_strings_are_the_string_items(items: Seq<MetaValue>)
    ensures
        spec_strings(items) == items.filter(|v: MetaValue| v is Str).map_values(
            |v: MetaValue| str_text(v),
        ),
    decreases items.len(),
{
    reveal(Seq::filter);
    if items.len() > 0 {
        let pred = |v: MetaValue| v is Str;
        lemma_strings_are_the_string_items(items.drop_last());
        lemma_strings_push(items.drop_last(), items.last());
        assert(items.drop_last().push(items.last()) =~= items);
        assert(items.filter(pred) == {
            let sub = items.drop_last().filter(pred);
            if pred(items.last()) {
                sub.push(items.last())
            } else {
                sub
            }
        });
        let sub = items.drop_last().filter(pred);
        if pred(items.last()) {
            assert(sub.push(items.last()).map_values(|v: MetaValue| str_text(v)) =~= sub.map_values(
                |v: MetaValue| str_text(v),
            ) + seq![str_text(items.last())]);
        }
    }
}

/// Without an `assets` entry in the AppImage table, or without the table,
/// nothing extra is copied.
pub proof fn lemma_no_assets_without_entry(meta: Option<MetaValue>)
    ensures
        spec_appimage_table(meta) is None ==> spec_assets(meta).len() == 0,
        spec_appimage_table(meta) matches Some(a) && (forall|k: int|
            0 <= k < a.len() ==> (#[trigger] a[k]).0@ != "assets"@) ==> spec_assets(meta).len()
            == 0,
{
    if let Some(a) = spec_appimage_table(meta) {
        lemma_table_get_first(a, "assets"@);
    }
}

/// The AppImage settings come only from the `appimage` entry of the
/// metadata table: without metadata, with metadata that is not a table, or
/// without an `appimage` entry there are none; otherwise they are the first
/// `appimage` entry, when it is a table.
pub proof fn lemma_appimage_table_source(meta: Option<MetaValue>)
    ensures
        meta is None ==> spec_appimage_table(meta) is None,
        !(meta matches Some(MetaValue::Table(_))) ==> spec_appimage_table(meta) is None,
        meta matches Some(MetaValue::Table(t)) && (forall|k: int|
            0 <= k < t@.len() ==> (#[trigger] t@[k]).0@ != "appimage"@) ==> spec_appimage_table(
            meta,
        ) is None,
        spec_appimage_table(meta) matches Some(a) ==> (meta matches Some(MetaValue::Table(t))
            && exists|k: int|
            0 <= k < t@.len() && (#[trigger] t@[k]).0@ == "appimage"@ && (t@[k].1 matches MetaValue::Table(
                v,
            ) && v@ == a) && forall|j: int| 0 <= j < k ==> (#[trigger] t@[j]).0@ != "appimage"@),
{
    if let Some(MetaValue::Table(t)) = meta {
        lemma_table_get_first(t@, "appimage"@);
    }
}

/// Joining paths keeps the joined path whole at the end, and keeps the base
/// in front unless the joined path is absolute.
pub proof fn lemma_join_path_parts(base: Seq<char>, rest: Seq<char>)
    ensures
        rest.len() > 0 && rest[0] == '/' ==> spec_join_path(base, rest) == rest,
        !(rest.len() > 0 && rest[0] == '/') ==> spec_join_path(base, rest).subrange(
            0,
            base.len() as int,
        ) == base,
        spec_join_path(base, rest).subrange(
            spec_join_path(base, rest).len() - rest.len(),
            spec_join_path(base, rest).len() as int,
        ) == rest,
        !(rest.len() > 0 && rest[0] == '/') ==> spec_join_path(base, rest).len() == base.len()
            + rest.len() + (if base.len() > 0 && base.last() != '/' {
            1int
        } else {
            0int
        }),
        !(rest.len() > 0 && rest[0] == '/') && base.len() > 0 && base.last() != '/' ==> spec_join_path(
            base,
            rest,
        )[base.len() as int] == '/',
{
    reveal_strlit("/");
    let j = spec_join_path(base, rest);
    assert(j.subrange(j.len() - rest.len(), j.len() as int) =~= rest);
    if !(rest.len() > 0 && rest[0] == '/') {
        assert(j.subrange(0, base.len() as int) =~= base);
    }
}

/// The desktop entry of a binary, in full: it names the binary and runs
/// `bin` with the icon `icon` as a utility application.
pub proof fn lemma_desktop_entry_text(name: Seq<char>)
    ensures
        spec_desktop_entry(name) == "[Desktop Entry]\nName="@ + name
            + "\nExec=bin\nIcon=icon\nType=Application\nCategories=Utility;"@,
{
}

/// The flag is `--target=` and the suffix `/release`, byte by byte; the
/// flag is found wherever it stands in an argument.
pub proof fn lemma_target_flag_anywhere(arg: Seq<u8>, i: int)
    ensures
        target_flag() == seq![
            '-' as u8,
            '-' as u8,
            't' as u8,
            'a' as u8,
            'r' as u8,
            'g' as u8,
            'e' as u8,
            't' as u8,
            '=' as u8,
        ],
        release_suffix() == seq![
            '/' as u8,
            'r' as u8,
            'e' as u8,
            'l' as u8,
            'e' as u8,
            'a' as u8,
            's' as u8,
            'e' as u8,
        ],
        0 <= i && i + 9 <= arg.len() && arg.subrange(i, i + 9) == target_flag() ==> bytes_contain(
            arg,
            target_flag(),
        ),
        bytes_contain(arg, target_flag()) ==> arg.len() >= 9,
{
    assert(target_flag() =~= seq![
        '-' as u8,
        '-' as u8,
        't' as u8,
        'a' as u8,
        'r' as u8,
        'g' as u8,
        'e' as u8,
        't' as u8,
        '=' as u8,
    ]);
    assert(release_suffix() =~= seq![
        '/' as u8,
        'r' as u8,
        'e' as u8,
        'l' as u8,
        'e' as u8,
        'a' as u8,
        's' as u8,
        'e' as u8,
    ]);
}

/// Helper facts about the first argument that names a target.
proof fn lemma_first_target_arg(args: Seq<Seq<u8>>, from: int)
    requires
        0 <= from,
    ensures
        first_target_arg(args, from) is None <==> (forall|i: int|
            from <= i < args.len() ==> !bytes_contain(#[trigger] args[i], target_flag())),
        first_target_arg(args, from) matches Some(k) ==> from <= k < args.len() && bytes_contain(
            args[k],
            target_flag(),
        ) && forall|j: int| from <= j < k ==> !bytes_contain(#[trigger] args[j], target_flag()),
    decreases args.len() - from,
{
    if from < args.len() && !bytes_contain(args[from], target_flag()) {
        lemma_first_target_arg(args, from + 1);
    }
}

/// The build directory comes from the first argument after the program and
/// subcommand names that contains `--target=`: there is one exactly when
/// such an argument exists, and it is that argument from its tenth byte on,
/// followed by `/release`.
pub proof fn lemma_target_dir_from_first_target_arg(args: Seq<Seq<u8>>)
    ensures
        spec_target_release_dir(args) is None <==> (forall|i: int|
            2 <= i < args.len() ==> !bytes_contain(#[trigger] args[i], target_flag())),
        spec_target_release_dir(args) matches Some(d) ==> exists|k: int|
            2 <= k < args.len() && bytes_contain(#[trigger] args[k], target_flag()) && (forall|j: int|
                2 <= j < k ==> !bytes_contain(#[trigger] args[j], target_flag())) && d
                == args[k].subrange(9, args[k].len() as int) + release_suffix(),
{
    lemma_first_target_arg(args, 2);
    if let Some(k) = first_target_arg(args, 2) {
        assert(bytes_contain(args[k], target_flag()));
    }
}

/// The libraries bundled are exactly the lines of the listing that start
/// with `/`, in their order.
pub proof fn lemma_absolute_lines_are_the_slash_lines(lines: Seq<Seq<char>>)
    ensures
        spec_absolute_lines(lines) == lines.filter(|l: Seq<char>| l.len() > 0 && l[0] == '/'),
    decreases lines.len(),
{
    reveal(Seq::filter);
    if lines.len() > 0 {
        lemma_absolute_lines_are_the_slash_lines(lines.drop_last());
        let pred = |l: Seq<char>| l.len() > 0 && l[0] == '/';
        assert(lines.filter(pred) == {
            let sub = lines.drop_last().filter(pred);
            if pred(lines.last()) {
                sub.push(lines.last())
            } else {
                sub
            }
        });
    }
}

} // verus!
