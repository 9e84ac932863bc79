//! The `.deb` packager: the options handed to it, and the order of the work
//! that builds a Debian archive, as a state machine that the caller drives.
use vstd::prelude::*;

use crate::cli::Args;
use crate::text::{spec_decimal, u64_to_decimal};

verus! {

/// The options of one `.deb` build.
pub struct CliOptions {
    pub no_build: bool,
    pub no_strip: bool,
    pub separate_debug_symbols: bool,
    pub fast: bool,
    pub verbose: bool,
    pub quiet: bool,
    pub install: bool,
    pub package_name: Option<String>,
    pub output_path: Option<String>,
    pub variant: Option<String>,
    pub target: Option<String>,
    pub manifest_path: Option<String>,
    pub cargo_build_flags: Vec<String>,
    pub deb_version: Option<String>,
}

/// A copy of an optional string.
pub(crate) fn clone_opt_string(o: &Option<String>) -> (r: Option<String>)
    ensures
        r == *o,
{
    match o {
        Some(s) => Some(s.clone()),
        None => None,
    }
}

/// A copy of a list of strings.
pub(crate) fn clone_strings(v: &Vec<String>) -> (r: Vec<String>)
    ensures
        r@ == v@,
{
    let mut r: Vec<String> = Vec::new();
    let n = v.len();
    let mut i: usize = 0;
    while i < n
        invariant
            n == v.len(),
            i <= n,
            r@ == v@.take(i as int),
        decreases n - i,
    {
        r.push(v[i].clone());
        assert(v@.take(i + 1) =~= v@.take(i as int).push(v@[i as int]));
        i += 1;
    }
    assert(v@.take(n as int) =~= v@);
    r
}

/// The `.deb` options that `cargo prod` hands over: the application was
/// already built, so the `.deb` packager never builds; an install allows the
/// faster compression, since the package is not transferred anywhere; the
/// package goes to `target/package/`; no extra cargo flags.
pub fn cli_options(args: &Args) -> (o: CliOptions)
    ensures
        o.no_build,
        o.no_strip == args.no_strip,
        o.separate_debug_symbols == args.separate_debug_symbols,
        o.quiet == args.quiet,
        o.verbose == args.verbose,
        o.install == args.install,
        o.fast == (args.install || args.fast),
        o.variant == args.variant,
        o.target == args.target,
        o.package_name == args.package_name,
        o.manifest_path == args.manifest_path,
        o.deb_version == args.deb_version,
        o.output_path matches Some(p) && p@ == "target/package/"@,
        o.cargo_build_flags@.len() == 0,
{
    CliOptions {
        no_build: true,
        no_strip: args.no_strip,
        separate_debug_symbols: args.separate_debug_symbols,
        quiet: args.quiet,
        verbose: args.verbose,
        install: args.install,
        fast: args.install || args.fast,
        variant: clone_opt_string(&args.variant),
        target: clone_opt_string(&args.target),
        output_path: Some(String::from_str("target/package/")),
        package_name: clone_opt_string(&args.package_name),
        manifest_path: clone_opt_string(&args.manifest_path),
        deb_version: clone_opt_string(&args.deb_version),
        cargo_build_flags: Vec::new(),
    }
}

/// The cargo flags without a leading `deb`, which a `cargo deb` invocation
/// passes through.
pub open spec fn spec_without_deb_flag(flags: Seq<Seq<char>>) -> Seq<Seq<char>> {
    if flags.len() > 0 && flags[0] == "deb"@ {
        flags.drop_first()
    } else {
        flags
    }
}

/// Drops a leading `deb` from the cargo flags.
pub fn without_deb_flag(flags: Vec<String>) -> (r: Vec<String>)
    ensures
        r.deep_view() == spec_without_deb_flag(flags.deep_view()),
{
    let mut flags = flags;
    let ghost before = flags.deep_view();
    if flags.len() > 0 {
        let deb = String::from_str("deb");
        if flags[0] == deb {
            flags.remove(0);
            proof {
                assert(flags.deep_view() =~= before.drop_first());
            }
        }
    }
    flags
}

/// The name of the first member of a Debian package: `debian-binary`.
pub open spec fn debian_binary_name() -> Seq<char> {
    "debian-binary"@
}

/// The contents of `debian-binary`: the format version `2.0` and a newline.
pub open spec fn debian_binary_contents() -> Seq<u8> {
    seq![50u8, 46u8, 48u8, 10u8]
}

/// The `debian-binary` member: its name and its contents.
pub fn debian_binary_member() -> (member: (String, Vec<u8>))
    ensures
        member.0@ == debian_binary_name(),
        member.1@ == debian_binary_contents(),
{
    let contents: Vec<u8> = vec![50u8, 46u8, 48u8, 10u8];
    assert(contents@ =~= debian_binary_contents());
    (String::from_str("debian-binary"), contents)
}

/// The compression of a member archive of the package.
#[derive(Clone, Copy, Debug, PartialEq, Eq, Structural)]
pub enum Compression {
    Xz,
    Gzip,
}

/// The file extension of a compression.
pub open spec fn spec_extension(c: Compression) -> Seq<char> {
    match c {
        Compression::Xz => "xz"@,
        Compression::Gzip => "gz"@,
    }
}

impl Compression {
    /// The file extension of this compression.
    pub fn extension(&self) -> (e: &'static str)
        ensures
            e@ == spec_extension(*self),
    {
        match self {
            Compression::Xz => "xz",
            Compression::Gzip => "gz",
        }
    }
}

/// The name of a compressed member archive: `<kind>.tar.<extension>`.
pub open spec fn spec_member_name(kind: Seq<char>, c: Compression) -> Seq<char> {
    kind + ".tar."@ + spec_extension(c)
}

/// Names a compressed member archive (`control` or `data`) of the package.
pub fn member_name(kind: &str, c: Compression) -> (name: String)
    ensures
        name@ == spec_member_name(kind@, c),
{
    let mut name = String::from_str(kind);
    name.append(".tar.");
    name.append(c.extension());
    proof {
        assert(name@ =~= spec_member_name(kind@, c));
    }
    name
}

/// Where the warnings of the packager go.
#[derive(Clone, Copy, Debug, PartialEq, Eq, Structural)]
pub enum ListenerKind {
    /// Nothing is reported.
    Silent,
    /// Warnings, and with `verbose` information too, go to standard error.
    StdErr { verbose: bool },
}

/// A quiet build reports nothing; otherwise reports go to standard error.
pub open spec fn spec_listener(quiet: bool, verbose: bool) -> ListenerKind {
    if quiet {
        ListenerKind::Silent
    } else {
        ListenerKind::StdErr { verbose }
    }
}

/// The line that reports how much the data archive shrank:
/// `compressed/original ratio C/O (P%)` with `P` the rounded-down percentage.
pub open spec fn spec_ratio_message(compressed: nat, original: nat) -> Seq<char> {
    "compressed/original ratio "@ + spec_decimal(compressed) + "/"@ + spec_decimal(original)
        + " ("@ + spec_decimal(compressed * 100 / original) + "%)"@
}

/// Writes the compression report of the data archive.
pub fn ratio_message(compressed: usize, original: usize) -> (m: String)
    requires
        original > 0,
        compressed * 100 <= usize::MAX,
    ensures
        m@ == spec_ratio_message(compressed as nat, original as nat),
{
    let percent: usize = compressed * 100 / original;
    let mut m = String::from_str("compressed/original ratio ");
    let c = u64_to_decimal(compressed as u64);
    m.append(c.as_str());
    m.append("/");
    let o = u64_to_decimal(original as u64);
    m.append(o.as_str());
    m.append(" (");
    let p = u64_to_decimal(percent as u64);
    m.append(p.as_str());
    m.append("%)");
    proof {
        assert(m@ =~= spec_ratio_message(compressed as nat, original as nat));
    }
    m
}

/// The first line of a failure report: `cargo-deb: <error>`.
pub fn error_headline(message: &str) -> (line: String)
    ensures
        line@ == "cargo-deb: "@ + message@,
{
    let mut line = String::from_str("cargo-deb: ");
    line.append(message);
    line
}

/// The lines that report the causes of a failure: `  because: <cause>` for
/// each cause in the chain, at most `max + 1` of them.
pub open spec fn spec_because_lines(causes: Seq<Seq<char>>, max: nat) -> Seq<Seq<char>> {
    let n: int = if causes.len() <= max + 1 { causes.len() as int } else { (max + 1) as int };
    Seq::new(n as nat, |i: int| "  because: "@ + causes[i])
}

/// Reports the chain of causes of a failure, at most `max + 1` deep.
pub fn because_lines(causes: &Vec<String>, max: usize) -> (lines: Vec<String>)
    ensures
        lines.deep_view() == spec_because_lines(causes.deep_view(), max as nat),
{
    let mut lines: Vec<String> = Vec::new();
    let n: usize = if causes.len() <= max { causes.len() } else { max + 1 };
    let ghost cv = causes.deep_view();
    let mut i: usize = 0;
    while i < n
        invariant
            n <= causes.len(),
            n as int == (if cv.len() <= max + 1 { cv.len() as int } else { max + 1 }),
            cv == causes.deep_view(),
            i <= n,
            lines.deep_view() =~= Seq::new(i as nat, |k: int| "  because: "@ + cv[k]),
        decreases n - i,
    {
        let mut line = String::from_str("  because: ");
        line.append(causes[i].as_str());
        let ghost before = lines.deep_view();
        lines.push(line);
        proof {
            assert(lines.deep_view() =~= before.push(line@));
        }
        i += 1;
    }
    lines
}

/// How deep the causes of a failure are reported: at most this plus one.
pub open spec fn cause_depth() -> nat {
    3
}

/// The report of a failed build: the headline `cargo-deb: <error>`, then
/// `  because: <cause>` for at most four causes of the chain.
pub open spec fn spec_failure_report(message: Seq<char>, causes: Seq<Seq<char>>) -> Seq<Seq<char>> {
    seq!["cargo-deb: "@ + message] + spec_because_lines(causes, cause_depth())
}

/// Writes the report of a failed build, line by line.
pub fn failure_report(message: &str, causes: &Vec<String>) -> (lines: Vec<String>)
    ensures
        lines.deep_view() == spec_failure_report(message@, causes.deep_view()),
{
    let rest = because_lines(causes, 3);
    let mut lines: Vec<String> = Vec::new();
    lines.push(error_headline(message));
    let ghost first = lines.deep_view();
    let n = rest.len();
    let mut i: usize = 0;
    while i < n
        invariant
            n == rest.len(),
            i <= n,
            first.len() == 1,
            first[0] == "cargo-deb: "@ + message@,
            lines.deep_view() =~= first + rest.deep_view().take(i as int),
        decreases n - i,
    {
        let ghost before = lines.deep_view();
        lines.push(rest[i].clone());
        assert(lines.deep_view() =~= before.push(rest.deep_view()[i as int]));
        assert(rest.deep_view().take(i + 1) =~= rest.deep_view().take(i as int).push(rest.deep_view()[i as int]));
        i += 1;
    }
    assert(rest.deep_view().take(n as int) =~= rest.deep_view());
    assert(first =~= seq!["cargo-deb: "@ + message@]);
    lines
}

/// The stages of a `.deb` build. Each names the work that was last asked
/// for and whose outcome is awaited.
#[derive(Clone, Copy, Debug, PartialEq, Eq, Structural)]
pub enum DebPhase {
    Start,
    Warning,
    LoadingConfig,
    ResettingTemp,
    Building,
    ResolvingAssets,
    CompressingAssets,
    Stripping,
    ReadingClock,
    OpeningArchive,
    AddingDebianBinary,
    GeneratingData,
    CompressingArchives,
    AddingControl,
    ReportingRatio,
    AddingData,
    Finishing,
    PrintingPath,
    RemovingTemp,
    Installing,
    Done,
    Failed,
}

/// The outcome of the work last asked for.
#[derive(Clone, Copy, Debug, PartialEq, Eq, Structural)]
pub enum DebEvent {
    /// The work succeeded (or was not fallible).
    Proceed,
    /// The package configuration was read; `strip` tells whether it asks
    /// for stripped binaries.
    ConfigLoaded { strip: bool },
    /// The clock was read: `time` whole seconds since the Unix epoch.
    ClockRead { time: u64 },
    /// The data archive was written; `original_size` is its length.
    DataGenerated { original_size: usize },
    /// Both member archives were compressed.
    ArchivesCompressed { control: Compression, data: Compression, data_size: usize },
    /// The work failed.
    Failed,
}

/// The work that the driver of a `.deb` build does next.
#[derive(Debug)]
pub enum DebAction {
    /// Warn when the host is not Linux.
    WarnIfNotLinux,
    /// Read the package configuration.
    LoadConfig {
        manifest_path: String,
        package_name: Option<String>,
        output_path: Option<String>,
        target: Option<String>,
        variant: Option<String>,
        deb_version: Option<String>,
        listener: ListenerKind,
    },
    /// Empty the temporary directory of the package.
    ResetTempDir,
    /// Build the application with cargo.
    Build { target: Option<String>, flags: Vec<String>, verbose: bool },
    /// Find the files that go into the package.
    ResolveAssets,
    /// Compress the assets that are to be compressed.
    CompressAssets,
    /// Strip the binaries, keeping the debug symbols apart when asked to.
    StripBinaries { target: Option<String>, separate_debug_symbols: bool },
    /// Read the clock, for the time stamp of every archive and member.
    ReadClock,
    /// Open the package archive.
    OpenArchive,
    /// Add the member `name` holding `contents` to the package archive,
    /// stamped with `time`: the `debian-binary` member.
    AddDebianBinary { name: String, contents: Vec<u8>, time: u64 },
    /// Write the data archive, its files stamped with `time`.
    GenerateData { time: u64 },
    /// Write the control archive (stamped with `time`, listing the checksums
    /// of the data files) and compress both member archives.
    CompressArchives { fast: bool, time: u64 },
    /// Add a compressed member archive under this name, stamped with `time`.
    AddMember { name: String, time: u64 },
    /// Report information.
    Report { message: String },
    /// Finish the package archive.
    Finish,
    /// Print the path of the package.
    PrintPath,
    /// Remove the temporary directory.
    RemoveTempDir,
    /// Install the package.
    Install,
    /// End the build: successfully, or with an error report and exit code 1.
    Exit { success: bool },
}

/// A `.deb` build in progress.
pub struct DebRun {
    /// The options, with a leading `deb` flag dropped.
    pub opts: CliOptions,
    pub phase: DebPhase,
    /// Whether the package configuration asks for stripped binaries.
    pub strip: bool,
    /// The time stamp of the archives, once the clock is read.
    pub time: u64,
    pub control: Compression,
    pub data: Compression,
    pub original_size: usize,
    pub data_size: usize,
}

/// The position of a stage in the order of a build.
pub open spec fn phase_rank(p: DebPhase) -> int {
    match p {
        DebPhase::Start => 0,
        DebPhase::Warning => 1,
        DebPhase::LoadingConfig => 2,
        DebPhase::ResettingTemp => 3,
        DebPhase::Building => 4,
        DebPhase::ResolvingAssets => 5,
        DebPhase::CompressingAssets => 6,
        DebPhase::Stripping => 7,
        DebPhase::ReadingClock => 8,
        DebPhase::OpeningArchive => 9,
        DebPhase::AddingDebianBinary => 10,
        DebPhase::GeneratingData => 11,
        DebPhase::CompressingArchives => 12,
        DebPhase::AddingControl => 13,
        DebPhase::ReportingRatio => 14,
        DebPhase::AddingData => 15,
        DebPhase::Finishing => 16,
        DebPhase::PrintingPath => 17,
        DebPhase::RemovingTemp => 18,
        DebPhase::Installing => 19,
        DebPhase::Done => 20,
        DebPhase::Failed => 21,
    }
}

/// Whether a build has ended.
pub open spec fn is_terminal(p: DebPhase) -> bool {
    p == DebPhase::Done || p == DebPhase::Failed
}

/// The stage that follows a successful stage: the warning only for an
/// install or a native build, the build only when asked for, stripping only
/// when the configuration or the options ask for it and it is not refused,
/// the printed path only when not quiet, the install only when asked for.
pub open spec fn spec_after(run: DebRun) -> DebPhase {
    match run.phase {
        DebPhase::Start => if run.opts.install || run.opts.target is None {
            DebPhase::Warning
        } else {
            DebPhase::LoadingConfig
        },
        DebPhase::Warning => DebPhase::LoadingConfig,
        DebPhase::LoadingConfig => DebPhase::ResettingTemp,
        DebPhase::ResettingTemp => if !run.opts.no_build {
            DebPhase::Building
        } else {
            DebPhase::ResolvingAssets
        },
        DebPhase::Building => DebPhase::ResolvingAssets,
        DebPhase::ResolvingAssets => DebPhase::CompressingAssets,
        DebPhase::CompressingAssets => if (run.strip || run.opts.separate_debug_symbols)
            && !run.opts.no_strip {
            DebPhase::Stripping
        } else {
            DebPhase::ReadingClock
        },
        DebPhase::Stripping => DebPhase::ReadingClock,
        DebPhase::ReadingClock => DebPhase::OpeningArchive,
        DebPhase::OpeningArchive => DebPhase::AddingDebianBinary,
        DebPhase::AddingDebianBinary => DebPhase::GeneratingData,
        DebPhase::GeneratingData => DebPhase::CompressingArchives,
        DebPhase::CompressingArchives => DebPhase::AddingControl,
        DebPhase::AddingControl => DebPhase::ReportingRatio,
        DebPhase::ReportingRatio => DebPhase::AddingData,
        DebPhase::AddingData => DebPhase::Finishing,
        DebPhase::Finishing => if !run.opts.quiet {
            DebPhase::PrintingPath
        } else {
            DebPhase::RemovingTemp
        },
        DebPhase::PrintingPath => DebPhase::RemovingTemp,
        DebPhase::RemovingTemp => if run.opts.install {
            DebPhase::Installing
        } else {
            DebPhase::Done
        },
        DebPhase::Installing => DebPhase::Done,
        DebPhase::Done => DebPhase::Done,
        DebPhase::Failed => DebPhase::Failed,
    }
}

/// Whether an event is an outcome that the awaited work can have. Work
/// that cannot fail only proceeds. The compression report divides by the
/// size of the data archive and multiplies the compressed size by 100, so
/// the sizes must allow that.
pub open spec fn event_fits(run: DebRun, event: DebEvent) -> bool {
    match run.phase {
        DebPhase::Start | DebPhase::Warning | DebPhase::ReportingRatio | DebPhase::PrintingPath
        | DebPhase::RemovingTemp => event == DebEvent::Proceed,
        DebPhase::LoadingConfig => event is ConfigLoaded || event is Failed,
        DebPhase::ReadingClock => event is ClockRead || event is Failed,
        DebPhase::GeneratingData => event is DataGenerated || event is Failed,
        DebPhase::CompressingArchives => event is Failed || (event matches DebEvent::ArchivesCompressed {
            data_size,
            ..
        } && run.original_size > 0 && data_size * 100 <= usize::MAX),
        DebPhase::Done | DebPhase::Failed => false,
        _ => event == DebEvent::Proceed || event is Failed,
    }
}

/// What holds of a build between steps: once both member archives are
/// compressed, their sizes allow the compression report.
pub open spec fn run_wf(run: DebRun) -> bool {
    (run.phase == DebPhase::AddingControl || run.phase == DebPhase::ReportingRatio) ==> (
    run.original_size > 0 && run.data_size * 100 <= usize::MAX)
}

/// The stage after an event: a failure ends the build, anything else moves
/// on to the stage that follows.
pub open spec fn spec_next_phase(run: DebRun, event: DebEvent) -> DebPhase {
    if event is Failed {
        DebPhase::Failed
    } else {
        spec_after(run)
    }
}

/// The build after an event: the next stage, with a loaded configuration,
/// the size of the data archive and the compressions remembered.
pub open spec fn spec_step_run(run: DebRun, event: DebEvent) -> DebRun {
    let phase = spec_next_phase(run, event);
    match event {
        DebEvent::ConfigLoaded { strip } => DebRun { phase, strip, ..run },
        DebEvent::ClockRead { time } => DebRun { phase, time, ..run },
        DebEvent::DataGenerated { original_size } => DebRun { phase, original_size, ..run },
        DebEvent::ArchivesCompressed { control, data, data_size } => DebRun {
            phase,
            control,
            data,
            data_size,
            ..run
        },
        _ => DebRun { phase, ..run },
    }
}

/// Whether each event of `events`, fed in turn, is an outcome that the
/// awaited work can have.
pub open spec fn events_fit(run: DebRun, events: Seq<DebEvent>) -> bool
    decreases events.len(),
{
    events.len() == 0 || (event_fits(run, events[0]) && events_fit(
        spec_step_run(run, events[0]),
        events.drop_first(),
    ))
}

/// The stages that a build enters when fed `events` in turn.
pub open spec fn spec_phases(run: DebRun, events: Seq<DebEvent>) -> Seq<DebPhase>
    decreases events.len(),
{
    if events.len() == 0 {
        Seq::empty()
    } else {
        let next = spec_step_run(run, events[0]);
        seq![next.phase] + spec_phases(next, events.drop_first())
    }
}

/// Every step moves a build forward: the stage it enters comes later in
/// the order of a build than the stage it leaves.
pub proof fn lemma_step_advances(run: DebRun, event: DebEvent)
    requires
        event_fits(run, event),
    ensures
        phase_rank(spec_next_phase(run, event)) > phase_rank(run.phase),
{
}

/// Whatever the outcomes, a build enters its stages in their order, each
/// at most once; in particular the package gets `debian-binary` first, the
/// control archive next and the data archive last, as Debian requires.
pub proof fn lemma_build_order(run: DebRun, events: Seq<DebEvent>)
    requires
        events_fit(run, events),
    ensures
        forall|i: int|
            0 <= i < spec_phases(run, events).len() ==> phase_rank(run.phase) < phase_rank(
                #[trigger] spec_phases(run, events)[i],
            ),
        forall|i: int, j: int|
            0 <= i < j < spec_phases(run, events).len() ==> phase_rank(
                #[trigger] spec_phases(run, events)[i],
            ) < phase_rank(#[trigger] spec_phases(run, events)[j]),
        forall|i: int, j: int|
            0 <= i < spec_phases(run, events).len() && 0 <= j < spec_phases(run, events).len() && (
            #[trigger] spec_phases(run, events)[i] == DebPhase::AddingDebianBinary
                && #[trigger] spec_phases(run, events)[j] == DebPhase::AddingControl) ==> i < j,
        forall|i: int, j: int|
            0 <= i < spec_phases(run, events).len() && 0 <= j < spec_phases(run, events).len() && (
            #[trigger] spec_phases(run, events)[i] == DebPhase::AddingControl
                && #[trigger] spec_phases(run, events)[j] == DebPhase::AddingData) ==> i < j,
    decreases events.len(),
{
    if events.len() > 0 {
        let next = spec_step_run(run, events[0]);
        lemma_step_advances(run, events[0]);
        lemma_build_order(next, events.drop_first());
        let rest = spec_phases(next, events.drop_first());
        let all = spec_phases(run, events);
        assert(all =~= seq![next.phase] + rest);
        assert forall|i: int, j: int| 0 <= i < j < all.len() implies phase_rank(
            #[trigger] all[i],
        ) < phase_rank(#[trigger] all[j]) by {
            if i > 0 {
                assert(all[i] == rest[i - 1]);
            }
            assert(all[j] == rest[j - 1]);
        }
        assert forall|i: int| 0 <= i < all.len() implies phase_rank(run.phase) < phase_rank(
            #[trigger] all[i],
        ) by {
            if i > 0 {
                assert(all[i] == rest[i - 1]);
            }
        }
        assert forall|i: int, j: int|
            0 <= i < all.len() && 0 <= j < all.len() && (#[trigger] all[i]
                == DebPhase::AddingDebianBinary && #[trigger] all[j] == DebPhase::AddingControl) implies i
            < j by {
            if j <= i {
                if j < i {
                    assert(phase_rank(all[j]) < phase_rank(all[i]));
                }
            }
        }
        assert forall|i: int, j: int|
            0 <= i < all.len() && 0 <= j < all.len() && (#[trigger] all[i]
                == DebPhase::AddingControl && #[trigger] all[j] == DebPhase::AddingData) implies i < j by {
            if j <= i {
                if j < i {
                    assert(phase_rank(all[j]) < phase_rank(all[i]));
                }
            }
        }
    }
}

/// The builds that a build goes through when fed `events` in turn.
pub open spec fn spec_runs(run: DebRun, events: Seq<DebEvent>) -> Seq<DebRun>
    decreases events.len(),
{
    if events.len() == 0 {
        Seq::empty()
    } else {
        let next = spec_step_run(run, events[0]);
        seq![next] + spec_runs(next, events.drop_first())
    }
}

/// One time stamp for the whole package: once the clock has been read, the
/// time stamp never changes, so the `debian-binary` member, the data and
/// control archives and both compressed members (whose actions carry the
/// build's time stamp, see `action_for`) all get the same reading.
pub proof fn lemma_one_time_stamp(run: DebRun, events: Seq<DebEvent>)
    requires
        events_fit(run, events),
    ensures
        spec_runs(run, events).len() == events.len(),
        spec_phases(run, events).len() == events.len(),
        forall|i: int|
            0 <= i < events.len() ==> (#[trigger] spec_runs(run, events)[i]).phase == spec_phases(
                run,
                events,
            )[i],
        forall|i: int|
            0 <= i < events.len() && phase_rank(run.phase) > phase_rank(DebPhase::ReadingClock)
                ==> (#[trigger] spec_runs(run, events)[i]).time == run.time,
        forall|i: int, j: int|
            0 <= i < j < events.len() && phase_rank(spec_runs(run, events)[i].phase) > phase_rank(
                DebPhase::ReadingClock,
            ) ==> (#[trigger] spec_runs(run, events)[j]).time == (#[trigger] spec_runs(
                run,
                events,
            )[i]).time,
    decreases events.len(),
{
    if events.len() > 0 {
        let next = spec_step_run(run, events[0]);
        let tail = events.drop_first();
        lemma_step_advances(run, events[0]);
        lemma_one_time_stamp(next, tail);
        let rest = spec_runs(next, tail);
        let all = spec_runs(run, events);
        let phases = spec_phases(run, events);
        assert(all =~= seq![next] + rest);
        assert(phases =~= seq![next.phase] + spec_phases(next, tail));
        assert forall|i: int| 0 <= i < events.len() implies (#[trigger] all[i]).phase
            == phases[i] by {
            if i > 0 {
                assert(all[i] == rest[i - 1]);
                assert(phases[i] == spec_phases(next, tail)[i - 1]);
            }
        }
        if phase_rank(run.phase) > phase_rank(DebPhase::ReadingClock) {
            assert(!(events[0] is ClockRead));
            assert(next.time == run.time);
        }
        assert forall|i: int|
            0 <= i < events.len() && phase_rank(run.phase) > phase_rank(DebPhase::ReadingClock)
                implies (#[trigger] all[i]).time == run.time by {
            if i > 0 {
                assert(all[i] == rest[i - 1]);
            }
        }
        assert forall|i: int, j: int|
            0 <= i < j < events.len() && phase_rank(all[i].phase) > phase_rank(
                DebPhase::ReadingClock,
            ) implies (#[trigger] all[j]).time == (#[trigger] all[i]).time by {
            assert(all[j] == rest[j - 1]);
            if i > 0 {
                assert(all[i] == rest[i - 1]);
            }
        }
    }
}

/// A build that is told not to build never runs cargo: whatever the
/// outcomes, it never enters the build stage. `cargo prod` always tells it
/// so (see `cli_options`), having built the application itself.
pub proof fn lemma_no_build_is_respected(run: DebRun, events: Seq<DebEvent>)
    requires
        run.opts.no_build,
    ensures
        forall|i: int|
            0 <= i < spec_phases(run, events).len() ==> #[trigger] spec_phases(run, events)[i]
                != DebPhase::Building,
    decreases events.len(),
{
    if events.len() > 0 {
        let next = spec_step_run(run, events[0]);
        lemma_no_build_is_respected(next, events.drop_first());
        let rest = spec_phases(next, events.drop_first());
        let all = spec_phases(run, events);
        assert(all =~= seq![next.phase] + rest);
        assert forall|i: int| 0 <= i < all.len() implies #[trigger] all[i] != DebPhase::Building by {
            if i > 0 {
                assert(all[i] == rest[i - 1]);
            }
        }
    }
}

/// A stage that no single step of a build with these options can enter is
/// never entered, whatever the outcomes fed to the build.
proof fn lemma_phase_never_entered(run: DebRun, events: Seq<DebEvent>, p: DebPhase)
    requires
        forall|r: DebRun, e: DebEvent| r.opts == run.opts ==> #[trigger] spec_next_phase(r, e) != p,
    ensures
        forall|i: int|
            0 <= i < spec_phases(run, events).len() ==> #[trigger] spec_phases(run, events)[i]
                != p,
    decreases events.len(),
{
    if events.len() > 0 {
        let next = spec_step_run(run, events[0]);
        assert(next.opts == run.opts);
        assert(next.phase != p);
        lemma_phase_never_entered(next, events.drop_first(), p);
        let rest = spec_phases(next, events.drop_first());
        let all = spec_phases(run, events);
        assert(all =~= seq![next.phase] + rest);
        assert forall|i: int| 0 <= i < all.len() implies #[trigger] all[i] != p by {
            if i > 0 {
                assert(all[i] == rest[i - 1]);
            }
        }
    }
}

/// `--no-strip` is respected: a build whose options refuse stripping never
/// strips, whatever its configuration asks for and whatever the outcomes.
pub proof fn lemma_no_strip_is_respected(run: DebRun, events: Seq<DebEvent>)
    requires
        run.opts.no_strip,
    ensures
        forall|i: int|
            0 <= i < spec_phases(run, events).len() ==> #[trigger] spec_phases(run, events)[i]
                != DebPhase::Stripping,
{
    lemma_phase_never_entered(run, events, DebPhase::Stripping);
}

/// After the assets are compressed, the binaries are stripped exactly when
/// the configuration or `--separate-debug-symbols` asks for it and
/// `--no-strip` is not given; otherwise the clock is read next.
pub proof fn lemma_strip_decision(run: DebRun)
    requires
        run.phase == DebPhase::CompressingAssets,
    ensures
        spec_next_phase(run, DebEvent::Proceed) == DebPhase::Stripping <==> ((run.strip
            || run.opts.separate_debug_symbols) && !run.opts.no_strip),
        spec_next_phase(run, DebEvent::Proceed) != DebPhase::Stripping ==> spec_next_phase(
            run,
            DebEvent::Proceed,
        ) == DebPhase::ReadingClock,
{
}

/// A quiet build never prints the path of the package.
pub proof fn lemma_quiet_prints_nothing(run: DebRun, events: Seq<DebEvent>)
    requires
        run.opts.quiet,
    ensures
        forall|i: int|
            0 <= i < spec_phases(run, events).len() ==> #[trigger] spec_phases(run, events)[i]
                != DebPhase::PrintingPath,
{
    lemma_phase_never_entered(run, events, DebPhase::PrintingPath);
}

/// A build that is not asked to install never installs the package.
pub proof fn lemma_install_only_when_asked(run: DebRun, events: Seq<DebEvent>)
    requires
        !run.opts.install,
    ensures
        forall|i: int|
            0 <= i < spec_phases(run, events).len() ==> #[trigger] spec_phases(run, events)[i]
                != DebPhase::Installing,
{
    lemma_phase_never_entered(run, events, DebPhase::Installing);
}

/// A cross build that is not an install never warns about the host.
pub proof fn lemma_warning_only_when_native_or_installing(run: DebRun, events: Seq<DebEvent>)
    requires
        !run.opts.install,
        run.opts.target is Some,
    ensures
        forall|i: int|
            0 <= i < spec_phases(run, events).len() ==> #[trigger] spec_phases(run, events)[i]
                != DebPhase::Warning,
{
    lemma_phase_never_entered(run, events, DebPhase::Warning);
}

/// Whether a successful build goes through a stage (stripping aside, which
/// also depends on the package configuration): the host warning for an
/// install or a native build, the cargo build unless refused, the printed
/// path unless quiet, the install when asked for, and every other stage
/// always.
pub open spec fn stage_wanted(q: DebPhase, opts: CliOptions) -> bool {
    if q == DebPhase::Warning {
        opts.install || opts.target is None
    } else if q == DebPhase::Building {
        !opts.no_build
    } else if q == DebPhase::PrintingPath {
        !opts.quiet
    } else if q == DebPhase::Installing {
        opts.install
    } else {
        true
    }
}

/// After a failure no outcome fits, so a failure can only be the last event.
proof fn lemma_failure_is_last(run: DebRun, events: Seq<DebEvent>)
    requires
        events_fit(run, events),
        events.len() > 0,
        spec_phases(run, events).last() == DebPhase::Done,
    ensures
        !(events[0] is Failed),
        events.len() > 1 ==> spec_phases(spec_step_run(run, events[0]), events.drop_first()).last()
            == DebPhase::Done,
        events.len() == 1 ==> spec_after(run) == DebPhase::Done,
{
    let next = spec_step_run(run, events[0]);
    let rest = spec_phases(next, events.drop_first());
    assert(spec_phases(run, events) =~= seq![next.phase] + rest);
    assert(events_fit(next, events.drop_first()));
    if events.len() > 1 {
        assert(spec_phases(run, events).last() == rest.last());
        if events[0] is Failed {
            assert(next.phase == DebPhase::Failed);
            assert(!event_fits(next, events.drop_first()[0]));
        }
    } else {
        assert(rest =~= Seq::<DebPhase>::empty());
        assert(spec_phases(run, events).last() == next.phase);
    }
}

proof fn lemma_run_visits(run: DebRun, events: Seq<DebEvent>, q: DebPhase)
    requires
        events_fit(run, events),
        events.len() > 0,
        spec_phases(run, events).last() == DebPhase::Done,
        phase_rank(run.phase) < phase_rank(q) < phase_rank(DebPhase::Done),
        q != DebPhase::Stripping,
    ensures
        spec_phases(run, events).contains(q) <==> stage_wanted(q, run.opts),
    decreases events.len(),
{
    lemma_failure_is_last(run, events);
    let next = spec_step_run(run, events[0]);
    let tail = events.drop_first();
    let rest = spec_phases(next, tail);
    let all = spec_phases(run, events);
    assert(all =~= seq![next.phase] + rest);
    assert(next.phase == spec_after(run));
    assert(next.opts == run.opts);
    if next.phase == q {
        assert(all[0] == q);
    } else if phase_rank(next.phase) < phase_rank(q) {
        if tail.len() == 0 {
            assert(next.phase == DebPhase::Done);
        }
        lemma_run_visits(next, tail, q);
        if rest.contains(q) {
            let k = choose|k: int| 0 <= k < rest.len() && rest[k] == q;
            assert(all[k + 1] == q);
        }
        if all.contains(q) {
            let k = choose|k: int| 0 <= k < all.len() && all[k] == q;
            assert(k > 0);
            assert(rest[k - 1] == q);
        }
    } else {
        lemma_build_order(next, tail);
        assert(!stage_wanted(q, run.opts));
        if all.contains(q) {
            let k = choose|k: int| 0 <= k < all.len() && all[k] == q;
            assert(k > 0);
            assert(rest[k - 1] == q);
            assert(phase_rank(next.phase) < phase_rank(rest[k - 1]));
        }
    }
}

/// A build that starts and finishes successfully goes through every stage
/// it needs and no other: the configuration, the assets, the time stamp, the
/// archive with its three members and the compression report always; the
/// host warning exactly for an install or a native build, the cargo build
/// exactly unless refused, the printed path exactly unless quiet, and the
/// install exactly when asked for.
pub proof fn lemma_complete_run_stages(run: DebRun, events: Seq<DebEvent>, q: DebPhase)
    requires
        run.phase == DebPhase::Start,
        events_fit(run, events),
        events.len() > 0,
        spec_phases(run, events).last() == DebPhase::Done,
        q != DebPhase::Start && q != DebPhase::Done && q != DebPhase::Failed && q
            != DebPhase::Stripping,
    ensures
        spec_phases(run, events).contains(q) <==> stage_wanted(q, run.opts),
{
    lemma_run_visits(run, events, q);
}

/// The manifest read when none is given: `Cargo.toml`.
pub open spec fn spec_manifest_path(given: Option<String>) -> Seq<char> {
    match given {
        Some(p) => p@,
        None => "Cargo.toml"@,
    }
}

/// The work that a stage asks for.
pub open spec fn action_for(a: DebAction, run: DebRun) -> bool {
    match run.phase {
        DebPhase::Start => false,
        DebPhase::Warning => a is WarnIfNotLinux,
        DebPhase::LoadingConfig => a matches DebAction::LoadConfig {
            manifest_path,
            package_name,
            output_path,
            target,
            variant,
            deb_version,
            listener,
        } && manifest_path@ == spec_manifest_path(run.opts.manifest_path) && package_name
            == run.opts.package_name && output_path == run.opts.output_path && target
            == run.opts.target && variant == run.opts.variant && deb_version
            == run.opts.deb_version && listener == spec_listener(run.opts.quiet, run.opts.verbose),
        DebPhase::ResettingTemp => a is ResetTempDir,
        DebPhase::Building => a matches DebAction::Build { target, flags, verbose } && target
            == run.opts.target && flags@ == run.opts.cargo_build_flags@ && verbose
            == run.opts.verbose,
        DebPhase::ResolvingAssets => a is ResolveAssets,
        DebPhase::CompressingAssets => a is CompressAssets,
        DebPhase::Stripping => a matches DebAction::StripBinaries {
            target,
            separate_debug_symbols,
        } && target == run.opts.target && separate_debug_symbols
            == run.opts.separate_debug_symbols,
        DebPhase::ReadingClock => a is ReadClock,
        DebPhase::OpeningArchive => a is OpenArchive,
        DebPhase::AddingDebianBinary => a matches DebAction::AddDebianBinary {
            name,
            contents,
            time,
        } && name@ == debian_binary_name() && contents@ == debian_binary_contents() && time
            == run.time,
        DebPhase::GeneratingData => a matches DebAction::GenerateData { time } && time == run.time,
        DebPhase::CompressingArchives => a matches DebAction::CompressArchives { fast, time }
            && fast == run.opts.fast && time == run.time,
        DebPhase::AddingControl => a matches DebAction::AddMember { name, time } && name@
            == spec_member_name("control"@, run.control) && time == run.time,
        DebPhase::ReportingRatio => a matches DebAction::Report { message } && message@
            == spec_ratio_message(run.data_size as nat, run.original_size as nat),
        DebPhase::AddingData => a matches DebAction::AddMember { name, time } && name@
            == spec_member_name("data"@, run.data) && time == run.time,
        DebPhase::Finishing => a is Finish,
        DebPhase::PrintingPath => a is PrintPath,
        DebPhase::RemovingTemp => a is RemoveTempDir,
        DebPhase::Installing => a is Install,
        DebPhase::Done => a == DebAction::Exit { success: true },
        DebPhase::Failed => a == DebAction::Exit { success: false },
    }
}

/// The configuration is read from what the options name: the manifest
/// given with `--manifest-path` (`Cargo.toml` only when none is given), and
/// exactly the package name, output path, target, variant and Debian version
/// of the options; the listener is silent exactly when the build is quiet.
pub proof fn lemma_load_config_uses_options(a: DebAction, run: DebRun)
    requires
        run.phase == DebPhase::LoadingConfig,
        action_for(a, run),
    ensures
        a is LoadConfig,
        run.opts.manifest_path matches Some(p) ==> a->manifest_path@ == p@,
        run.opts.manifest_path is None ==> a->manifest_path@ == "Cargo.toml"@,
        a->package_name == run.opts.package_name,
        a->output_path == run.opts.output_path,
        a->LoadConfig_target == run.opts.target,
        a->variant == run.opts.variant,
        a->deb_version == run.opts.deb_version,
        (a->listener == ListenerKind::Silent) == run.opts.quiet,
        !run.opts.quiet ==> a->listener == (ListenerKind::StdErr { verbose: run.opts.verbose }),
{
}

/// The package archive is written as Debian requires, all of it with the
/// build's one time stamp: `debian-binary` holding `2.0` and a newline, then
/// `control.tar.xz` or `control.tar.gz` and `data.tar.xz` or `data.tar.gz`
/// by the compression actually applied; the archives are written with the
/// build's `fast` choice; the cargo build and the stripping get the options'
/// target, flags and choices; a finished build exits successfully and a
/// failed one unsuccessfully.
pub proof fn lemma_actions_carry_the_build(a: DebAction, run: DebRun)
    requires
        action_for(a, run),
    ensures
        run.phase == DebPhase::AddingDebianBinary ==> (a matches DebAction::AddDebianBinary {
            name,
            contents,
            time,
        } && name@ == "debian-binary"@ && contents@ == seq![50u8, 46u8, 48u8, 10u8] && time
            == run.time),
        run.phase == DebPhase::GeneratingData ==> (a matches DebAction::GenerateData { time }
            && time == run.time),
        run.phase == DebPhase::CompressingArchives ==> (a matches DebAction::CompressArchives {
            fast,
            time,
        } && fast == run.opts.fast && time == run.time),
        run.phase == DebPhase::AddingControl ==> (a matches DebAction::AddMember { name, time }
            && time == run.time && name@ == (if run.control == Compression::Xz {
            "control.tar.xz"@
        } else {
            "control.tar.gz"@
        })),
        run.phase == DebPhase::AddingData ==> (a matches DebAction::AddMember { name, time }
            && time == run.time && name@ == (if run.data == Compression::Xz {
            "data.tar.xz"@
        } else {
            "data.tar.gz"@
        })),
        run.phase == DebPhase::Building ==> (a matches DebAction::Build { target, flags, verbose }
            && target == run.opts.target && flags@ == run.opts.cargo_build_flags@ && verbose
            == run.opts.verbose),
        run.phase == DebPhase::Stripping ==> (a matches DebAction::StripBinaries {
            target,
            separate_debug_symbols,
        } && target == run.opts.target && separate_debug_symbols
            == run.opts.separate_debug_symbols),
        run.phase == DebPhase::Done ==> a == (DebAction::Exit { success: true }),
        run.phase == DebPhase::Failed ==> a == (DebAction::Exit { success: false }),
        run.phase == DebPhase::ReadingClock ==> (a is ReadClock),
        run.phase == DebPhase::ReportingRatio ==> (a matches DebAction::Report { message }
            && message@ == spec_ratio_message(run.data_size as nat, run.original_size as nat)),
{
    reveal_strlit("control");
    reveal_strlit("data");
    reveal_strlit(".tar.");
    reveal_strlit("xz");
    reveal_strlit("gz");
    reveal_strlit("control.tar.xz");
    reveal_strlit("control.tar.gz");
    reveal_strlit("data.tar.xz");
    reveal_strlit("data.tar.gz");
    reveal_strlit("debian-binary");
    assert(spec_member_name("control"@, Compression::Xz) =~= "control.tar.xz"@);
    assert(spec_member_name("control"@, Compression::Gzip) =~= "control.tar.gz"@);
    assert(spec_member_name("data"@, Compression::Xz) =~= "data.tar.xz"@);
    assert(spec_member_name("data"@, Compression::Gzip) =~= "data.tar.gz"@);
}

/// A build remembers what the outcomes tell it: the configuration's strip
/// request, the clock reading, the size of the data archive, and the
/// compressions and compressed size of the member archives; nothing else of
/// it changes but the stage.
pub proof fn lemma_outcomes_remembered(run: DebRun, event: DebEvent)
    ensures
        spec_step_run(run, event).opts == run.opts,
        event matches DebEvent::ConfigLoaded { strip } ==> spec_step_run(run, event).strip
            == strip,
        event matches DebEvent::ClockRead { time } ==> spec_step_run(run, event).time == time,
        event matches DebEvent::DataGenerated { original_size } ==> spec_step_run(
            run,
            event,
        ).original_size == original_size,
        event matches DebEvent::ArchivesCompressed { control, data, data_size } ==> (spec_step_run(
            run,
            event,
        ).control == control && spec_step_run(run, event).data == data && spec_step_run(
            run,
            event,
        ).data_size == data_size),
        !(event is ConfigLoaded) ==> spec_step_run(run, event).strip == run.strip,
        !(event is ClockRead) ==> spec_step_run(run, event).time == run.time,
        !(event is DataGenerated) ==> spec_step_run(run, event).original_size
            == run.original_size,
        !(event is ArchivesCompressed) ==> (spec_step_run(run, event).control == run.control
            && spec_step_run(run, event).data == run.data && spec_step_run(run, event).data_size
            == run.data_size),
        event is Failed ==> spec_step_run(run, event).phase == DebPhase::Failed,
{
}

/// The compression report gives the two sizes and the percentage rounded
/// down: the `p` it shows is the one with `p * original <= compressed * 100
/// < (p + 1) * original`.
pub proof fn lemma_ratio_rounds_down(compressed: nat, original: nat)
    requires
        original > 0,
    ensures
        exists|p: nat|
            #![trigger spec_decimal(p)]
            p * original <= compressed * 100 < (p + 1) * original && spec_ratio_message(
                compressed,
                original,
            ) == "compressed/original ratio "@ + spec_decimal(compressed) + "/"@ + spec_decimal(
                original,
            ) + " ("@ + spec_decimal(p) + "%)"@,
{
    let p: nat = compressed * 100 / original;
    assert(p * original <= compressed * 100 < (p + 1) * original) by (nonlinear_arith)
        requires
            original > 0,
            p == compressed * 100 / original,
    ;
    assert(spec_decimal(p) == spec_decimal(p));
}

/// A failure is reported as `cargo-deb: <error>` followed by one
/// `  because: <cause>` line for each of the first four causes, in order.
pub proof fn lemma_failure_report_lines(message: Seq<char>, causes: Seq<Seq<char>>)
    ensures
        spec_failure_report(message, causes)[0] == "cargo-deb: "@ + message,
        spec_failure_report(message, causes).len() == 1 + (if causes.len() < 4 {
            causes.len() as int
        } else {
            4
        }),
        forall|i: int|
            1 <= i < spec_failure_report(message, causes).len() ==> #[trigger] spec_failure_report(
                message,
                causes,
            )[i] == "  because: "@ + causes[i - 1],
{
}

/// Only a leading `deb` is dropped from the cargo flags: the rest stay, in
/// order.
pub proof fn lemma_only_leading_deb_dropped(flags: Seq<Seq<char>>)
    ensures
        flags.len() > 0 && flags[0] == "deb"@ ==> spec_without_deb_flag(flags).len() == flags.len()
            - 1 && forall|i: int|
            0 <= i < flags.len() - 1 ==> #[trigger] spec_without_deb_flag(flags)[i] == flags[i + 1],
        !(flags.len() > 0 && flags[0] == "deb"@) ==> spec_without_deb_flag(flags) == flags,
{
}

impl DebRun {
    /// Starts a build with the given options; a leading `deb` cargo flag is
    /// dropped.
    pub fn new(opts: CliOptions) -> (run: DebRun)
        ensures
            run.phase == DebPhase::Start,
            run_wf(run),
            run.opts.cargo_build_flags.deep_view() == spec_without_deb_flag(
                opts.cargo_build_flags.deep_view(),
            ),
            run.opts.no_build == opts.no_build,
            run.opts.no_strip == opts.no_strip,
            run.opts.separate_debug_symbols == opts.separate_debug_symbols,
            run.opts.fast == opts.fast,
            run.opts.verbose == opts.verbose,
            run.opts.quiet == opts.quiet,
            run.opts.install == opts.install,
            run.opts.package_name == opts.package_name,
            run.opts.output_path == opts.output_path,
            run.opts.variant == opts.variant,
            run.opts.target == opts.target,
            run.opts.manifest_path == opts.manifest_path,
            run.opts.deb_version == opts.deb_version,
    {
        let CliOptions {
            no_build,
            no_strip,
            separate_debug_symbols,
            fast,
            verbose,
            quiet,
            install,
            package_name,
            output_path,
            variant,
            target,
            manifest_path,
            cargo_build_flags,
            deb_version,
        } = opts;
        let cargo_build_flags = without_deb_flag(cargo_build_flags);
        DebRun {
            opts: CliOptions {
                no_build,
                no_strip,
                separate_debug_symbols,
                fast,
                verbose,
                quiet,
                install,
                package_name,
                output_path,
                variant,
                target,
                manifest_path,
                cargo_build_flags,
                deb_version,
            },
            phase: DebPhase::Start,
            strip: false,
            time: 0,
            control: Compression::Xz,
            data: Compression::Xz,
            original_size: 0,
            data_size: 0,
        }
    }

    fn after(&self) -> (p: DebPhase)
        ensures
            p == spec_after(*self),
    {
        match self.phase {
            DebPhase::Start => if self.opts.install || self.opts.target.is_none() {
                DebPhase::Warning
            } else {
                DebPhase::LoadingConfig
            },
            DebPhase::Warning => DebPhase::LoadingConfig,
            DebPhase::LoadingConfig => DebPhase::ResettingTemp,
            DebPhase::ResettingTemp => if !self.opts.no_build {
                DebPhase::Building
            } else {
                DebPhase::ResolvingAssets
            },
            DebPhase::Building => DebPhase::ResolvingAssets,
            DebPhase::ResolvingAssets => DebPhase::CompressingAssets,
            DebPhase::CompressingAssets => if (self.strip || self.opts.separate_debug_symbols)
                && !self.opts.no_strip {
                DebPhase::Stripping
            } else {
                DebPhase::ReadingClock
            },
            DebPhase::Stripping => DebPhase::ReadingClock,
            DebPhase::ReadingClock => DebPhase::OpeningArchive,
            DebPhase::OpeningArchive => DebPhase::AddingDebianBinary,
            DebPhase::AddingDebianBinary => DebPhase::GeneratingData,
            DebPhase::GeneratingData => DebPhase::CompressingArchives,
            DebPhase::CompressingArchives => DebPhase::AddingControl,
            DebPhase::AddingControl => DebPhase::ReportingRatio,
            DebPhase::ReportingRatio => DebPhase::AddingData,
            DebPhase::AddingData => DebPhase::Finishing,
            DebPhase::Finishing => if !self.opts.quiet {
                DebPhase::PrintingPath
            } else {
                DebPhase::RemovingTemp
            },
            DebPhase::PrintingPath => DebPhase::RemovingTemp,
            DebPhase::RemovingTemp => if self.opts.install {
                DebPhase::Installing
            } else {
                DebPhase::Done
            },
            DebPhase::Installing => DebPhase::Done,
            DebPhase::Done => DebPhase::Done,
            DebPhase::Failed => DebPhase::Failed,
        }
    }

    /// The work that the current stage asks for.
    fn action(&self) -> (a: DebAction)
        requires
            self.phase != DebPhase::Start,
            self.phase == DebPhase::ReportingRatio ==> self.original_size > 0 && self.data_size
                * 100 <= usize::MAX,
        ensures
            action_for(a, *self),
    {
        match self.phase {
            DebPhase::Start => DebAction::Exit { success: false },
            DebPhase::Warning => DebAction::WarnIfNotLinux,
            DebPhase::LoadingConfig => {
                let manifest_path = match &self.opts.manifest_path {
                    Some(p) => p.clone(),
                    None => String::from_str("Cargo.toml"),
                };
                DebAction::LoadConfig {
                    manifest_path,
                    package_name: clone_opt_string(&self.opts.package_name),
                    output_path: clone_opt_string(&self.opts.output_path),
                    target: clone_opt_string(&self.opts.target),
                    variant: clone_opt_string(&self.opts.variant),
                    deb_version: clone_opt_string(&self.opts.deb_version),
                    listener: if self.opts.quiet {
                        ListenerKind::Silent
                    } else {
                        ListenerKind::StdErr { verbose: self.opts.verbose }
                    },
                }
            },
            DebPhase::ResettingTemp => DebAction::ResetTempDir,
            DebPhase::Building => DebAction::Build {
                target: clone_opt_string(&self.opts.target),
                flags: clone_strings(&self.opts.cargo_build_flags),
                verbose: self.opts.verbose,
            },
            DebPhase::ResolvingAssets => DebAction::ResolveAssets,
            DebPhase::CompressingAssets => DebAction::CompressAssets,
            DebPhase::Stripping => DebAction::StripBinaries {
                target: clone_opt_string(&self.opts.target),
                separate_debug_symbols: self.opts.separate_debug_symbols,
            },
            DebPhase::ReadingClock => DebAction::ReadClock,
            DebPhase::OpeningArchive => DebAction::OpenArchive,
            DebPhase::AddingDebianBinary => {
                let (name, contents) = debian_binary_member();
                DebAction::AddDebianBinary { name, contents, time: self.time }
            },
            DebPhase::GeneratingData => DebAction::GenerateData { time: self.time },
            DebPhase::CompressingArchives => DebAction::CompressArchives {
                fast: self.opts.fast,
                time: self.time,
            },
            DebPhase::AddingControl => DebAction::AddMember {
                name: member_name("control", self.control),
                time: self.time,
            },
            DebPhase::ReportingRatio => DebAction::Report {
                message: ratio_message(self.data_size, self.original_size),
            },
            DebPhase::AddingData => DebAction::AddMember {
                name: member_name("data", self.data),
                time: self.time,
            },
            DebPhase::Finishing => DebAction::Finish,
            DebPhase::PrintingPath => DebAction::PrintPath,
            DebPhase::RemovingTemp => DebAction::RemoveTempDir,
            DebPhase::Installing => DebAction::Install,
            DebPhase::Done => DebAction::Exit { success: true },
            DebPhase::Failed => DebAction::Exit { success: false },
        }
    }

    /// Takes the outcome of the work last asked for and tells the work to
    /// do next. The options never change; a loaded configuration, the size
    /// of the data archive and the compressions are remembered.
    pub fn step(&mut self, event: DebEvent) -> (a: DebAction)
        requires
            run_wf(*old(self)),
            event_fits(*old(self), event),
        ensures
            run_wf(*final(self)),
            *final(self) == spec_step_run(*old(self), event),
            action_for(a, *final(self)),
    {
        match event {
            DebEvent::ConfigLoaded { strip } => {
                self.strip = strip;
            },
            DebEvent::ClockRead { time } => {
                self.time = time;
            },
            DebEvent::DataGenerated { original_size } => {
                self.original_size = original_size;
            },
            DebEvent::ArchivesCompressed { control, data, data_size } => {
                self.control = control;
                self.data = data;
                self.data_size = data_size;
            },
            _ => {},
        }
        let next = match event {
            DebEvent::Failed => DebPhase::Failed,
            _ => self.after(),
        };
        self.phase = next;
        self.action()
    }
}

} // verus!
