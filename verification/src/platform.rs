//! The accessors: for each operating system and each metric, which sources
//! of text to consult and what their text says.
//!
//! An accessor does not run anything itself. [`queries`] names the programs
//! to run and the files to read; the caller does so and hands the captured
//! text of each, in order, to the accessor of the metric. A source that
//! failed, or whose output is no valid text, is handed over as `None`.

use crate::linux;
use crate::macos;
use crate::model::{cpu_view, RamInfo};
use crate::text::{
    lines, matches_at, text_of, texts_of, to_chars, trim, trimmed, CharClass, Span,
};
use crate::windows;
use vstd::prelude::*;

verus! {

/// The operating systems that the accessors know, and one value for all
/// others.
#[derive(Clone, Copy, Debug, PartialEq, Eq, Structural)]
pub enum Platform {
    Linux,
    MacOs,
    Windows,
    Unsupported,
}

/// What an accessor reports.
#[derive(Clone, Copy, Debug, PartialEq, Eq, Structural)]
pub enum Metric {
    Hostname,
    CpuInfo,
    GpuModel,
    RamInfo,
    OsVersion,
    SystemName,
}

/// How the text of a source is obtained.
#[derive(Clone, Copy, Debug, PartialEq, Eq, Structural)]
pub enum QueryKind {
    /// Run the program named by the first word with the other words as its
    /// arguments, and capture what it prints.
    Run,
    /// Read the file named by the only word.
    Read,
}

/// One source of text.
#[derive(Debug)]
pub struct Query {
    pub kind: QueryKind,
    pub words: Vec<&'static str>,
}

/// A [`Query`] as plain values.
pub struct QueryView {
    pub kind: QueryKind,
    pub words: Seq<Seq<char>>,
}

impl View for Query {
    type V = QueryView;

    open spec fn view(&self) -> QueryView {
        QueryView { kind: self.kind, words: Seq::new(self.words@.len(), |i: int| self.words@[i]@) }
    }
}

/// The program `words[0]` run with the arguments `words[1..]`.
pub open spec fn run(words: Seq<Seq<char>>) -> QueryView {
    QueryView { kind: QueryKind::Run, words }
}

/// The file `path` read.
pub open spec fn read(path: Seq<char>) -> QueryView {
    QueryView { kind: QueryKind::Read, words: seq![path] }
}

/// The platform that goes by `name`, as the standard library names
/// operating systems.
pub open spec fn platform_named(name: Seq<char>) -> Platform {
    if name == "linux"@ {
        Platform::Linux
    } else if name == "macos"@ {
        Platform::MacOs
    } else if name == "windows"@ {
        Platform::Windows
    } else {
        Platform::Unsupported
    }
}

/// Tests whether two strings hold the same characters.
fn same_text(a: &str, b: &str) -> (same: bool)
    ensures
        same == (a@ == b@),
{
    let left = to_chars(a);
    let right = to_chars(b);
    let whole = Span { start: 0, end: left.len() };
    assert(whole.of(left@) == left@);
    if left.len() != right.len() {
        return false;
    }
    let same = matches_at(&left, whole, 0, &right);
    assert(left@.subrange(0, right@.len() as int) == left@);
    same
}

impl Platform {
    /// Selects the platform by the name of the operating system.
    pub fn from_os_name(name: &str) -> (platform: Platform)
        ensures
            platform == platform_named(name@),
    {
        if same_text(name, "linux") {
            Platform::Linux
        } else if same_text(name, "macos") {
            Platform::MacOs
        } else if same_text(name, "windows") {
            Platform::Windows
        } else {
            Platform::Unsupported
        }
    }
}

/// The sources that the accessor of `metric` consults on `platform`, in the
/// order in which it expects their text. None on an unsupported platform,
/// and none for a metric that the platform does not have.
pub open spec fn plan(platform: Platform, metric: Metric) -> Seq<QueryView> {
    match platform {
        Platform::Linux => match metric {
            Metric::Hostname => seq![run(seq!["hostname"@])],
            Metric::CpuInfo => seq![run(seq!["cat"@, "/proc/cpuinfo"@])],
            Metric::GpuModel => seq![run(seq!["sh"@, "-c"@, "lspci | grep -i vga"@])],
            Metric::RamInfo => seq![
                run(seq!["grep"@, "MemTotal"@, "/proc/meminfo"@]),
                run(seq!["grep"@, "MemAvailable"@, "/proc/meminfo"@]),
            ],
            Metric::OsVersion => seq![read("/etc/os-release"@)],
            Metric::SystemName => seq![],
        },
        Platform::MacOs => match metric {
            Metric::Hostname => seq![run(seq!["hostname"@])],
            Metric::CpuInfo => seq![
                run(seq!["sysctl"@, "-n"@, "machdep.cpu.brand_string"@]),
                run(seq!["sysctl"@, "-n"@, "hw.physicalcpu"@]),
                run(seq!["sysctl"@, "-n"@, "hw.logicalcpu"@]),
            ],
            Metric::GpuModel => seq![
                run(
                    seq![
                        "sh"@,
                        "-c"@,
                        "system_profiler SPDisplaysDataType | grep 'Chipset Model'"@,
                    ],
                ),
            ],
            Metric::RamInfo => seq![run(seq!["sysctl"@, "hw.memsize"@]), run(seq!["vm_stat"@])],
            Metric::OsVersion => seq![run(seq!["sw_vers"@, "-productVersion"@])],
            Metric::SystemName => seq![run(seq!["scutil"@, "--get"@, "ComputerName"@])],
        },
        Platform::Windows => match metric {
            Metric::Hostname => seq![run(seq!["hostname"@])],
            Metric::CpuInfo => seq![
                run(seq!["wmic"@, "cpu"@, "get"@, "Name"@]),
                run(seq!["wmic"@, "cpu"@, "get"@, "NumberOfCores"@]),
                run(seq!["wmic"@, "cpu"@, "get"@, "NumberOfLogicalProcessors"@]),
            ],
            Metric::GpuModel => seq![
                run(seq!["wmic"@, "path"@, "win32_videocontroller"@, "get"@, "name"@]),
            ],
            Metric::RamInfo => seq![
                run(seq!["wmic"@, "ComputerSystem"@, "get"@, "TotalPhysicalMemory"@]),
                run(seq!["wmic"@, "OS"@, "get"@, "FreePhysicalMemory"@]),
            ],
            Metric::OsVersion => seq![run(seq!["wmic"@, "os"@, "get"@, "Caption"@])],
            Metric::SystemName => seq![run(seq!["wmic"@, "computersystem"@, "get"@, "Name"@])],
        },
        Platform::Unsupported => seq![],
    }
}

/// Builds the query that runs a program.
fn command(words: Vec<&'static str>) -> (query: Query)
    ensures
        query.kind == QueryKind::Run,
        query.words@ == words@,
{
    Query { kind: QueryKind::Run, words }
}

/// Builds the query that reads a file.
fn file(path: &'static str) -> (query: Query)
    ensures
        query@ == read(path@),
{
    let query = Query { kind: QueryKind::Read, words: vec![path] };
    assert(query@.words =~= seq![path@]);
    query
}

/// Names the sources that the accessor of `metric` consults on `platform`.
pub fn queries(platform: Platform, metric: Metric) -> (list: Vec<Query>)
    ensures
        list@.len() == plan(platform, metric).len(),
        forall|i: int| 0 <= i < list@.len() ==> (#[trigger] list@[i])@ == plan(platform, metric)[i],
{
    let list = match platform {
        Platform::Linux => match metric {
            Metric::Hostname => vec![command(vec!["hostname"])],
            Metric::CpuInfo => vec![command(vec!["cat", "/proc/cpuinfo"])],
            Metric::GpuModel => vec![command(vec!["sh", "-c", "lspci | grep -i vga"])],
            Metric::RamInfo => vec![
                command(vec!["grep", "MemTotal", "/proc/meminfo"]),
                command(vec!["grep", "MemAvailable", "/proc/meminfo"]),
            ],
            Metric::OsVersion => vec![file("/etc/os-release")],
            Metric::SystemName => vec![],
        },
        Platform::MacOs => match metric {
            Metric::Hostname => vec![command(vec!["hostname"])],
            Metric::CpuInfo => vec![
                command(vec!["sysctl", "-n", "machdep.cpu.brand_string"]),
                command(vec!["sysctl", "-n", "hw.physicalcpu"]),
                command(vec!["sysctl", "-n", "hw.logicalcpu"]),
            ],
            Metric::GpuModel => vec![
                command(
                    vec!["sh", "-c", "system_profiler SPDisplaysDataType | grep 'Chipset Model'"],
                ),
            ],
            Metric::RamInfo => vec![
                command(vec!["sysctl", "hw.memsize"]),
                command(vec!["vm_stat"]),
            ],
            Metric::OsVersion => vec![command(vec!["sw_vers", "-productVersion"])],
            Metric::SystemName => vec![command(vec!["scutil", "--get", "ComputerName"])],
        },
        Platform::Windows => match metric {
            Metric::Hostname => vec![command(vec!["hostname"])],
            Metric::CpuInfo => vec![
                command(vec!["wmic", "cpu", "get", "Name"]),
                command(vec!["wmic", "cpu", "get", "NumberOfCores"]),
                command(vec!["wmic", "cpu", "get", "NumberOfLogicalProcessors"]),
            ],
            Metric::GpuModel => vec![
                command(vec!["wmic", "path", "win32_videocontroller", "get", "name"]),
            ],
            Metric::RamInfo => vec![
                command(vec!["wmic", "ComputerSystem", "get", "TotalPhysicalMemory"]),
                command(vec!["wmic", "OS", "get", "FreePhysicalMemory"]),
            ],
            Metric::OsVersion => vec![command(vec!["wmic", "os", "get", "Caption"])],
            Metric::SystemName => vec![command(vec!["wmic", "computersystem", "get", "Name"])],
        },
        Platform::Unsupported => vec![],
    };
    proof {
        let wanted = plan(platform, metric);
        assert forall|i: int| 0 <= i < list@.len() implies (#[trigger] list@[i])@ == wanted[i] by {
            assert(list@[i]@.words =~= wanted[i].words);
        }
    }
    list
}

/// The text of source `i`, where that source was consulted and gave text.
pub open spec fn output(outputs: Seq<Option<Seq<char>>>, i: int) -> Option<Seq<char>> {
    if 0 <= i < outputs.len() {
        outputs[i]
    } else {
        None
    }
}

/// Looks up the text of source `i`.
fn output_at(outputs: &Vec<Option<String>>, i: usize) -> (text: Option<&str>)
    ensures
        match text {
            Some(t) => Some(t@),
            None => None,
        } == output(texts_of(outputs@), i as int),
{
    if i < outputs.len() {
        match &outputs[i] {
            Some(text) => Some(text.as_str()),
            None => None,
        }
    } else {
        None
    }
}

/// The name that the hostname utility printed: its output without
/// surrounding whitespace, and nothing where it printed nothing.
pub open spec fn hostname_of(output: Seq<char>) -> Option<Seq<char>> {
    if output.len() == 0 {
        None
    } else {
        Some(trim(output, CharClass::Whitespace))
    }
}

/// The network name of the machine.
pub open spec fn hostname(platform: Platform, outputs: Seq<Option<Seq<char>>>) -> Option<
    Seq<char>,
> {
    match (platform, output(outputs, 0)) {
        (Platform::Unsupported, _) => None,
        (_, Some(printed)) => hostname_of(printed),
        (_, None) => None,
    }
}

/// Reports the network name of the machine from the output of the sources
/// of [`Metric::Hostname`].
pub fn get_hostname(platform: Platform, outputs: &Vec<Option<String>>) -> (name: Option<String>)
    ensures
        text_of(name) == hostname(platform, texts_of(outputs@)),
{
    match (platform, output_at(outputs, 0)) {
        (Platform::Unsupported, _) => None,
        (_, Some(printed)) => if printed.is_empty() {
            None
        } else {
            Some(trimmed(printed))
        },
        (_, None) => None,
    }
}

/// Model name, core count and thread count of the processor.
pub open spec fn cpu_model(platform: Platform, outputs: Seq<Option<Seq<char>>>) -> Option<
    (Seq<char>, int, int),
> {
    match platform {
        Platform::Linux => match output(outputs, 0) {
            Some(table) => linux::cpu_info(table),
            None => None,
        },
        Platform::MacOs => match (output(outputs, 0), output(outputs, 1), output(outputs, 2)) {
            (Some(brand), Some(cores), Some(threads)) => macos::cpu_info(brand, cores, threads),
            _ => None,
        },
        Platform::Windows => match (output(outputs, 0), output(outputs, 1), output(outputs, 2)) {
            (Some(model), Some(cores), Some(threads)) => Some(
                windows::cpu_info(model, cores, threads),
            ),
            _ => None,
        },
        Platform::Unsupported => None,
    }
}

/// Reports the processor from the output of the sources of
/// [`Metric::CpuInfo`].
pub fn get_cpu_model(platform: Platform, outputs: &Vec<Option<String>>) -> (info: Option<
    (String, usize, usize),
>)
    ensures
        cpu_view(info) == cpu_model(platform, texts_of(outputs@)),
{
    match platform {
        Platform::Linux => match output_at(outputs, 0) {
            Some(table) => linux::parse_cpu_info(table),
            None => None,
        },
        Platform::MacOs => match (
            output_at(outputs, 0),
            output_at(outputs, 1),
            output_at(outputs, 2),
        ) {
            (Some(brand), Some(cores), Some(threads)) => macos::parse_cpu_info(
                brand,
                cores,
                threads,
            ),
            _ => None,
        },
        Platform::Windows => match (
            output_at(outputs, 0),
            output_at(outputs, 1),
            output_at(outputs, 2),
        ) {
            (Some(model), Some(cores), Some(threads)) => Some(
                windows::parse_cpu_info(model, cores, threads),
            ),
            _ => None,
        },
        Platform::Unsupported => None,
    }
}

/// Model name of the first graphics adapter.
pub open spec fn gpu_model(platform: Platform, outputs: Seq<Option<Seq<char>>>) -> Option<
    Seq<char>,
> {
    match (platform, output(outputs, 0)) {
        (Platform::Linux, Some(listing)) => linux::gpu_model(listing),
        (Platform::MacOs, Some(profile)) => macos::gpu_model(profile),
        (Platform::Windows, Some(table)) => windows::second_row(table),
        _ => None,
    }
}

/// Reports the graphics adapter from the output of the sources of
/// [`Metric::GpuModel`].
pub fn get_gpu_model(platform: Platform, outputs: &Vec<Option<String>>) -> (model: Option<String>)
    ensures
        text_of(model) == gpu_model(platform, texts_of(outputs@)),
{
    match (platform, output_at(outputs, 0)) {
        (Platform::Linux, Some(listing)) => linux::parse_gpu_model(listing),
        (Platform::MacOs, Some(profile)) => macos::parse_gpu_model(profile),
        (Platform::Windows, Some(table)) => windows::parse_second_row(table),
        _ => None,
    }
}

/// Memory in use and memory installed.
pub open spec fn ram_info(platform: Platform, outputs: Seq<Option<Seq<char>>>) -> Option<RamInfo> {
    match (platform, output(outputs, 0), output(outputs, 1)) {
        (Platform::Linux, Some(total), Some(available)) => linux::ram_info(total, available),
        (Platform::MacOs, Some(total), Some(statistics)) => macos::ram_info(total, statistics),
        (Platform::Windows, Some(total), Some(free)) => windows::ram_info(total, free),
        _ => None,
    }
}

/// Reports memory use from the output of the sources of
/// [`Metric::RamInfo`].
pub fn get_ram_info(platform: Platform, outputs: &Vec<Option<String>>) -> (info: Option<RamInfo>)
    ensures
        info == ram_info(platform, texts_of(outputs@)),
        info matches Some(i) ==> i.wf(),
{
    match (platform, output_at(outputs, 0), output_at(outputs, 1)) {
        (Platform::Linux, Some(total), Some(available)) => linux::parse_ram_info(
            total,
            available,
        ),
        (Platform::MacOs, Some(total), Some(statistics)) => macos::parse_ram_info(
            total,
            statistics,
        ),
        (Platform::Windows, Some(total), Some(free)) => windows::parse_ram_info(total, free),
        _ => None,
    }
}

/// Version or distribution name of the operating system.
pub open spec fn os_version(platform: Platform, outputs: Seq<Option<Seq<char>>>) -> Option<
    Seq<char>,
> {
    match (platform, output(outputs, 0)) {
        (Platform::Linux, Some(release)) => linux::os_version(release),
        (Platform::MacOs, Some(printed)) => Some(trim(printed, CharClass::Whitespace)),
        (Platform::Windows, Some(table)) => windows::second_row(table),
        _ => None,
    }
}

/// Reports the version of the operating system from the output of the
/// sources of [`Metric::OsVersion`].
pub fn get_os_version(platform: Platform, outputs: &Vec<Option<String>>) -> (version: Option<
    String,
>)
    ensures
        text_of(version) == os_version(platform, texts_of(outputs@)),
{
    match (platform, output_at(outputs, 0)) {
        (Platform::Linux, Some(release)) => linux::parse_os_version(release),
        (Platform::MacOs, Some(printed)) => Some(trimmed(printed)),
        (Platform::Windows, Some(table)) => windows::parse_second_row(table),
        _ => None,
    }
}

/// The name under which the machine is shown to its user. Linux has none.
pub open spec fn system_name(platform: Platform, outputs: Seq<Option<Seq<char>>>) -> Option<
    Seq<char>,
> {
    match (platform, output(outputs, 0)) {
        (Platform::MacOs, Some(printed)) => Some(trim(printed, CharClass::Whitespace)),
        (Platform::Windows, Some(table)) => windows::second_row(table),
        _ => None,
    }
}

/// Reports the display name of the machine from the output of the sources
/// of [`Metric::SystemName`].
pub fn get_system_name(platform: Platform, outputs: &Vec<Option<String>>) -> (name: Option<String>)
    ensures
        text_of(name) == system_name(platform, texts_of(outputs@)),
{
    match (platform, output_at(outputs, 0)) {
        (Platform::MacOs, Some(printed)) => Some(trimmed(printed)),
        (Platform::Windows, Some(table)) => windows::parse_second_row(table),
        _ => None,
    }
}

/// On an unsupported platform no accessor consults any source, and each
/// reports nothing, whatever it is handed.
pub proof fn lemma_unsupported_reports_nothing(metric: Metric, outputs: Seq<Option<Seq<char>>>)
    ensures
        plan(Platform::Unsupported, metric).len() == 0,
        hostname(Platform::Unsupported, outputs) is None,
        cpu_model(Platform::Unsupported, outputs) is None,
        gpu_model(Platform::Unsupported, outputs) is None,
        ram_info(Platform::Unsupported, outputs) is None,
        os_version(Platform::Unsupported, outputs) is None,
        system_name(Platform::Unsupported, outputs) is None,
{
}

/// The installed memory as the first source of [`Metric::RamInfo`] states
/// it, in the unit in which the platform counts it: kibibytes on Linux and
/// Windows, bytes on macOS.
pub open spec fn installed_memory(platform: Platform, outputs: Seq<Option<Seq<char>>>) -> Option<
    int,
> {
    match (platform, output(outputs, 0)) {
        (Platform::Linux, Some(total)) => linux::labeled_amount(total, "MemTotal"@),
        (Platform::MacOs, Some(total)) => macos::installed_bytes(total),
        (Platform::Windows, Some(total)) => windows::installed_kib(total),
        _ => None,
    }
}

/// On every platform, where the installed memory comes out as zero there
/// is no report of memory use: no usage is computed from a zero total.
pub proof fn lemma_no_memory_no_report(platform: Platform, outputs: Seq<Option<Seq<char>>>)
    requires
        installed_memory(platform, outputs) == Some(0int),
    ensures
        ram_info(platform, outputs) is None,
{
}

/// Whatever is reported of memory use has a total above zero.
pub proof fn lemma_reported_memory_is_installed(
    platform: Platform,
    outputs: Seq<Option<Seq<char>>>,
)
    ensures
        ram_info(platform, outputs) is Some ==> installed_memory(platform, outputs) is Some
            && installed_memory(platform, outputs)->0 != 0,
{
}

/// On Windows, tables that end after their header line describe the
/// processor by the defaults, and give no graphics adapter, no version and
/// no display name.
pub proof fn lemma_windows_header_only(model: Seq<char>, cores: Seq<char>, threads: Seq<char>)
    requires
        lines(model).len() == 1,
        lines(cores).len() == 1,
        lines(threads).len() == 1,
    ensures
        cpu_model(Platform::Windows, seq![Some(model), Some(cores), Some(threads)]) == Some(
            ("Unknown"@, 1int, 1int),
        ),
        gpu_model(Platform::Windows, seq![Some(model)]) is None,
        os_version(Platform::Windows, seq![Some(model)]) is None,
        system_name(Platform::Windows, seq![Some(model)]) is None,
{
}

} // verus!
