use platform_info::model::RamInfo;
use platform_info::platform::{
    get_cpu_model, get_gpu_model, get_hostname, get_os_version, get_ram_info, get_system_name,
    queries, Metric, Platform, QueryKind,
};

const PLATFORMS: [Platform; 4] =
    [Platform::Linux, Platform::MacOs, Platform::Windows, Platform::Unsupported];
const METRICS: [Metric; 6] = [
    Metric::Hostname,
    Metric::CpuInfo,
    Metric::GpuModel,
    Metric::RamInfo,
    Metric::OsVersion,
    Metric::SystemName,
];

fn texts(items: &[&str]) -> Vec<Option<String>> {
    items.iter().map(|item| Some(item.to_string())).collect()
}

fn words(platform: Platform, metric: Metric) -> Vec<(QueryKind, Vec<&'static str>)> {
    queries(platform, metric).into_iter().map(|query| (query.kind, query.words)).collect()
}

#[test]
fn platform_goes_by_the_name_of_the_operating_system() {
    assert_eq!(Platform::from_os_name("linux"), Platform::Linux);
    assert_eq!(Platform::from_os_name("macos"), Platform::MacOs);
    assert_eq!(Platform::from_os_name("windows"), Platform::Windows);
    assert_eq!(Platform::from_os_name("freebsd"), Platform::Unsupported);
    assert_eq!(Platform::from_os_name("Linux"), Platform::Unsupported);
    assert_eq!(Platform::from_os_name("linux "), Platform::Unsupported);
    assert_eq!(Platform::from_os_name(""), Platform::Unsupported);
}

#[test]
fn unsupported_platform_consults_nothing_and_reports_nothing() {
    for metric in METRICS {
        assert!(queries(Platform::Unsupported, metric).is_empty());
    }
    for outputs in [vec![], texts(&["host"]), texts(&["a\nb\n", "1\n2\n", "3\n4\n"])] {
        assert_eq!(get_hostname(Platform::Unsupported, &outputs), None);
        assert_eq!(get_cpu_model(Platform::Unsupported, &outputs), None);
        assert_eq!(get_gpu_model(Platform::Unsupported, &outputs), None);
        assert_eq!(get_ram_info(Platform::Unsupported, &outputs), None);
        assert_eq!(get_os_version(Platform::Unsupported, &outputs), None);
        assert_eq!(get_system_name(Platform::Unsupported, &outputs), None);
    }
}

#[test]
fn linux_sources() {
    let p = Platform::Linux;
    assert_eq!(words(p, Metric::Hostname), vec![(QueryKind::Run, vec!["hostname"])]);
    assert_eq!(words(p, Metric::CpuInfo), vec![(QueryKind::Run, vec!["cat", "/proc/cpuinfo"])]);
    assert_eq!(words(p, Metric::GpuModel), vec![(QueryKind::Run, vec!["sh", "-c", "lspci | grep -i vga"])]);
    assert_eq!(
        words(p, Metric::RamInfo),
        vec![
            (QueryKind::Run, vec!["grep", "MemTotal", "/proc/meminfo"]),
            (QueryKind::Run, vec!["grep", "MemAvailable", "/proc/meminfo"]),
        ]
    );
    assert_eq!(words(p, Metric::OsVersion), vec![(QueryKind::Read, vec!["/etc/os-release"])]);
    assert_eq!(words(p, Metric::SystemName), vec![]);
}

#[test]
fn macos_sources() {
    let p = Platform::MacOs;
    assert_eq!(words(p, Metric::Hostname), vec![(QueryKind::Run, vec!["hostname"])]);
    assert_eq!(
        words(p, Metric::CpuInfo),
        vec![
            (QueryKind::Run, vec!["sysctl", "-n", "machdep.cpu.brand_string"]),
            (QueryKind::Run, vec!["sysctl", "-n", "hw.physicalcpu"]),
            (QueryKind::Run, vec!["sysctl", "-n", "hw.logicalcpu"]),
        ]
    );
    assert_eq!(
        words(p, Metric::GpuModel),
        vec![(QueryKind::Run, vec!["sh", "-c", "system_profiler SPDisplaysDataType | grep 'Chipset Model'"])]
    );
    assert_eq!(
        words(p, Metric::RamInfo),
        vec![(QueryKind::Run, vec!["sysctl", "hw.memsize"]), (QueryKind::Run, vec!["vm_stat"])]
    );
    assert_eq!(words(p, Metric::OsVersion), vec![(QueryKind::Run, vec!["sw_vers", "-productVersion"])]);
    assert_eq!(words(p, Metric::SystemName), vec![(QueryKind::Run, vec!["scutil", "--get", "ComputerName"])]);
}

#[test]
fn windows_sources() {
    let p = Platform::Windows;
    assert_eq!(words(p, Metric::Hostname), vec![(QueryKind::Run, vec!["hostname"])]);
    assert_eq!(
        words(p, Metric::CpuInfo),
        vec![
            (QueryKind::Run, vec!["wmic", "cpu", "get", "Name"]),
            (QueryKind::Run, vec!["wmic", "cpu", "get", "NumberOfCores"]),
            (QueryKind::Run, vec!["wmic", "cpu", "get", "NumberOfLogicalProcessors"]),
        ]
    );
    assert_eq!(
        words(p, Metric::GpuModel),
        vec![(QueryKind::Run, vec!["wmic", "path", "win32_videocontroller", "get", "name"])]
    );
    assert_eq!(
        words(p, Metric::RamInfo),
        vec![
            (QueryKind::Run, vec!["wmic", "ComputerSystem", "get", "TotalPhysicalMemory"]),
            (QueryKind::Run, vec!["wmic", "OS", "get", "FreePhysicalMemory"]),
        ]
    );
    assert_eq!(words(p, Metric::OsVersion), vec![(QueryKind::Run, vec!["wmic", "os", "get", "Caption"])]);
    assert_eq!(words(p, Metric::SystemName), vec![(QueryKind::Run, vec!["wmic", "computersystem", "get", "Name"])]);
}

#[test]
fn hostname_is_the_trimmed_output() {
    for platform in [Platform::Linux, Platform::MacOs, Platform::Windows] {
        assert_eq!(get_hostname(platform, &texts(&["  my-host\n"])), Some("my-host".to_string()));
        assert_eq!(get_hostname(platform, &texts(&[""])), None);
        assert_eq!(get_hostname(platform, &texts(&["\n"])), Some("".to_string()));
        assert_eq!(get_hostname(platform, &vec![None]), None);
        assert_eq!(get_hostname(platform, &vec![]), None);
    }
}

#[test]
fn failed_source_gives_no_report() {
    for platform in PLATFORMS {
        for outputs in [vec![], vec![None], vec![None, None, None]] {
            assert_eq!(get_hostname(platform, &outputs), None);
            assert_eq!(get_cpu_model(platform, &outputs), None);
            assert_eq!(get_gpu_model(platform, &outputs), None);
            assert_eq!(get_ram_info(platform, &outputs), None);
            assert_eq!(get_os_version(platform, &outputs), None);
            assert_eq!(get_system_name(platform, &outputs), None);
        }
    }
    let partial = vec![Some("Name\nCPU\n".to_string()), None, Some("N\n4\n".to_string())];
    assert_eq!(get_cpu_model(Platform::Windows, &partial), None);
    assert_eq!(get_cpu_model(Platform::MacOs, &partial), None);
    let one = texts(&["MemTotal: 5 kB"]);
    assert_eq!(get_ram_info(Platform::Linux, &one), None);
}

#[test]
fn linux_accessors_read_their_sources() {
    let p = Platform::Linux;
    assert_eq!(
        get_cpu_model(p, &texts(&["processor : 0\nmodel name : Example\ncpu cores : 2\nprocessor : 1\n"])),
        Some(("Example".to_string(), 2, 2))
    );
    assert_eq!(
        get_gpu_model(p, &texts(&["00:02.0 VGA compatible controller: First\n01:00.0 VGA compatible controller: Second\n"])),
        Some("First".to_string())
    );
    assert_eq!(
        get_ram_info(p, &texts(&["MemTotal: 16384000 kB\n", "MemAvailable: 8192000 kB\n"])),
        Some(RamInfo { used_bytes: 8192000 * 1024, total_bytes: 16384000 * 1024 })
    );
    assert_eq!(
        get_os_version(p, &texts(&["PRETTY_NAME=\"Ubuntu 22.04 LTS\"\n"])),
        Some("Ubuntu 22.04 LTS".to_string())
    );
    assert_eq!(get_os_version(p, &texts(&["NAME=Ubuntu\n"])), None);
    assert_eq!(get_system_name(p, &texts(&["anything\n"])), None);
}

#[test]
fn macos_accessors_read_their_sources() {
    let p = Platform::MacOs;
    assert_eq!(get_cpu_model(p, &texts(&["Apple M1\n", "8\n", "8\n"])), Some(("Apple M1".to_string(), 8, 8)));
    assert_eq!(get_gpu_model(p, &texts(&["      Chipset Model: Apple M1\n"])), Some("Apple M1".to_string()));
    assert_eq!(
        get_ram_info(p, &texts(&["hw.memsize: 17179869184\n", "(page size of 4096 bytes)\nPages active: 1024.\n"])),
        Some(RamInfo { used_bytes: 4194304, total_bytes: 17179869184 })
    );
    assert_eq!(get_os_version(p, &texts(&["14.4.1\n"])), Some("14.4.1".to_string()));
    assert_eq!(get_system_name(p, &texts(&["Ada's MacBook Pro\n"])), Some("Ada's MacBook Pro".to_string()));
}

#[test]
fn windows_accessors_read_their_sources() {
    let p = Platform::Windows;
    assert_eq!(
        get_cpu_model(p, &texts(&["Name\r\nCPU X\r\n", "NumberOfCores\r\n4\r\n", "NumberOfLogicalProcessors\r\n8\r\n"])),
        Some(("CPU X".to_string(), 4, 8))
    );
    assert_eq!(get_gpu_model(p, &texts(&["Name\r\nAdapter One\r\nAdapter Two\r\n"])), Some("Adapter One".to_string()));
    assert_eq!(
        get_ram_info(p, &texts(&["TotalPhysicalMemory\r\n2048\r\n", "FreePhysicalMemory\r\n1\r\n"])),
        Some(RamInfo { used_bytes: 1024, total_bytes: 2048 })
    );
    assert_eq!(get_os_version(p, &texts(&["Caption\r\nMicrosoft Windows 11 Pro\r\n"])), Some("Microsoft Windows 11 Pro".to_string()));
    assert_eq!(get_system_name(p, &texts(&["Name\r\nDESKTOP-1\r\n"])), Some("DESKTOP-1".to_string()));
}

#[test]
fn windows_header_only_tables_default_for_processor_alone() {
    let p = Platform::Windows;
    assert_eq!(
        get_cpu_model(p, &texts(&["Name\r\n", "NumberOfCores\r\n", "NumberOfLogicalProcessors\r\n"])),
        Some(("Unknown".to_string(), 1, 1))
    );
    assert_eq!(get_gpu_model(p, &texts(&["Name\r\n"])), None);
    assert_eq!(get_os_version(p, &texts(&["Caption\r\n"])), None);
    assert_eq!(get_system_name(p, &texts(&["Name\r\n"])), None);
}

#[test]
fn zero_total_memory_gives_no_report_on_any_platform() {
    assert_eq!(get_ram_info(Platform::Linux, &texts(&["MemTotal: 0 kB", "MemAvailable: 0 kB"])), None);
    assert_eq!(get_ram_info(Platform::MacOs, &texts(&["hw.memsize: 0", "Pages active: 5.\n"])), None);
    assert_eq!(get_ram_info(Platform::Windows, &texts(&["T\r\n0\r\n", "F\r\n0\r\n"])), None);
    assert_eq!(get_ram_info(Platform::Windows, &texts(&["T\r\n512\r\n", "F\r\n0\r\n"])), None);
}
