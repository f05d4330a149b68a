use platform_info::linux::{
    parse_cpu_info, parse_gpu_model, parse_labeled_amount, parse_os_version, parse_ram_info,
};

const CPU_TABLE: &str = "processor\t: 0\nvendor_id\t: GenuineIntel\nmodel name\t: Intel(R) Core(TM) i7-8550U CPU @ 1.80GHz\ncpu cores\t: 4\n\nprocessor\t: 1\nvendor_id\t: GenuineIntel\nmodel name\t: Second Name\ncpu cores\t: 8\n\nprocessor\t: 2\n";

#[test]
fn descriptor_table_gives_first_model_and_cores() {
    assert_eq!(
        parse_cpu_info(CPU_TABLE),
        Some(("Intel(R) Core(TM) i7-8550U CPU @ 1.80GHz".to_string(), 4, 3))
    );
}

#[test]
fn thread_count_is_the_number_of_processor_lines() {
    for n in 0..6usize {
        for cores in ["1", "64", "none"] {
            let mut table = format!("model name : M\ncpu cores : {}\n", cores);
            for i in 0..n {
                table.push_str(&format!("processor : {}\n", i));
            }
            let (_, _, threads) = parse_cpu_info(&table).unwrap();
            assert_eq!(threads, n);
        }
    }
}

#[test]
fn table_without_model_name_gives_nothing() {
    assert_eq!(parse_cpu_info("processor : 0\ncpu cores : 4\nprocessor : 1\n"), None);
    assert_eq!(parse_cpu_info(""), None);
}

#[test]
fn unreadable_core_count_defaults_to_one() {
    assert_eq!(
        parse_cpu_info("model name : M\ncpu cores : many\nprocessor : 0\n"),
        Some(("M".to_string(), 1, 1))
    );
    assert_eq!(parse_cpu_info("model name : M\n"), Some(("M".to_string(), 1, 0)));
}

#[test]
fn key_line_without_colon_gives_nothing() {
    assert_eq!(parse_cpu_info("model name\nmodel name : M\n"), None);
    assert_eq!(parse_cpu_info("model name : M\ncpu cores\ncpu cores : 2\n"), None);
}

#[test]
fn record_value_is_the_rest_of_the_line() {
    assert_eq!(parse_cpu_info("model name : A : B\n"), Some(("A : B".to_string(), 1, 0)));
    assert_eq!(
        parse_cpu_info("model name\t: Intel(R) Xeon(R) CPU E5-2680 v4 @ 2.40GHz: rev 1 \n"),
        Some(("Intel(R) Xeon(R) CPU E5-2680 v4 @ 2.40GHz: rev 1".to_string(), 1, 0))
    );
    assert_eq!(parse_cpu_info("model name : M\ncpu cores : 4 : 2\n"), Some(("M".to_string(), 1, 0)));
    assert_eq!(parse_cpu_info("model name :\n"), Some(("".to_string(), 1, 0)));
}

#[test]
fn first_adapter_in_file_order_is_reported() {
    let listing = "00:02.0 VGA compatible controller: Intel Corporation UHD Graphics 620 (rev 07)\n01:00.0 VGA compatible controller: NVIDIA Corporation GP108M\n";
    assert_eq!(
        parse_gpu_model(listing),
        Some("Intel Corporation UHD Graphics 620 (rev 07)".to_string())
    );
}

#[test]
fn lines_without_an_adapter_are_passed_over() {
    let listing = "00:1f.3 Audio device: Intel\nVGA compatible controller: \n01:00.0 VGA compatible controller: NVIDIA\n";
    assert_eq!(parse_gpu_model(listing), Some("NVIDIA".to_string()));
}

#[test]
fn listing_without_an_adapter_gives_nothing() {
    assert_eq!(parse_gpu_model("00:1f.3 Audio device: Intel\n"), None);
    assert_eq!(parse_gpu_model(""), None);
}

#[test]
fn memory_table_gives_used_and_total() {
    let info = parse_ram_info("MemTotal: 16384000 kB\n", "MemAvailable: 8192000 kB\n").unwrap();
    assert_eq!(info.total_bytes, 16384000u128 * 1024);
    assert_eq!(info.used_bytes, 8192000i128 * 1024);
    let total_gib = info.total_bytes as f64 / 1_073_741_824.0;
    let used_gib = info.used_bytes as f64 / 1_073_741_824.0;
    let percent = info.used_bytes as f64 / info.total_bytes as f64 * 100.0;
    assert_eq!(total_gib, 15.625);
    assert_eq!(used_gib, 7.8125);
    assert_eq!(percent, 50.0);
    assert!((total_gib - 15.63).abs() < 0.01);
    assert_eq!(format!("{:.2}", percent), "50.00");
}

#[test]
fn whole_memory_table_serves_both_amounts() {
    let table = "MemTotal:       16384000 kB\nMemFree:         1000000 kB\nMemAvailable:    8192000 kB\n";
    let info = parse_ram_info(table, table).unwrap();
    assert_eq!(info.total_bytes, 16384000u128 * 1024);
    assert_eq!(info.used_bytes, 8192000i128 * 1024);
}

#[test]
fn used_and_available_add_up_to_total() {
    for (total, available) in [(1u64, 0u64), (1, 1), (1000, 250), (u64::MAX, 0), (u64::MAX, u64::MAX)] {
        let info = parse_ram_info(
            &format!("MemTotal: {} kB", total),
            &format!("MemAvailable: {} kB", available),
        )
        .unwrap();
        assert_eq!(info.total_bytes, total as u128 * 1024);
        assert_eq!(info.used_bytes + available as i128 * 1024, info.total_bytes as i128);
        assert!(0 <= info.used_bytes && info.used_bytes as u128 <= info.total_bytes);
    }
}

#[test]
fn more_available_than_total_gives_negative_use() {
    let info = parse_ram_info("MemTotal: 1 kB", "MemAvailable: 2 kB").unwrap();
    assert_eq!(info.used_bytes, -1024);
    assert_eq!(info.total_bytes, 1024);
}

#[test]
fn zero_total_gives_no_memory_report() {
    assert_eq!(parse_ram_info("MemTotal: 0 kB", "MemAvailable: 0 kB"), None);
    assert_eq!(parse_ram_info("MemTotal: 0 kB", "MemAvailable: 5 kB"), None);
}

#[test]
fn unreadable_amount_gives_no_memory_report() {
    assert_eq!(parse_ram_info("", "MemAvailable: 5 kB"), None);
    assert_eq!(parse_ram_info("MemTotal: 10 kB", ""), None);
    assert_eq!(parse_ram_info("MemTotal: ten kB", "MemAvailable: 5 kB"), None);
    assert_eq!(parse_ram_info("MemTotal:", "MemAvailable: 5 kB"), None);
    assert_eq!(parse_ram_info("MemTotal: 10 kB", "MemAvailable: 99999999999999999999 kB"), None);
    assert_eq!(parse_ram_info("Total: 10 kB", "MemAvailable: 5 kB"), None);
}

#[test]
fn amount_is_the_second_token_of_the_labelled_line() {
    assert_eq!(parse_labeled_amount("Other: 1 kB\nMemTotal: 7 kB\nMemTotal: 9 kB", "MemTotal"), Some(7));
    assert_eq!(parse_labeled_amount("x MemTotal 5", "MemTotal"), None);
    assert_eq!(parse_labeled_amount("MemTotal\n5 6", "MemTotal"), None);
}

#[test]
fn pretty_name_is_unquoted() {
    assert_eq!(
        parse_os_version("NAME=Ubuntu\nPRETTY_NAME=\"Ubuntu 22.04 LTS\"\nID=ubuntu\n"),
        Some("Ubuntu 22.04 LTS".to_string())
    );
    assert_eq!(
        parse_os_version("PRETTY_NAME=\"Ubuntu 22.04 LTS\""),
        Some("Ubuntu 22.04 LTS".to_string())
    );
}

#[test]
fn pretty_name_keeps_an_equals_sign_in_its_value() {
    assert_eq!(
        parse_os_version("PRETTY_NAME=\"Foo OS (build=7)\""),
        Some("Foo OS (build=7)".to_string())
    );
    assert_eq!(
        parse_os_version("ID=foo\nPRETTY_NAME=\"Foo OS (build=7)\"\nHOME_URL=\"https://example.org/?a=b\"\n"),
        Some("Foo OS (build=7)".to_string())
    );
}

#[test]
fn release_file_without_pretty_name_gives_nothing() {
    assert_eq!(parse_os_version("NAME=Ubuntu\nID=ubuntu\n"), None);
    assert_eq!(parse_os_version(" PRETTY_NAME=\"x\"\n"), None);
    assert_eq!(parse_os_version(""), None);
}

#[test]
fn pretty_name_edge_cases() {
    assert_eq!(parse_os_version("PRETTY_NAME=Plain\n"), Some("Plain".to_string()));
    assert_eq!(parse_os_version("PRETTY_NAME=\"a=b\"\n"), Some("a=b".to_string()));
    assert_eq!(parse_os_version("PRETTY_NAME=\"\"Twice\"\"\n"), Some("Twice".to_string()));
    assert_eq!(parse_os_version("PRETTY_NAME=\"In \"the\" middle\"\n"), Some("In \"the\" middle".to_string()));
    assert_eq!(parse_os_version("PRETTY_NAME=\"CRLF\"\r\nID=x\r\n"), Some("CRLF".to_string()));
    assert_eq!(parse_os_version("PRETTY_NAME=\n"), Some("".to_string()));
    assert_eq!(
        parse_os_version("PRETTY_NAME=\"First\"\nPRETTY_NAME=\"Second\"\n"),
        Some("First".to_string())
    );
}
