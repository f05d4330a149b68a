use platform_info::macos::{
    parse_cpu_info as mac_cpu, parse_gpu_model as mac_gpu, parse_ram_info as mac_ram,
    ram_from_captures, DEFAULT_PAGE_SIZE,
};

const VM_STAT: &str = "Mach Virtual Memory Statistics: (page size of 16384 bytes)\nPages free:                               12345.\nPages active:                             100000.\nPages inactive:                            90000.\n";

#[test]
fn kernel_parameters_describe_the_processor() {
    assert_eq!(mac_cpu("Apple M1\n", "8\n", "8\n"), Some(("Apple M1".to_string(), 8, 8)));
    assert_eq!(mac_cpu("  Intel(R) Core(TM) i9 \n", " 6", "12 "), Some(("Intel(R) Core(TM) i9".to_string(), 6, 12)));
}

#[test]
fn unreadable_count_gives_no_processor() {
    assert_eq!(mac_cpu("Apple M1\n", "eight\n", "8\n"), None);
    assert_eq!(mac_cpu("Apple M1\n", "8\n", ""), None);
    assert_eq!(mac_cpu("Apple M1\n", "8 8\n", "8\n"), None);
}

#[test]
fn first_chipset_is_reported() {
    let profile = "      Chipset Model: Apple M1\n      Chipset Model: AMD Radeon Pro 5500M\n";
    assert_eq!(mac_gpu(profile), Some("Apple M1".to_string()));
    assert_eq!(mac_gpu("Displays:\n"), None);
    assert_eq!(mac_gpu(""), None);
}

#[test]
fn statistics_pages_are_captured_with_a_single_space() {
    let stats = "Mach Virtual Memory Statistics: (page size of 4096 bytes)\nPages active: 1000.\n";
    let info = mac_ram("hw.memsize: 17179869184\n", stats).unwrap();
    assert_eq!(info.total_bytes, 17179869184);
    assert_eq!(info.used_bytes, 4096000);
}

#[test]
fn padded_page_count_is_not_captured() {
    assert_eq!(mac_ram("hw.memsize: 17179869184\n", VM_STAT), None);
}

#[test]
fn memory_from_captured_fields() {
    let info = ram_from_captures(
        "hw.memsize: 17179869184",
        &Some("100000".to_string()),
        &Some("16384".to_string()),
    )
    .unwrap();
    assert_eq!(info.total_bytes, 17179869184);
    assert_eq!(info.used_bytes, 1638400000);
    let total_gib = info.total_bytes as f64 / 1_073_741_824.0;
    assert_eq!(total_gib, 16.0);
}

#[test]
fn missing_page_size_counts_as_default() {
    assert_eq!(DEFAULT_PAGE_SIZE, 4096);
    let info = ram_from_captures("hw.memsize: 8589934592", &Some("10".to_string()), &None).unwrap();
    assert_eq!(info.used_bytes, 40960);
    let stats = "Pages active: 10.\n";
    let same = mac_ram("hw.memsize: 8589934592", stats).unwrap();
    assert_eq!(same, info);
}

#[test]
fn missing_or_unreadable_field_gives_no_memory() {
    let pages = Some("10".to_string());
    let size = Some("4096".to_string());
    assert_eq!(ram_from_captures("hw.memsize: 8589934592", &None, &size), None);
    assert_eq!(ram_from_captures("hw.memsize:", &pages, &size), None);
    assert_eq!(ram_from_captures("", &pages, &size), None);
    assert_eq!(ram_from_captures("hw.memsize: lots", &pages, &size), None);
    assert_eq!(ram_from_captures("hw.memsize: 8589934592", &Some("x".to_string()), &size), None);
    assert_eq!(
        ram_from_captures("hw.memsize: 8589934592", &pages, &Some("99999999999999999999".to_string())),
        None
    );
    assert_eq!(
        ram_from_captures("hw.memsize: 8589934592", &Some("\u{663}".to_string()), &size),
        None
    );
}

#[test]
fn zero_memory_size_gives_no_memory() {
    assert_eq!(ram_from_captures("hw.memsize: 0", &Some("10".to_string()), &None), None);
    assert_eq!(mac_ram("hw.memsize: 0", "Pages active: 10.\n"), None);
}

#[test]
fn product_beyond_sixty_four_bits_gives_no_memory() {
    assert_eq!(
        ram_from_captures(
            "hw.memsize: 8589934592",
            &Some("4294967296".to_string()),
            &Some("4294967296".to_string())
        ),
        None
    );
    let info = ram_from_captures(
        "hw.memsize: 8589934592",
        &Some("4294967295".to_string()),
        &Some("4294967296".to_string()),
    )
    .unwrap();
    assert_eq!(info.used_bytes, 4294967295i128 * 4294967296i128);
}
