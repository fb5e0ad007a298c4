use gpu_monitor::info::{format_ram, parse_wmic_output, GpuInfo};

#[test]
fn gpu_info_new_is_all_unknown() {
    let g = GpuInfo::new();
    assert_eq!(g.name, "");
    assert_eq!(g.adapter_ram, "");
    assert_eq!(g.driver_version, "");
    assert_eq!(g.video_processor, "");
    assert_eq!(g.status, "");
}

#[test]
fn format_ram_one_gigabyte() {
    assert_eq!(format_ram("1073741824"), "1.0 GB");
}

#[test]
fn format_ram_ten_gigabytes() {
    assert_eq!(format_ram("10737418240"), "10.0 GB");
}

#[test]
fn format_ram_non_numeric_passes_through() {
    assert_eq!(format_ram("unknown"), "unknown");
    assert_eq!(format_ram(""), "");
    assert_eq!(format_ram("-5"), "-5");
    assert_eq!(format_ram("1.5"), "1.5");
}

#[test]
fn format_ram_too_large_passes_through() {
    assert_eq!(
        format_ram("99999999999999999999999"),
        "99999999999999999999999"
    );
}

#[test]
fn format_ram_rounds_to_nearest_tenth_ties_to_even() {
    // 2^28 bytes is exactly 0.25 GB: the tie goes to the even tenth.
    assert_eq!(format_ram("268435456"), "0.2 GB");
    // 0.75 GB: the tie rounds up to the even tenth.
    assert_eq!(format_ram("805306368"), "0.8 GB");
}

#[test]
fn format_ram_accepts_leading_plus() {
    assert_eq!(format_ram("+123"), "0.0 GB");
}

#[test]
fn wmic_two_blocks_with_trailing_newline() {
    let output = "Name=NVIDIA GeForce RTX 3080\n\
                  AdapterRAM=10737418240\n\
                  DriverVersion=31.0.15.3623\n\
                  VideoProcessor=GeForce RTX 3080\n\
                  Status=OK\n\
                  \n\
                  Name=Intel UHD Graphics\n\
                  AdapterRAM=1073741824\n";
    let gpus = parse_wmic_output(output);
    assert_eq!(gpus.len(), 2);
    assert_eq!(gpus[0].name, "NVIDIA GeForce RTX 3080");
    assert_eq!(gpus[0].adapter_ram, "10.0 GB");
    assert_eq!(gpus[0].driver_version, "31.0.15.3623");
    assert_eq!(gpus[0].video_processor, "GeForce RTX 3080");
    assert_eq!(gpus[0].status, "OK");
    assert_eq!(gpus[1].name, "Intel UHD Graphics");
    assert_eq!(gpus[1].adapter_ram, "1.0 GB");
    assert_eq!(gpus[1].driver_version, "");
}

#[test]
fn wmic_unterminated_trailing_block_is_emitted() {
    let gpus = parse_wmic_output("Name=A\n\nName=B");
    assert_eq!(gpus.len(), 2);
    assert_eq!(gpus[0].name, "A");
    assert_eq!(gpus[1].name, "B");
}

#[test]
fn wmic_unrecognized_keys_are_ignored() {
    let gpus = parse_wmic_output("Caption=ignored\nName=X\n");
    assert_eq!(gpus.len(), 1);
    assert_eq!(gpus[0].name, "X");
}

#[test]
fn wmic_block_of_only_unrecognized_keys_still_emits() {
    let gpus = parse_wmic_output("Caption=ignored\n");
    assert_eq!(gpus.len(), 1);
    assert_eq!(gpus[0].name, "");
}

#[test]
fn wmic_empty_and_blank_inputs_emit_nothing() {
    assert_eq!(parse_wmic_output("").len(), 0);
    assert_eq!(parse_wmic_output("\n\n\n").len(), 0);
    assert_eq!(parse_wmic_output("   \n\t\n").len(), 0);
}

#[test]
fn wmic_crlf_line_endings() {
    let gpus = parse_wmic_output("Name=X\r\n\r\nName=Y\r\n");
    assert_eq!(gpus.len(), 2);
    assert_eq!(gpus[0].name, "X");
    assert_eq!(gpus[1].name, "Y");
}

#[test]
fn wmic_lines_are_trimmed_before_splitting() {
    let gpus = parse_wmic_output("  Name=Spacy  \n");
    assert_eq!(gpus.len(), 1);
    assert_eq!(gpus[0].name, "Spacy");
}

#[test]
fn wmic_memory_key_uses_ram_formatting() {
    let gpus = parse_wmic_output("AdapterRAM=notanumber\n");
    assert_eq!(gpus.len(), 1);
    assert_eq!(gpus[0].adapter_ram, "notanumber");
}

#[test]
fn wmic_blocks_separated_by_whitespace_only_lines() {
    let gpus = parse_wmic_output("Name=A\n   \nName=B\n");
    assert_eq!(gpus.len(), 2);
}
