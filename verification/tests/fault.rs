use nvptx_core::fault::{fault_message, truncated_file_name, u32_decimal, FaultLocation};

fn located(file: &[u8], line: u32, column: u32) -> Option<FaultLocation> {
    Some(FaultLocation { file: file.to_vec(), line, column })
}

#[test]
fn fault_with_location_prints_banner_file_line_and_column() {
    let msg = fault_message(&located(b"kernel.dev", 42, 7));
    assert_eq!(msg, b"CUDA code panicked :( (in kernel.dev at 42:7)\n".to_vec());
}

#[test]
fn fault_without_location_prints_banner_alone() {
    let msg = fault_message(&None);
    assert_eq!(msg, b"CUDA code panicked :(\n".to_vec());
}

#[test]
fn long_file_name_is_cut_to_sixty_three_bytes() {
    let long = vec![b'a'; 70];
    let printed = truncated_file_name(&long);
    assert_eq!(printed.len(), 63);
    assert_eq!(printed, vec![b'a'; 63]);

    let msg = fault_message(&located(&long, 1, 2));
    let mut expected = b"CUDA code panicked :( (in ".to_vec();
    expected.extend(vec![b'a'; 63]);
    expected.extend(b" at 1:2)\n");
    assert_eq!(msg, expected);
}

#[test]
fn file_name_at_the_bound_is_kept_whole() {
    let name = vec![b'x'; 63];
    assert_eq!(truncated_file_name(&name), name);
}

#[test]
fn file_name_ends_at_the_first_nul_byte() {
    assert_eq!(truncated_file_name(&b"ab\0cd".to_vec()), b"ab".to_vec());
    assert_eq!(truncated_file_name(&b"\0abc".to_vec()), b"".to_vec());
}

#[test]
fn largest_message_fits_the_fixed_cap() {
    let long = vec![b'z'; 200];
    let msg = fault_message(&located(&long, u32::MAX, u32::MAX));
    assert_eq!(msg.len(), nvptx_core::fault::MESSAGE_CAP);
}

#[test]
fn decimal_rendering_is_exact() {
    assert_eq!(u32_decimal(0), b"0".to_vec());
    assert_eq!(u32_decimal(7), b"7".to_vec());
    assert_eq!(u32_decimal(10), b"10".to_vec());
    assert_eq!(u32_decimal(4090), b"4090".to_vec());
    assert_eq!(u32_decimal(u32::MAX), b"4294967295".to_vec());
}

#[test]
fn largest_line_and_column_fit_the_message() {
    let msg = fault_message(&located(b"k.dev", u32::MAX, u32::MAX));
    assert_eq!(
        msg,
        b"CUDA code panicked :( (in k.dev at 4294967295:4294967295)\n".to_vec()
    );
}
