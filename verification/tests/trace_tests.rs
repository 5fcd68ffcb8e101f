use garlemald_client::trace::{
    buffer_line, hex_dump, last_error_line, payload_dump_len, recv_fill, timestamp_text, trace_header,
};

#[test]
fn dump_of_a_short_payload() {
    let mut out = String::new();
    hex_dump(&mut out, b"Hi\x00");
    let expected = format!("  00000000: 48 69 00{}  |Hi.|\n", " ".repeat(13 * 3 + 1));
    assert_eq!(out, expected);
}

#[test]
fn dump_rows_have_sixteen_bytes() {
    let bytes: Vec<u8> = (0u8..20).collect();
    let mut out = String::new();
    hex_dump(&mut out, &bytes);
    let lines: Vec<&str> = out.lines().collect();
    assert_eq!(lines.len(), 2);
    assert_eq!(
        lines[0],
        "  00000000: 00 01 02 03 04 05 06 07  08 09 0a 0b 0c 0d 0e 0f  |................|"
    );
    assert!(lines[1].starts_with("  00000010: 10 11 12 13"));
    let mut empty = String::from("x");
    hex_dump(&mut empty, &[]);
    assert_eq!(empty, "x");
}

#[test]
fn timestamps_and_headers() {
    assert_eq!(timestamp_text(86_400 + 3_723, 7), "T1D01:02:03.007");
    assert_eq!(
        trace_header("T0D00:00:00.000", 42, "send", 7, 10, -1),
        "T0D00:00:00.000 tid=42 send socket=7 len=10 rc=-1\n"
    );
    assert_eq!(last_error_line(0, 10048), "");
    assert_eq!(last_error_line(-1, 10048), "  WSAGetLastError=10048\n");
    assert_eq!(buffer_line(2, 512), "  buffer[2] len=512\n");
}

#[test]
fn payload_lengths() {
    assert_eq!(payload_dump_len(0, 10), 0);
    assert_eq!(payload_dump_len(-1, 10), 0);
    assert_eq!(payload_dump_len(5, 10), 5);
    assert_eq!(payload_dump_len(12, 10), 10);
    assert_eq!(payload_dump_len(12, -3), 0);
}

#[test]
fn received_bytes_fill_buffers_in_order() {
    assert_eq!(recv_fill(10, &vec![Some(4), None, Some(4), Some(8)]), vec![(0, 4), (2, 4), (3, 2)]);
    assert_eq!(recv_fill(0, &vec![Some(4)]), vec![]);
    assert_eq!(recv_fill(3, &vec![Some(8), Some(8)]), vec![(0, 3)]);
}
