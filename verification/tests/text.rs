use mdns_reflector::address::{mdns_addr, unspecified, Ipv4Address, MDNS_PORT};
use mdns_reflector::decimal::{append_i32, append_number, parse_i32};
use mdns_reflector::pidfile::{
    already_running, find_running, is_ours, pidfile_contents, recorded_pid,
};
use mdns_reflector::unix::{syscall, SyscallFailed};

#[test]
fn integers_are_read_as_the_standard_library_reads_them() {
    for text in [
        "", "+", "-", "0", "-0", "+0", "00", "007", "1", "-1", "+1", "--1", "+-1", "1-", " 1", "1 ",
        "1\n", "12a", "a12", "0x10", "2147483647", "+2147483647", "2147483648", "-2147483648",
        "-2147483649", "4294967296", "99999999999999999999999", "-99999999999999999999999",
        "99999999999x", "00000000000000000000000012", "\u{661}", "1\u{e9}", "1_000",
    ] {
        assert_eq!(parse_i32(text), text.parse::<i32>().ok(), "{:?}", text);
    }
}

#[test]
fn integers_are_written_as_the_standard_library_writes_them() {
    for value in [0, 1, -1, 9, 10, -10, 99, 100, 4711, i32::MAX, i32::MIN, i32::MIN + 1] {
        let mut out = "pid ".to_string();
        append_i32(&mut out, value);
        assert_eq!(out, format!("pid {}", value));
        assert_eq!(parse_i32(&out[4..]), Some(value));
    }
    let mut out = String::new();
    append_number(&mut out, u32::MAX);
    assert_eq!(out, "4294967295");
}

#[test]
fn written_pid_is_read_back() {
    for pid in [1, 42, 32768, 4194304, i32::MAX] {
        assert_eq!(recorded_pid(&pidfile_contents(pid)), Some(pid));
    }
    assert_eq!(pidfile_contents(1234), "1234");
}

#[test]
fn line_that_is_no_pid_records_none() {
    assert_eq!(recorded_pid("1234\n"), None);
    assert_eq!(recorded_pid(""), None);
    assert_eq!(recorded_pid("pid 1"), None);
}

#[test]
fn process_is_running_where_the_signal_reached_it() {
    assert_eq!(already_running(7, 0), Some(7));
    assert_eq!(already_running(7, -1), None);
    assert_eq!(already_running(7, 1), None);
}

#[test]
fn line_leads_to_the_process_that_runs() {
    assert_eq!(find_running("4711", 0), Some(4711));
    assert_eq!(find_running("-1", 0), Some(-1));
    assert_eq!(find_running("4711", -1), None);
}

#[test]
fn line_without_a_record_leads_to_none() {
    for line in ["", "4711\n", "pid", "99999999999"] {
        for status in [0, -1, 4711] {
            assert_eq!(find_running(line, status), None);
        }
    }
}

#[test]
fn pid_file_belongs_to_the_recorded_process() {
    assert!(is_ours(Some(7), 7));
    assert!(!is_ours(Some(7), 8));
    assert!(!is_ours(None, 7));
}

#[test]
fn addresses_are_written_with_dots() {
    let mut out = String::new();
    mdns_addr().append_to(&mut out);
    assert_eq!(out, "224.0.0.251");
    assert_eq!(MDNS_PORT, 5353);
    assert_eq!(unspecified().octets(), [0, 0, 0, 0]);
}

#[test]
fn mask_keeps_the_network() {
    let address = Ipv4Address::from_octets([192, 168, 77, 201]);
    let mask = Ipv4Address::from_octets([255, 255, 240, 0]);
    let network = address.bitand(&mask);
    assert_eq!(network.octets(), [192, 168, 64, 0]);
    assert_eq!(network.bitand(&mask), network);
    assert_eq!(address.bitand(&unspecified()), unspecified());
}

#[test]
fn minus_one_is_a_failed_system_call() {
    assert_eq!(syscall(-1), Err(SyscallFailed));
    assert_eq!(syscall(0), Ok(0));
    assert_eq!(syscall(-2), Ok(-2));
    assert_eq!(syscall(3), Ok(3));
}
