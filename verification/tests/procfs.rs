use process_monitor::procfs::{
    get_process_name, get_process_name_len, get_thread_cpu_time, get_thread_ids,
};

#[test]
fn cpu_time_is_the_first_field() {
    assert_eq!(get_thread_cpu_time(b"123456789 9876 42\n"), 123_456_789);
    assert_eq!(get_thread_cpu_time(b"0 0 0\n"), 0);
    assert_eq!(get_thread_cpu_time(b"42"), 42);
}

#[test]
fn cpu_time_of_missing_content_is_zero() {
    assert_eq!(get_thread_cpu_time(b""), 0);
}

#[test]
fn cpu_time_of_content_without_a_number_is_zero() {
    assert_eq!(get_thread_cpu_time(b"abc 1 2"), 0);
    assert_eq!(get_thread_cpu_time(b" 12 1 2"), 0);
    assert_eq!(get_thread_cpu_time(b"\n"), 0);
}

#[test]
fn cpu_time_stops_at_the_first_byte_that_is_no_digit() {
    assert_eq!(get_thread_cpu_time(b"12abc 5"), 12);
    assert_eq!(get_thread_cpu_time(b"77\n"), 77);
    assert_eq!(get_thread_cpu_time(b"0042 1"), 42);
}

#[test]
fn cpu_time_takes_a_sign() {
    assert_eq!(get_thread_cpu_time(b"+15 1"), 15);
    assert_eq!(get_thread_cpu_time(b"-0 1"), 0);
    assert_eq!(get_thread_cpu_time(b"-15 1"), 0);
    assert_eq!(get_thread_cpu_time(b"+ 1"), 0);
    assert_eq!(get_thread_cpu_time(b"- 1"), 0);
}

#[test]
fn cpu_time_beyond_a_u64_is_zero() {
    assert_eq!(get_thread_cpu_time(b"18446744073709551615 1"), u64::MAX);
    assert_eq!(get_thread_cpu_time(b"18446744073709551616 1"), 0);
    assert_eq!(get_thread_cpu_time(b"99999999999999999999999 1"), 0);
    assert_eq!(get_thread_cpu_time(b"000000000000000000000000000007 1"), 7);
}

fn names(list: &[&str]) -> Vec<String> {
    list.iter().map(|name| name.to_string()).collect()
}

#[test]
fn thread_ids_are_the_numeric_names() {
    let tids = get_thread_ids(&names(&["1", "23", "456"]));
    assert_eq!(tids, vec![1, 23, 456]);
}

#[test]
fn names_that_are_no_numbers_are_skipped() {
    let tids = get_thread_ids(&names(&["self", "12", "", "1a", " 7", "7 ", "3", "+", "-", "1.5"]));
    assert_eq!(tids, vec![12, 3]);
}

#[test]
fn thread_ids_take_a_sign_and_the_range_of_an_i32() {
    let tids = get_thread_ids(&names(&[
        "+7",
        "-3",
        "2147483647",
        "2147483648",
        "-2147483648",
        "-2147483649",
        "007",
        "-0",
    ]));
    assert_eq!(tids, vec![7, -3, 2147483647, -2147483648, 7, 0]);
}

#[test]
fn names_in_other_scripts_are_skipped() {
    let tids = get_thread_ids(&names(&["\u{0663}", "5", "\u{ff11}"]));
    assert_eq!(tids, vec![5]);
}

#[test]
fn no_names_give_no_thread_ids() {
    assert_eq!(get_thread_ids(&Vec::new()), Vec::<i32>::new());
}

fn padded(content: &[u8]) -> [u8; 128] {
    let mut buffer = [0u8; 128];
    buffer[..content.len()].copy_from_slice(content);
    buffer
}

#[test]
fn process_name_ends_at_the_first_zero_byte() {
    let buffer = padded(b"com.example.game\0--flag\0");
    assert_eq!(get_process_name_len(&buffer), 16);
    assert_eq!(get_process_name(&buffer), "com.example.game");
}

#[test]
fn process_name_ends_at_the_first_colon() {
    let buffer = padded(b"com.example.game:render\0");
    assert_eq!(get_process_name_len(&buffer), 16);
    assert_eq!(get_process_name(&buffer), "com.example.game");
}

#[test]
fn colon_counts_also_behind_a_zero_byte() {
    let buffer = padded(b"app\0-x:1\0");
    assert_eq!(get_process_name_len(&buffer), 6);
    assert_eq!(get_process_name(&buffer), "app\0-x");
}

#[test]
fn process_name_without_an_end_is_the_whole() {
    assert_eq!(get_process_name_len(b"zygote64"), 8);
    assert_eq!(get_process_name(b"zygote64"), "zygote64");
    let full = [b'a'; 128];
    assert_eq!(get_process_name(&full), "a".repeat(128));
}

#[test]
fn process_name_of_nothing_is_empty() {
    assert_eq!(get_process_name_len(b""), 0);
    assert_eq!(get_process_name(b""), "");
    assert_eq!(get_process_name(&[0u8; 128]), "");
    assert_eq!(get_process_name(b":x"), "");
}

#[test]
fn bytes_that_are_no_text_are_replaced() {
    assert_eq!(get_process_name(b"ab\xffcd\0"), "ab\u{fffd}cd");
    assert_eq!(get_process_name(b"\xc3\xa9t\xc3\xa9\0"), "\u{e9}t\u{e9}");
    assert_eq!(get_process_name(b"\xc3:"), "\u{fffd}");
}
