use gpu_switcher::digits::{decimal_text, hex1, hex2, hex4, parse_u32, parse_u8};
use gpu_switcher::report::report_text;
use gpu_switcher::system::{Action, Holder, IoError, IoErrorKind, Reply, Transcript};
use gpu_switcher::text;

fn strings(list: &[&str]) -> Vec<String> {
    list.iter().map(|s| s.to_string()).collect()
}

#[test]
fn reply_has_to_answer_the_action() {
    let mut t = Transcript::new();
    assert!(!t.record(&Action::ScanPci, Reply::Elapsed));
    assert!(t.replies.is_empty());
    assert!(t.record(&Action::Sleep { millis: 5 }, Reply::Elapsed));
    assert_eq!(t.replies.len(), 1);
}

#[test]
fn resolved_path_ends_in_a_name() {
    let resolve = Action::Resolve { path: "/x".to_string() };
    let failure = IoError { kind: IoErrorKind::Other, ticket: 0 };
    assert!(resolve.answered_by(&Reply::Text(Ok("/drivers/nvidia".to_string()))));
    assert!(resolve.answered_by(&Reply::Text(Err(failure))));
    assert!(!resolve.answered_by(&Reply::Text(Ok("/".to_string()))));
    let read = Action::Read { path: "/x".to_string() };
    assert!(read.answered_by(&Reply::Text(Ok("/".to_string()))));
}

#[test]
fn listed_processes_have_numbers() {
    let list = Action::ListHolders { path: "/x".to_string() };
    let holders = |pids: &[&str]| {
        Reply::Holders(Some(
            pids.iter().map(|p| Holder { pid: p.to_string(), name: None }).collect(),
        ))
    };
    assert!(list.answered_by(&holders(&[])));
    assert!(list.answered_by(&holders(&["1", "4294967295"])));
    assert!(!list.answered_by(&holders(&["1", "self"])));
    assert!(!list.answered_by(&holders(&["4294967296"])));
    assert!(list.answered_by(&Reply::Holders(None)));
}

#[test]
fn process_ids_wrap_to_the_signed_range() {
    let id = |s: &str| Holder { pid: s.to_string(), name: None }.process_id();
    assert_eq!(id("2147483647"), Some(i32::MAX));
    assert_eq!(id("2147483648"), Some(i32::MIN));
    assert_eq!(id("4294967295"), Some(-1));
    assert_eq!(id(""), None);
}

#[test]
fn numbers_are_written_and_read() {
    assert_eq!(decimal_text(0), "0");
    assert_eq!(decimal_text(1024), "1024");
    assert_eq!(parse_u8("255"), Some(255));
    assert_eq!(parse_u8("256"), None);
    assert_eq!(parse_u8("+0"), Some(0));
    assert_eq!(parse_u8("+"), None);
    assert_eq!(parse_u8("-0"), None);
    assert_eq!(parse_u8("00000000000255"), Some(255));
    assert_eq!(parse_u32("4294967295"), Some(u32::MAX));
    assert_eq!(parse_u32("4294967296"), None);
    assert_eq!(parse_u32("99999999999999999999999999"), None);
    for n in 0..300usize {
        assert_eq!(parse_u32(decimal_text(n).as_str()), Some(n as u32));
    }
    assert_eq!(hex1(5), "5");
    assert_eq!(hex1(0x1f), "1f");
    assert_eq!(hex2(5), "05");
    assert_eq!(hex4(0xabc), "0abc");
}

#[test]
fn text_is_taken_apart() {
    assert_eq!(text::trim(" \u{3000}a b\t\r\n"), "a b");
    assert_eq!(text::trim(" \n"), "");
    assert_eq!(text::split_once("a:b:c", ':'), Some(("a", "b:c")));
    assert_eq!(text::split_once("abc", ':'), None);
    assert_eq!(text::strip_prefix("card1", "card"), Some("1"));
    assert_eq!(text::strip_prefix("car", "card"), None);
    assert!(text::starts_with("1\n", "1"));
    assert!(!text::starts_with("", "1"));
    assert!(text::contains("it is in use by", "in use"));
    assert!(text::contains("x", ""));
    assert!(!text::contains("in us", "in use"));
    assert_eq!(text::file_name("/a/b"), "b");
    assert_eq!(text::file_name("b"), "b");
}

#[test]
fn text_is_put_together() {
    assert_eq!(text::zero_fill("é", 3), "00é");
    assert_eq!(text::zero_fill("12345", 4), "12345");
    assert_eq!(text::join(&strings(&["a", "", "b"]), "; "), "a; ; b");
    assert_eq!(text::join(&Vec::new(), "; "), "");
    assert_eq!(text::join_path("/a", "b"), "/a/b");
    assert_eq!(text::join_path("/a/", "b"), "/a/b");
    assert_eq!(text::join_path("/a", "/b"), "/b");
    assert_eq!(text::concat("a", "b"), "ab");
    assert!(text::same("a", "a") && !text::same("a", "b") && !text::same("a", "aa"));
}

#[test]
fn report_numbers_its_lines() {
    assert_eq!(report_text(&strings(&["switch drivers", "no gpu"])), "0: switch drivers\n1: no gpu");
    assert_eq!(report_text(&strings(&["no gpu"])), "0: no gpu");
    assert_eq!(report_text(&Vec::new()), "");
}
