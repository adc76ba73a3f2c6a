use caldav_ics_sync::reverse::{put_requests, reverse_sync_report, wrap_event_block};
use caldav_ics_sync::urls::{
    collection_base, event_put_url, host_header_value, proxy_target_uri, resolve_event_url,
    toggle_trailing_slash,
};

#[test]
fn collection_base_keeps_a_url_already_ending_with_the_name() {
    assert_eq!(collection_base("https://host/cal/team", "team"), "https://host/cal/team/");
}

#[test]
fn collection_base_appends_a_missing_name() {
    assert_eq!(collection_base("https://host/cal", "team"), "https://host/cal/team/");
}

#[test]
fn collection_base_strips_trailing_slashes_first() {
    assert_eq!(collection_base("https://host/cal/team//", "team"), "https://host/cal/team/");
    assert_eq!(collection_base("https://host/cal/", "team"), "https://host/cal/team/");
}

#[test]
fn trailing_slash_toggles_both_ways() {
    assert_eq!(toggle_trailing_slash("https://host/cal"), "https://host/cal/");
    assert_eq!(toggle_trailing_slash("https://host/cal/"), "https://host/cal");
    assert_eq!(toggle_trailing_slash(""), "/");
}

#[test]
fn event_urls_are_uid_dot_ics_under_the_base() {
    assert_eq!(event_put_url("https://host/cal/team/", "abc-123"), "https://host/cal/team/abc-123.ics");
}

#[test]
fn relative_calendar_paths_borrow_the_base_origin() {
    assert_eq!(
        resolve_event_url("https://host:8443/root/", "/cal/a/").unwrap(),
        "https://host:8443/cal/a/"
    );
    assert_eq!(
        resolve_event_url("https://host/root", "http://other/cal").unwrap(),
        "http://other/cal"
    );
    assert!(resolve_event_url("no scheme here", "/cal/").is_none());
}

#[test]
fn proxy_helpers_build_target_uri_and_host_header() {
    assert_eq!(proxy_target_uri("http://127.0.0.1:6766", "/a/b?q=1"), "http://127.0.0.1:6766/a/b?q=1");
    assert_eq!(host_header_value("127.0.0.1", Some(6766)), "127.0.0.1:6766");
    assert_eq!(host_header_value("example.org", None), "example.org");
}

#[test]
fn wrapped_event_bodies_carry_the_reverse_envelope() {
    assert_eq!(
        wrap_event_block("BEGIN:VEVENT\r\nUID:a\r\nEND:VEVENT\r\n"),
        "BEGIN:VCALENDAR\r\nVERSION:2.0\r\nPRODID:-//CalDAV/ICS Sync//EN\r\n\
         BEGIN:VEVENT\r\nUID:a\r\nEND:VEVENT\r\n\r\nEND:VCALENDAR\r\n"
    );
}

#[test]
fn one_put_is_planned_per_uid_bearing_event() {
    let feed = "BEGIN:VEVENT\nUID:a\nEND:VEVENT\n\
                BEGIN:VEVENT\nSUMMARY:no uid\nEND:VEVENT\n\
                BEGIN:VEVENT\nUID:b\nEND:VEVENT\n\
                BEGIN:VEVENT\nUID:open\n";
    let plan = put_requests(feed, "https://host/dav", "team");
    assert_eq!(plan.len(), 2);
    assert_eq!(plan[0].uid, "a");
    assert_eq!(plan[0].url, "https://host/dav/team/a.ics");
    assert_eq!(
        plan[0].body,
        "BEGIN:VCALENDAR\r\nVERSION:2.0\r\nPRODID:-//CalDAV/ICS Sync//EN\r\n\
         BEGIN:VEVENT\r\nUID:a\r\nEND:VEVENT\r\n\r\nEND:VCALENDAR\r\n"
    );
    assert_eq!(plan[1].uid, "b");
    assert_eq!(plan[1].url, "https://host/dav/team/b.ics");
}

#[test]
fn reverse_sync_fails_whole_call_on_any_upload_failure() {
    // Five attempts: three succeed, two fail. The call fails and the
    // message carries both counts.
    let results = vec![true, false, true, true, false];
    let report = reverse_sync_report(&results);
    assert_eq!(report.unwrap_err(), "Uploaded 3 events but 2 failed");
}

#[test]
fn reverse_sync_succeeds_only_when_every_upload_succeeded() {
    assert_eq!(reverse_sync_report(&vec![true, true, true]).unwrap(), (3, 3));
    assert_eq!(reverse_sync_report(&vec![]).unwrap(), (0, 0));
    assert_eq!(
        reverse_sync_report(&vec![false]).unwrap_err(),
        "Uploaded 0 events but 1 failed"
    );
}
