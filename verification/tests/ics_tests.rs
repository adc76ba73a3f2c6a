use caldav_ics_sync::ics::{extract_events, extract_uid_events};
use caldav_ics_sync::sync::combine_ics_documents;

#[test]
fn extracts_well_terminated_events_and_drops_unterminated() {
    // Two well-terminated blocks, one unterminated at end of input.
    let ics = "BEGIN:VCALENDAR\nBEGIN:VEVENT\nUID:a\nEND:VEVENT\nNOISE\nBEGIN:VEVENT\nUID:b\nEND:VEVENT\nBEGIN:VEVENT\nUID:c\n";
    let events = extract_events(ics);
    assert_eq!(events.len(), 2);
    assert_eq!(events[0], "BEGIN:VEVENT\r\nUID:a\r\nEND:VEVENT\r\n");
    assert_eq!(events[1], "BEGIN:VEVENT\r\nUID:b\r\nEND:VEVENT\r\n");
}

#[test]
fn extraction_normalises_line_endings_to_crlf() {
    let ics = "BEGIN:VEVENT\r\nSUMMARY:x\nEND:VEVENT\n";
    let events = extract_events(ics);
    assert_eq!(events.len(), 1);
    assert_eq!(events[0], "BEGIN:VEVENT\r\nSUMMARY:x\r\nEND:VEVENT\r\n");
}

#[test]
fn empty_input_yields_no_events() {
    assert_eq!(extract_events("").len(), 0);
}

#[test]
fn stray_end_line_outside_a_block_is_ignored() {
    let ics = "END:VEVENT\nBEGIN:VEVENT\nEND:VEVENT\nEND:VEVENT\n";
    let events = extract_events(ics);
    assert_eq!(events.len(), 1);
    assert_eq!(events[0], "BEGIN:VEVENT\r\nEND:VEVENT\r\n");
}

#[test]
fn begin_inside_a_block_starts_a_fresh_buffer() {
    let ics = "BEGIN:VEVENT\nUID:lost\nBEGIN:VEVENT\nUID:kept\nEND:VEVENT\n";
    let events = extract_events(ics);
    assert_eq!(events.len(), 1);
    assert_eq!(events[0], "BEGIN:VEVENT\r\nUID:kept\r\nEND:VEVENT\r\n");
}

#[test]
fn uid_extraction_keys_blocks_and_drops_blocks_without_uid() {
    let ics = "BEGIN:VEVENT\nUID:first\nEND:VEVENT\nBEGIN:VEVENT\nSUMMARY:no uid\nEND:VEVENT\nBEGIN:VEVENT\nUID: second \nEND:VEVENT\n";
    let events = extract_uid_events(ics);
    assert_eq!(events.len(), 2);
    assert_eq!(events[0].0, "first");
    assert_eq!(events[0].1, "BEGIN:VEVENT\r\nUID:first\r\nEND:VEVENT\r\n");
    // The UID is trimmed of surrounding whitespace.
    assert_eq!(events[1].0, "second");
}

#[test]
fn uid_prefix_is_stripped_repeatedly() {
    let ics = "BEGIN:VEVENT\nUID:UID:doubled\nEND:VEVENT\n";
    let events = extract_uid_events(ics);
    assert_eq!(events.len(), 1);
    assert_eq!(events[0].0, "doubled");
}

#[test]
fn unterminated_uid_block_is_dropped() {
    let ics = "BEGIN:VEVENT\nUID:open\nSUMMARY:never closed\n";
    assert_eq!(extract_uid_events(ics).len(), 0);
}

#[test]
fn combiner_wraps_events_in_the_fixed_envelope() {
    let docs = vec![
        "BEGIN:VEVENT\nUID:1\nEND:VEVENT\n".to_string(),
        "BEGIN:VEVENT\nUID:2\nEND:VEVENT\n".to_string(),
    ];
    let (count, output) = combine_ics_documents(&docs);
    assert_eq!(count, 2);
    assert_eq!(
        output,
        "BEGIN:VCALENDAR\r\nVERSION:2.0\r\nPRODID:-//CalDAV to ICS//EN\r\nCALSCALE:GREGORIAN\r\nMETHOD:PUBLISH\r\n\
         BEGIN:VEVENT\r\nUID:1\r\nEND:VEVENT\r\n\
         BEGIN:VEVENT\r\nUID:2\r\nEND:VEVENT\r\n\
         END:VCALENDAR\r\n"
    );
}

#[test]
fn combiner_envelope_stands_with_zero_events() {
    let (count, output) = combine_ics_documents(&vec![]);
    assert_eq!(count, 0);
    assert_eq!(
        output,
        "BEGIN:VCALENDAR\r\nVERSION:2.0\r\nPRODID:-//CalDAV to ICS//EN\r\nCALSCALE:GREGORIAN\r\nMETHOD:PUBLISH\r\nEND:VCALENDAR\r\n"
    );
}

#[test]
fn combiner_is_deterministic_on_identical_input() {
    let docs = vec![
        "BEGIN:VEVENT\nUID:x\nEND:VEVENT\nBEGIN:VEVENT\nUID:y\n".to_string(),
        "noise\nBEGIN:VEVENT\nUID:z\nEND:VEVENT\n".to_string(),
    ];
    let (c1, o1) = combine_ics_documents(&docs);
    let (c2, o2) = combine_ics_documents(&docs);
    assert_eq!(c1, c2);
    assert_eq!(o1, o2);
    // The unterminated block contributes nothing.
    assert_eq!(c1, 2);
}
