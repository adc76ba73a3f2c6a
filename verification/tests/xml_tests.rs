use caldav_ics_sync::xml::{parse_calendar_data, parse_multistatus_hrefs};

fn multistatus(body: &str) -> String {
    format!(
        "<?xml version=\"1.0\"?><d:multistatus xmlns:d=\"DAV:\" xmlns:c=\"urn:ietf:params:xml:ns:caldav\">{}</d:multistatus>",
        body
    )
}

#[test]
fn discovery_collects_only_calendar_responses_in_document_order() {
    // Three responses; the first and third are calendars.
    let xml = multistatus(
        "<d:response><d:href>/cal/a/</d:href>\
           <d:propstat><d:prop><d:resourcetype><d:collection/><c:calendar/></d:resourcetype></d:prop></d:propstat>\
         </d:response>\
         <d:response><d:href>/addressbook/</d:href>\
           <d:propstat><d:prop><d:resourcetype><d:collection/></d:resourcetype></d:prop></d:propstat>\
         </d:response>\
         <d:response><d:href>/cal/b/</d:href>\
           <d:propstat><d:prop><d:resourcetype><c:calendar/></d:resourcetype></d:prop></d:propstat>\
         </d:response>",
    );
    let hrefs = parse_multistatus_hrefs(&xml).unwrap();
    assert_eq!(hrefs, vec!["/cal/a/".to_string(), "/cal/b/".to_string()]);
}

#[test]
fn discovery_keeps_duplicates_and_order() {
    let one = "<d:response><d:href>/cal/same/</d:href>\
         <d:propstat><d:prop><d:resourcetype><c:calendar/></d:resourcetype></d:prop></d:propstat>\
       </d:response>";
    let xml = multistatus(&format!("{}{}", one, one));
    let hrefs = parse_multistatus_hrefs(&xml).unwrap();
    assert_eq!(hrefs.len(), 2);
    assert_eq!(hrefs[0], "/cal/same/");
    assert_eq!(hrefs[1], "/cal/same/");
}

#[test]
fn discovery_ignores_calendar_elements_outside_the_resourcetype_chain() {
    // A caldav `calendar` element directly under `prop` does not mark the
    // response: the chain must run through `resourcetype`.
    let xml = multistatus(
        "<d:response><d:href>/cal/x/</d:href>\
           <d:propstat><d:prop><c:calendar/><d:resourcetype/></d:prop></d:propstat>\
         </d:response>",
    );
    let hrefs = parse_multistatus_hrefs(&xml).unwrap();
    assert_eq!(hrefs.len(), 0);
}

#[test]
fn discovery_requires_href_text() {
    let xml = multistatus(
        "<d:response>\
           <d:propstat><d:prop><d:resourcetype><c:calendar/></d:resourcetype></d:prop></d:propstat>\
         </d:response>",
    );
    let hrefs = parse_multistatus_hrefs(&xml).unwrap();
    assert_eq!(hrefs.len(), 0);
}

#[test]
fn malformed_multistatus_is_a_parse_error() {
    assert!(parse_multistatus_hrefs("<unclosed").is_none());
    assert!(parse_calendar_data("not xml at all <<<").is_none());
}

#[test]
fn report_collects_calendar_data_texts_in_order() {
    let xml = multistatus(
        "<d:response><d:propstat><d:prop>\
           <c:calendar-data>BEGIN:VCALENDAR one</c:calendar-data>\
         </d:prop></d:propstat></d:response>\
         <d:response><d:propstat><d:prop>\
           <c:calendar-data>BEGIN:VCALENDAR two</c:calendar-data>\
         </d:prop></d:propstat></d:response>",
    );
    let docs = parse_calendar_data(&xml).unwrap();
    assert_eq!(docs, vec!["BEGIN:VCALENDAR one".to_string(), "BEGIN:VCALENDAR two".to_string()]);
}

#[test]
fn report_skips_empty_calendar_data_elements() {
    let xml = multistatus(
        "<d:response><d:propstat><d:prop><c:calendar-data/></d:prop></d:propstat></d:response>",
    );
    let docs = parse_calendar_data(&xml).unwrap();
    assert_eq!(docs.len(), 0);
}
