//! The forward pipeline's combiner and the values it reports: events
//! from every fetched document are reassembled into one VCALENDAR
//! payload between a fixed preamble and footer, and the outcome is
//! summarised for the caller.

use vstd::prelude::*;

use crate::ics::spec_events;
use crate::ics::extract_events;
use crate::numeric::{dec_str, u64_to_string};
use crate::text::views_of;

verus! {

/// The fixed envelope opening of the combined forward output.
pub open spec fn forward_preamble() -> Seq<char> {
    "BEGIN:VCALENDAR\r\nVERSION:2.0\r\nPRODID:-//CalDAV to ICS//EN\r\nCALSCALE:GREGORIAN\r\nMETHOD:PUBLISH\r\n"@
}

/// The fixed envelope closing of the combined forward output.
pub open spec fn forward_footer() -> Seq<char> {
    "END:VCALENDAR\r\n"@
}

/// The concatenation of a sequence of character sequences.
pub open spec fn concat_all(xs: Seq<Seq<char>>) -> Seq<char>
    decreases xs.len(),
{
    if xs.len() == 0 {
        Seq::<char>::empty()
    } else {
        concat_all(xs.drop_last()) + xs.last()
    }
}

/// The events of every document, in document order.
pub open spec fn all_events(docs: Seq<Seq<char>>) -> Seq<Seq<char>>
    decreases docs.len(),
{
    if docs.len() == 0 {
        Seq::<Seq<char>>::empty()
    } else {
        all_events(docs.drop_last()) + spec_events(docs.last())
    }
}

/// The combined forward output for the given fetched documents: the
/// fixed preamble, every well-terminated VEVENT block of every document
/// in order, and the footer.
pub open spec fn spec_combined(docs: Seq<Seq<char>>) -> Seq<char> {
    forward_preamble() + concat_all(all_events(docs)) + forward_footer()
}

/// Combining the same fetched input twice gives byte-identical output:
/// the combined text is a function of the documents alone.
pub proof fn lemma_combiner_deterministic(a: Seq<Seq<char>>, b: Seq<Seq<char>>)
    requires
        a == b,
    ensures
        spec_combined(a) == spec_combined(b),
{
}

/// Reassembles the events of every fetched ICS document into one
/// VCALENDAR payload. Returns the number of events taken and the
/// combined text; the envelope is present whatever the event count.
pub fn combine_ics_documents(docs: &Vec<String>) -> (r: (usize, String))
    ensures
        r.0 == all_events(views_of(docs@)).len(),
        r.1@ == spec_combined(views_of(docs@)),
{
    let ghost dv = views_of(docs@);
    let mut events: Vec<String> = Vec::new();
    let mut d: usize = 0;
    proof {
        assert(dv.subrange(0, 0) =~= Seq::<Seq<char>>::empty());
        assert(views_of(events@) =~= Seq::<Seq<char>>::empty());
    }
    while d < docs.len()
        invariant
            d <= docs.len(),
            dv == views_of(docs@),
            views_of(events@) == all_events(dv.subrange(0, d as int)),
        decreases docs.len() - d,
    {
        let ghost prev = views_of(events@);
        let mut evs = extract_events(docs[d].as_str());
        let ghost evs_v = views_of(evs@);
        events.append(&mut evs);
        proof {
            let t = dv.subrange(0, d + 1);
            assert(t.drop_last() =~= dv.subrange(0, d as int));
            assert(t.last() == docs@[d as int]@);
            assert(views_of(events@) =~= prev + evs_v);
        }
        d += 1;
    }
    proof {
        assert(dv.subrange(0, docs.len() as int) =~= dv);
    }
    let mut out = String::new();
    out.append(
        "BEGIN:VCALENDAR\r\nVERSION:2.0\r\nPRODID:-//CalDAV to ICS//EN\r\nCALSCALE:GREGORIAN\r\nMETHOD:PUBLISH\r\n",
    );
    let ghost ev = views_of(events@);
    let mut i: usize = 0;
    proof {
        assert(ev.subrange(0, 0) =~= Seq::<Seq<char>>::empty());
        assert(out@ =~= forward_preamble() + concat_all(ev.subrange(0, 0)));
    }
    while i < events.len()
        invariant
            i <= events.len(),
            ev == views_of(events@),
            out@ == forward_preamble() + concat_all(ev.subrange(0, i as int)),
        decreases events.len() - i,
    {
        out.append(events[i].as_str());
        proof {
            let t = ev.subrange(0, i + 1);
            assert(t.drop_last() =~= ev.subrange(0, i as int));
            assert(t.last() == events@[i as int]@);
        }
        i += 1;
    }
    proof {
        assert(ev.subrange(0, events.len() as int) =~= ev);
    }
    out.append("END:VCALENDAR\r\n");
    (events.len(), out)
}

/// The fixed PROPFIND body of collection discovery.
pub fn propfind_body() -> (r: &'static str)
    ensures
        r@ == spec_propfind_body(),
{
    "<?xml version=\"1.0\" encoding=\"utf-8\" ?>\n<d:propfind xmlns:d=\"DAV:\" xmlns:c=\"urn:ietf:params:xml:ns:caldav\">\n  <d:prop>\n     <d:resourcetype />\n     <d:displayname />\n     <c:supported-calendar-component-set />\n  </d:prop>\n</d:propfind>"
}

/// The text of the PROPFIND body.
pub open spec fn spec_propfind_body() -> Seq<char> {
    "<?xml version=\"1.0\" encoding=\"utf-8\" ?>\n<d:propfind xmlns:d=\"DAV:\" xmlns:c=\"urn:ietf:params:xml:ns:caldav\">\n  <d:prop>\n     <d:resourcetype />\n     <d:displayname />\n     <c:supported-calendar-component-set />\n  </d:prop>\n</d:propfind>"@
}

/// The fixed REPORT (calendar-query) body of event retrieval.
pub fn report_body() -> (r: &'static str)
    ensures
        r@ == spec_report_body(),
{
    "<?xml version=\"1.0\" encoding=\"utf-8\" ?>\n<c:calendar-query xmlns:d=\"DAV:\" xmlns:c=\"urn:ietf:params:xml:ns:caldav\">\n  <d:prop>\n    <d:getetag />\n    <c:calendar-data />\n  </d:prop>\n  <c:filter>\n    <c:comp-filter name=\"VCALENDAR\">\n      <c:comp-filter name=\"VEVENT\" />\n    </c:comp-filter>\n  </c:filter>\n</c:calendar-query>"
}

/// The text of the REPORT body.
pub open spec fn spec_report_body() -> Seq<char> {
    "<?xml version=\"1.0\" encoding=\"utf-8\" ?>\n<c:calendar-query xmlns:d=\"DAV:\" xmlns:c=\"urn:ietf:params:xml:ns:caldav\">\n  <d:prop>\n    <d:getetag />\n    <c:calendar-data />\n  </d:prop>\n  <c:filter>\n    <c:comp-filter name=\"VCALENDAR\">\n      <c:comp-filter name=\"VEVENT\" />\n    </c:comp-filter>\n  </c:filter>\n</c:calendar-query>"@
}

/// Where the combined payload is kept after a successful forward sync.
#[derive(PartialEq, Eq, Structural, Clone, Copy, Debug)]
pub enum StorageStrategy {
    MemoryOnly,
    DiskOnly,
    MemoryAndDisk,
}

impl StorageStrategy {
    /// Reads a strategy from its configured name; any unknown name is
    /// treated as memory-only, the default.
    pub fn from_name(name: &str) -> (r: StorageStrategy)
        ensures
            r == StorageStrategy::DiskOnly <==> name@ == "disk-only"@,
            r == StorageStrategy::MemoryAndDisk <==> name@ == "memory-and-disk"@,
            name@ != "disk-only"@ && name@ != "memory-and-disk"@ ==> r
                == StorageStrategy::MemoryOnly,
    {
        proof {
            reveal_strlit("disk-only");
            reveal_strlit("memory-and-disk");
            assert("disk-only"@.len() != "memory-and-disk"@.len());
        }
        if crate::text::str_eq(name, "disk-only") {
            StorageStrategy::DiskOnly
        } else if crate::text::str_eq(name, "memory-and-disk") {
            StorageStrategy::MemoryAndDisk
        } else {
            StorageStrategy::MemoryOnly
        }
    }

    /// True when the payload is written to the durable sink.
    pub fn writes_disk(self) -> (r: bool)
        ensures
            r == (self == StorageStrategy::DiskOnly || self == StorageStrategy::MemoryAndDisk),
    {
        match self {
            StorageStrategy::MemoryOnly => false,
            StorageStrategy::DiskOnly => true,
            StorageStrategy::MemoryAndDisk => true,
        }
    }

    /// True when the payload stays in the in-memory cache.
    pub fn keeps_memory(self) -> (r: bool)
        ensures
            r == (self != StorageStrategy::DiskOnly),
    {
        match self {
            StorageStrategy::MemoryOnly => true,
            StorageStrategy::DiskOnly => false,
            StorageStrategy::MemoryAndDisk => true,
        }
    }
}

/// What a sync endpoint reports to its caller.
pub struct SyncResponse {
    pub status: String,
    pub message: String,
}

/// The message of a successful forward sync.
pub open spec fn spec_success_message(events: nat, calendars: nat) -> Seq<char> {
    "Successfully synchronised "@ + dec_str(events) + " events from "@ + dec_str(calendars)
        + " calendars"@
}

/// Builds the success report of a forward sync.
pub fn sync_success_response(events: usize, calendars: usize) -> (r: SyncResponse)
    ensures
        r.status@ == "success"@,
        r.message@ == spec_success_message(events as nat, calendars as nat),
{
    let mut message = String::new();
    message.append("Successfully synchronised ");
    let ev = u64_to_string(events as u64);
    message.append(ev.as_str());
    message.append(" events from ");
    let ca = u64_to_string(calendars as u64);
    message.append(ca.as_str());
    message.append(" calendars");
    SyncResponse { status: "success".to_owned(), message }
}

/// Builds the error report of a failed sync.
pub fn sync_error_response(message: String) -> (r: SyncResponse)
    ensures
        r.status@ == "error"@,
        r.message == message,
{
    SyncResponse { status: "error".to_owned(), message }
}

} // verus!
