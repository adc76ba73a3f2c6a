//! Planning and accounting of reverse sync: one PUT per UID-bearing
//! event of the feed, and the fold of the upload outcomes into the
//! call's result.

use vstd::prelude::*;

use crate::ics::{extract_uid_events, pair_views, spec_uid_events};
use crate::numeric::{dec_str, u64_to_string};
use crate::urls::{collection_base, event_put_url, spec_collection_base, spec_event_put_url};

verus! {

/// The envelope one event block is wrapped in before upload. The block
/// already ends with CRLF, so the envelope's own leading CRLF leaves one
/// blank line before the closing tag, as the wire format has it.
pub open spec fn spec_reverse_envelope(block: Seq<char>) -> Seq<char> {
    "BEGIN:VCALENDAR\r\nVERSION:2.0\r\nPRODID:-//CalDAV/ICS Sync//EN\r\n"@ + block
        + "\r\nEND:VCALENDAR\r\n"@
}

/// Wraps one extracted VEVENT block in the upload envelope.
pub fn wrap_event_block(block: &str) -> (r: String)
    ensures
        r@ == spec_reverse_envelope(block@),
{
    let mut r = String::new();
    r.append("BEGIN:VCALENDAR\r\nVERSION:2.0\r\nPRODID:-//CalDAV/ICS Sync//EN\r\n");
    r.append(block);
    r.append("\r\nEND:VCALENDAR\r\n");
    r
}

/// One planned upload: the event's UID, the URL it is PUT to, and the
/// wrapped body.
pub struct PutRequest {
    pub uid: String,
    pub url: String,
    pub body: String,
}

impl View for PutRequest {
    type V = (Seq<char>, Seq<char>, Seq<char>);

    open spec fn view(&self) -> (Seq<char>, Seq<char>, Seq<char>) {
        (self.uid@, self.url@, self.body@)
    }
}

impl DeepView for PutRequest {
    type V = (Seq<char>, Seq<char>, Seq<char>);

    open spec fn deep_view(&self) -> (Seq<char>, Seq<char>, Seq<char>) {
        self@
    }
}

/// The planned uploads for the given `(UID, block)` pairs against a
/// collection base.
pub open spec fn spec_put_plan(
    events: Seq<(Seq<char>, Seq<char>)>,
    base: Seq<char>,
) -> Seq<(Seq<char>, Seq<char>, Seq<char>)> {
    events.map_values(
        |e: (Seq<char>, Seq<char>)|
            (e.0, spec_event_put_url(base, e.0), spec_reverse_envelope(e.1)),
    )
}

/// The planned uploads of a whole feed against a destination.
pub open spec fn spec_put_requests(
    feed: Seq<char>,
    caldav_url: Seq<char>,
    calendar_name: Seq<char>,
) -> Seq<(Seq<char>, Seq<char>, Seq<char>)> {
    spec_put_plan(spec_uid_events(feed), spec_collection_base(caldav_url, calendar_name))
}

/// One upload is planned per UID-bearing, well-terminated event of the
/// feed — no more and no fewer — whatever the destination.
pub proof fn lemma_one_put_per_event(feed: Seq<char>, caldav_url: Seq<char>, calendar_name: Seq<char>)
    ensures
        spec_put_requests(feed, caldav_url, calendar_name).len() == spec_uid_events(feed).len(),
{
}

/// Plans the uploads of a reverse sync: one PUT per UID-bearing event of
/// the feed, in feed order, each wrapped in the upload envelope and
/// addressed under the destination's collection base.
pub fn put_requests(feed: &str, caldav_url: &str, calendar_name: &str) -> (r: Vec<PutRequest>)
    ensures
        r.deep_view() == spec_put_requests(feed@, caldav_url@, calendar_name@),
{
    let base = collection_base(caldav_url, calendar_name);
    let events = extract_uid_events(feed);
    let ghost ev = pair_views(events@);
    let ghost bv = base@;
    let mut r: Vec<PutRequest> = Vec::new();
    let mut i: usize = 0;
    proof {
        assert(r.deep_view() =~= spec_put_plan(ev.subrange(0, 0), bv));
    }
    while i < events.len()
        invariant
            i <= events.len(),
            ev == pair_views(events@),
            bv == base@,
            r.deep_view() == spec_put_plan(ev.subrange(0, i as int), bv),
        decreases events.len() - i,
    {
        let ghost prev = r.deep_view();
        let uid = events[i].0.clone();
        let url = event_put_url(base.as_str(), uid.as_str());
        let body = wrap_event_block(events[i].1.as_str());
        r.push(PutRequest { uid, url, body });
        proof {
            assert(ev.subrange(0, i + 1) =~= ev.subrange(0, i as int).push(ev[i as int]));
            assert(spec_put_plan(ev.subrange(0, i + 1), bv) =~= spec_put_plan(
                ev.subrange(0, i as int),
                bv,
            ).push((ev[i as int].0, spec_event_put_url(bv, ev[i as int].0), spec_reverse_envelope(
                ev[i as int].1,
            ))));
            assert(r.deep_view() =~= prev.push(
                (ev[i as int].0, spec_event_put_url(bv, ev[i as int].0), spec_reverse_envelope(
                    ev[i as int].1,
                )),
            ));
        }
        i += 1;
    }
    proof {
        assert(ev.subrange(0, events@.len() as int) =~= ev);
    }
    r
}

/// The number of uploads that succeeded.
pub open spec fn count_true(rs: Seq<bool>) -> nat
    decreases rs.len(),
{
    if rs.len() == 0 {
        0
    } else {
        count_true(rs.drop_last()) + if rs.last() {
            1nat
        } else {
            0nat
        }
    }
}

/// The failure message of a partial reverse sync, carrying both counts.
pub open spec fn spec_failure_message(uploaded: nat, failed: nat) -> Seq<char> {
    "Uploaded "@ + dec_str(uploaded) + " events but "@ + dec_str(failed) + " failed"@
}

/// Folds the per-event upload outcomes into the call's result. Every
/// event was attempted whatever came of the others; only when no upload
/// failed does the call succeed, with the uploaded and total counts; any
/// failure fails the whole call with a message carrying the number
/// uploaded and the number failed, even though the successful uploads
/// stand.
pub fn reverse_sync_report(results: &Vec<bool>) -> (r: Result<(usize, usize), String>)
    ensures
        r is Ok <==> count_true(results@) == results@.len(),
        r matches Ok(p) ==> p.0 == results@.len() && p.1 == results@.len(),
        r matches Err(m) ==> m@ == spec_failure_message(
            count_true(results@),
            (results@.len() - count_true(results@)) as nat,
        ),
{
    let mut uploaded: usize = 0;
    let mut i: usize = 0;
    proof {
        assert(results@.subrange(0, 0) =~= Seq::<bool>::empty());
    }
    while i < results.len()
        invariant
            i <= results@.len(),
            uploaded == count_true(results@.subrange(0, i as int)),
            uploaded <= i,
        decreases results@.len() - i,
    {
        proof {
            let t = results@.subrange(0, i + 1);
            assert(t.drop_last() =~= results@.subrange(0, i as int));
            assert(t.last() == results@[i as int]);
        }
        if results[i] {
            uploaded += 1;
        }
        i += 1;
    }
    proof {
        assert(results@.subrange(0, results@.len() as int) =~= results@);
    }
    let total = results.len();
    if uploaded == total {
        Ok((uploaded, total))
    } else {
        let failed = total - uploaded;
        let mut m = String::new();
        m.append("Uploaded ");
        let u = u64_to_string(uploaded as u64);
        m.append(u.as_str());
        m.append(" events but ");
        let f = u64_to_string(failed as u64);
        m.append(f.as_str());
        m.append(" failed");
        Err(m)
    }
}

} // verus!
