//! The iCalendar line scanners and the calendar combiner.
//!
//! Both sync directions run the same two-state scan over the lines of an
//! ICS document: OUTSIDE, and INSIDE a `BEGIN:VEVENT` block. A line
//! beginning `BEGIN:VEVENT` starts a fresh buffer that includes the line;
//! while inside, every line is buffered with a CRLF terminator; a line
//! beginning `END:VEVENT` completes the block. A block still open at end
//! of input is dropped without error. The reverse scan additionally
//! records the UID carried by a `UID:`-prefixed line and drops blocks
//! without one.

use vstd::prelude::*;

use crate::text::{
    has_prefix, spec_lines, split_lines, str_has_prefix, uid_of_line, views_of, extract_uid,
};

verus! {

/// The line prefix that opens a VEVENT block.
pub open spec fn begin_marker() -> Seq<char> {
    "BEGIN:VEVENT"@
}

/// The line prefix that closes a VEVENT block.
pub open spec fn end_marker() -> Seq<char> {
    "END:VEVENT"@
}

/// The line terminator given to every buffered line.
pub open spec fn crlf() -> Seq<char> {
    "\r\n"@
}

/// The two-state scan of the forward direction, gathering completed
/// VEVENT blocks. `inside` and `buf` are the scan state on entry to the
/// remaining `lines`.
pub open spec fn fw_scan(lines: Seq<Seq<char>>, inside: bool, buf: Seq<char>) -> Seq<Seq<char>>
    decreases lines.len(),
{
    if lines.len() == 0 {
        seq![]
    } else {
        let l = lines[0];
        if has_prefix(l, begin_marker()) {
            fw_scan(lines.skip(1), true, l + crlf())
        } else if inside && has_prefix(l, end_marker()) {
            seq![buf + l + crlf()] + fw_scan(lines.skip(1), false, seq![])
        } else if inside {
            fw_scan(lines.skip(1), true, buf + l + crlf())
        } else {
            fw_scan(lines.skip(1), false, seq![])
        }
    }
}

/// The completed VEVENT blocks of one ICS document.
pub open spec fn spec_events(s: Seq<char>) -> Seq<Seq<char>> {
    fw_scan(spec_lines(s), false, seq![])
}

/// Extracts every well-terminated VEVENT block of `ics`, in input order,
/// each with CRLF line endings. Unterminated blocks are dropped.
pub fn extract_events(ics: &str) -> (events: Vec<String>)
    ensures
        views_of(events@) == spec_events(ics@),
{
    let lines = split_lines(ics);
    let ghost lv = views_of(lines@);
    let mut events: Vec<String> = Vec::new();
    let mut inside = false;
    let mut buf = String::new();
    let n = lines.len();
    proof {
        assert(lv.skip(0) =~= lv);
        assert(views_of(events@) =~= Seq::<Seq<char>>::empty());
    }
    let mut idx: usize = 0;
    while idx < n
        invariant
            idx <= n,
            n == lines.len(),
            lv == views_of(lines@),
            !inside ==> buf@ == Seq::<char>::empty(),
            views_of(events@) + fw_scan(lv.skip(idx as int), inside, buf@) == fw_scan(
                lv,
                false,
                Seq::<char>::empty(),
            ),
        decreases n - idx,
    {
        let ghost prev_events = views_of(events@);
        let ghost prev_buf = buf@;
        let line = &lines[idx];
        proof {
            assert(lv.skip(idx as int)[0] == lines@[idx as int]@);
            assert(lv.skip(idx as int).skip(1) =~= lv.skip(idx + 1));
        }
        if str_has_prefix(line.as_str(), "BEGIN:VEVENT") {
            buf = line.clone();
            buf.append("\r\n");
            inside = true;
        } else if inside && str_has_prefix(line.as_str(), "END:VEVENT") {
            buf.append(line.as_str());
            buf.append("\r\n");
            proof {
                assert(buf@ == prev_buf + lines@[idx as int]@ + crlf());
            }
            events.push(buf);
            buf = String::new();
            inside = false;
            proof {
                assert(views_of(events@) =~= prev_events.push(
                    prev_buf + lines@[idx as int]@ + crlf(),
                ));
                assert(views_of(events@) + fw_scan(lv.skip(idx + 1), false, buf@) =~= prev_events
                    + fw_scan(lv.skip(idx as int), true, prev_buf));
            }
        } else if inside {
            buf.append(line.as_str());
            buf.append("\r\n");
        }
        idx += 1;
    }
    proof {
        assert(lv.skip(n as int).len() == 0);
        assert(views_of(events@) + fw_scan(lv.skip(n as int), inside, buf@) =~= views_of(
            events@,
        ));
    }
    events
}

/// If no line of `tail` begins `END:VEVENT`, the scan of `tail` emits
/// nothing: blocks left open at end of input are dropped.
pub proof fn lemma_no_end_no_events(tail: Seq<Seq<char>>, inside: bool, buf: Seq<char>)
    requires
        forall|i: int| 0 <= i < tail.len() ==> !has_prefix(#[trigger] tail[i], end_marker()),
    ensures
        fw_scan(tail, inside, buf) == Seq::<Seq<char>>::empty(),
    decreases tail.len(),
{
    if tail.len() > 0 {
        assert(forall|i: int|
            0 <= i < tail.skip(1).len() ==> !has_prefix(#[trigger] tail.skip(1)[i], end_marker()));
        let l = tail[0];
        if has_prefix(l, begin_marker()) {
            lemma_no_end_no_events(tail.skip(1), true, l + crlf());
        } else if inside {
            lemma_no_end_no_events(tail.skip(1), true, buf + l + crlf());
        } else {
            lemma_no_end_no_events(tail.skip(1), false, seq![]);
        }
    }
}

/// Input that ends in unterminated blocks yields exactly the events of
/// the well-terminated part: appending lines among which none begins
/// `END:VEVENT` leaves the scan's output unchanged.
pub proof fn lemma_unterminated_dropped(lines: Seq<Seq<char>>, tail: Seq<Seq<char>>)
    requires
        forall|i: int| 0 <= i < tail.len() ==> !has_prefix(#[trigger] tail[i], end_marker()),
    ensures
        fw_scan(lines + tail, false, Seq::<char>::empty()) == fw_scan(
            lines,
            false,
            Seq::<char>::empty(),
        ),
{
    lemma_fw_scan_append(lines, tail, false, Seq::<char>::empty());
}

proof fn lemma_fw_scan_append(lines: Seq<Seq<char>>, tail: Seq<Seq<char>>, inside: bool, buf: Seq<char>)
    requires
        forall|i: int| 0 <= i < tail.len() ==> !has_prefix(#[trigger] tail[i], end_marker()),
    ensures
        fw_scan(lines + tail, inside, buf) == fw_scan(lines, inside, buf),
    decreases lines.len(),
{
    if lines.len() == 0 {
        assert(lines + tail =~= tail);
        lemma_no_end_no_events(tail, inside, buf);
    } else {
        let all = lines + tail;
        assert(all[0] == lines[0]);
        assert(all.skip(1) =~= lines.skip(1) + tail);
        let l = lines[0];
        if has_prefix(l, begin_marker()) {
            lemma_fw_scan_append(lines.skip(1), tail, true, l + crlf());
        } else if inside && has_prefix(l, end_marker()) {
            lemma_fw_scan_append(lines.skip(1), tail, false, seq![]);
        } else if inside {
            lemma_fw_scan_append(lines.skip(1), tail, true, buf + l + crlf());
        } else {
            lemma_fw_scan_append(lines.skip(1), tail, false, seq![]);
        }
    }
}

proof fn lemma_begin_resets_state(post: Seq<Seq<char>>, inside: bool, buf: Seq<char>)
    requires
        post.len() > 0,
        has_prefix(post[0], begin_marker()),
    ensures
        fw_scan(post, inside, buf) == fw_scan(post, false, Seq::<char>::empty()),
{
}

proof fn lemma_no_end_scan_lands_on_begin(
    mid: Seq<Seq<char>>,
    post: Seq<Seq<char>>,
    inside: bool,
    buf: Seq<char>,
)
    requires
        forall|i: int| 0 <= i < mid.len() ==> !has_prefix(#[trigger] mid[i], end_marker()),
        post.len() > 0,
        has_prefix(post[0], begin_marker()),
    ensures
        fw_scan(mid + post, inside, buf) == fw_scan(post, false, Seq::<char>::empty()),
    decreases mid.len(),
{
    if mid.len() == 0 {
        assert(mid + post =~= post);
        lemma_begin_resets_state(post, inside, buf);
    } else {
        let all = mid + post;
        assert(all[0] == mid[0]);
        assert(all.skip(1) =~= mid.skip(1) + post);
        assert(forall|i: int|
            0 <= i < mid.skip(1).len() ==> !has_prefix(#[trigger] mid.skip(1)[i], end_marker()));
        let l = mid[0];
        if has_prefix(l, begin_marker()) {
            lemma_no_end_scan_lands_on_begin(mid.skip(1), post, true, l + crlf());
        } else if inside {
            lemma_no_end_scan_lands_on_begin(mid.skip(1), post, true, buf + l + crlf());
        } else {
            lemma_no_end_scan_lands_on_begin(mid.skip(1), post, false, seq![]);
        }
    }
}

/// A block abandoned in the middle of the input contributes nothing: if
/// no line of `mid` begins `END:VEVENT` and the input goes on with a
/// line beginning `BEGIN:VEVENT`, the scan emits exactly what it emits
/// without `mid` — the fresh `BEGIN` starts over either way.
pub proof fn lemma_abandoned_block_dropped(
    pre: Seq<Seq<char>>,
    mid: Seq<Seq<char>>,
    post: Seq<Seq<char>>,
)
    requires
        forall|i: int| 0 <= i < mid.len() ==> !has_prefix(#[trigger] mid[i], end_marker()),
        post.len() > 0,
        has_prefix(post[0], begin_marker()),
    ensures
        fw_scan(pre + mid + post, false, Seq::<char>::empty()) == fw_scan(
            pre + post,
            false,
            Seq::<char>::empty(),
        ),
{
    lemma_scan_splice(pre, mid, post, false, Seq::<char>::empty());
}

proof fn lemma_scan_splice(
    pre: Seq<Seq<char>>,
    mid: Seq<Seq<char>>,
    post: Seq<Seq<char>>,
    inside: bool,
    buf: Seq<char>,
)
    requires
        forall|i: int| 0 <= i < mid.len() ==> !has_prefix(#[trigger] mid[i], end_marker()),
        post.len() > 0,
        has_prefix(post[0], begin_marker()),
    ensures
        fw_scan(pre + mid + post, inside, buf) == fw_scan(pre + post, inside, buf),
    decreases pre.len(),
{
    if pre.len() == 0 {
        assert(pre + mid + post =~= mid + post);
        assert(pre + post =~= post);
        lemma_no_end_scan_lands_on_begin(mid, post, inside, buf);
        lemma_begin_resets_state(post, inside, buf);
    } else {
        let all = pre + mid + post;
        let short = pre + post;
        assert(all[0] == pre[0]);
        assert(short[0] == pre[0]);
        assert(all.skip(1) =~= pre.skip(1) + mid + post);
        assert(short.skip(1) =~= pre.skip(1) + post);
        let l = pre[0];
        if has_prefix(l, begin_marker()) {
            lemma_scan_splice(pre.skip(1), mid, post, true, l + crlf());
        } else if inside && has_prefix(l, end_marker()) {
            lemma_scan_splice(pre.skip(1), mid, post, false, seq![]);
        } else if inside {
            lemma_scan_splice(pre.skip(1), mid, post, true, buf + l + crlf());
        } else {
            lemma_scan_splice(pre.skip(1), mid, post, false, seq![]);
        }
    }
}

/// The two-state scan of the reverse direction: alongside the buffer it
/// tracks the UID of the block being read, and emits only blocks whose
/// UID line was seen and nonempty.
pub open spec fn rv_scan(lines: Seq<Seq<char>>, inside: bool, buf: Seq<char>, uid: Seq<char>) -> Seq<
    (Seq<char>, Seq<char>),
>
    decreases lines.len(),
{
    if lines.len() == 0 {
        seq![]
    } else {
        let l = lines[0];
        if has_prefix(l, begin_marker()) {
            rv_scan(lines.skip(1), true, l + crlf(), seq![])
        } else if inside && has_prefix(l, end_marker()) {
            if uid.len() > 0 {
                seq![(uid, buf + l + crlf())] + rv_scan(lines.skip(1), false, seq![], seq![])
            } else {
                rv_scan(lines.skip(1), false, seq![], seq![])
            }
        } else if inside {
            let next_uid = if has_prefix(l, "UID:"@) {
                uid_of_line(l)
            } else {
                uid
            };
            rv_scan(lines.skip(1), true, buf + l + crlf(), next_uid)
        } else {
            rv_scan(lines.skip(1), false, seq![], seq![])
        }
    }
}

/// The `(UID, block)` pairs of an ICS feed, in input order.
pub open spec fn spec_uid_events(s: Seq<char>) -> Seq<(Seq<char>, Seq<char>)> {
    rv_scan(spec_lines(s), false, seq![], seq![])
}

/// The views of a vector of `(UID, block)` pairs.
pub open spec fn pair_views(v: Seq<(String, String)>) -> Seq<(Seq<char>, Seq<char>)> {
    v.map_values(|p: (String, String)| (p.0@, p.1@))
}

/// Extracts every well-terminated, UID-bearing VEVENT block of `feed`,
/// paired with its UID, in input order. Blocks without a UID line, with
/// an empty UID, or unterminated at end of input are dropped.
pub fn extract_uid_events(feed: &str) -> (events: Vec<(String, String)>)
    ensures
        pair_views(events@) == spec_uid_events(feed@),
{
    let lines = split_lines(feed);
    let ghost lv = views_of(lines@);
    let mut events: Vec<(String, String)> = Vec::new();
    let mut inside = false;
    let mut buf = String::new();
    let mut uid = String::new();
    let n = lines.len();
    proof {
        assert(lv.skip(0) =~= lv);
        assert(pair_views(events@) =~= Seq::<(Seq<char>, Seq<char>)>::empty());
    }
    let mut idx: usize = 0;
    while idx < n
        invariant
            idx <= n,
            n == lines.len(),
            lv == views_of(lines@),
            !inside ==> buf@ == Seq::<char>::empty() && uid@ == Seq::<char>::empty(),
            pair_views(events@) + rv_scan(lv.skip(idx as int), inside, buf@, uid@) == rv_scan(
                lv,
                false,
                Seq::<char>::empty(),
                Seq::<char>::empty(),
            ),
        decreases n - idx,
    {
        let ghost prev_events = pair_views(events@);
        let ghost prev_buf = buf@;
        let ghost prev_uid = uid@;
        let line = &lines[idx];
        proof {
            assert(lv.skip(idx as int)[0] == lines@[idx as int]@);
            assert(lv.skip(idx as int).skip(1) =~= lv.skip(idx + 1));
        }
        if str_has_prefix(line.as_str(), "BEGIN:VEVENT") {
            buf = line.clone();
            buf.append("\r\n");
            uid = String::new();
            inside = true;
        } else if inside && str_has_prefix(line.as_str(), "END:VEVENT") {
            buf.append(line.as_str());
            buf.append("\r\n");
            proof {
                assert(buf@ == prev_buf + lines@[idx as int]@ + crlf());
            }
            if uid.unicode_len() > 0 {
                events.push((uid, buf));
                proof {
                    assert(pair_views(events@) =~= prev_events.push(
                        (prev_uid, prev_buf + lines@[idx as int]@ + crlf()),
                    ));
                }
            }
            buf = String::new();
            uid = String::new();
            inside = false;
            proof {
                assert(pair_views(events@) + rv_scan(lv.skip(idx + 1), false, buf@, uid@)
                    =~= prev_events + rv_scan(lv.skip(idx as int), true, prev_buf, prev_uid));
            }
        } else if inside {
            buf.append(line.as_str());
            buf.append("\r\n");
            if str_has_prefix(line.as_str(), "UID:") {
                uid = extract_uid(line.as_str());
            }
        }
        idx += 1;
    }
    proof {
        assert(lv.skip(n as int).len() == 0);
        assert(pair_views(events@) + rv_scan(lv.skip(n as int), inside, buf@, uid@) =~= pair_views(
            events@,
        ));
    }
    events
}

} // verus!
