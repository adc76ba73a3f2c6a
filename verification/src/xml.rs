//! Interpretation of the XML bodies the CalDAV server returns.
//!
//! The XML itself is parsed by an outside library; the parse is exposed
//! to the rest of the crate as a flat sequence of nodes in document
//! order, each with its depth in the tree. On that sequence the crate's
//! own, verified logic finds the calendar collections of a multistatus
//! response (a `<response>` is a calendar iff its
//! `<propstat><prop><resourcetype>` holds a CalDAV `calendar` element;
//! the sibling `<href>` text is collected) and the `<calendar-data>`
//! payloads of a calendar-query report.

use vstd::prelude::*;

use crate::text::{str_eq, views_of};

verus! {

/// One node of a parsed XML document: its depth (the root has depth 1,
/// each child one more), the namespace and local name of its tag (an
/// element's; empty for other kinds of node), and its text.
pub struct XmlNode {
    pub depth: usize,
    pub ns: Option<String>,
    pub name: String,
    pub text: Option<String>,
}

/// The mathematical image of one node: depth, namespace, name, text.
pub type XmlNodeV = (int, Option<Seq<char>>, Seq<char>, Option<Seq<char>>);

impl View for XmlNode {
    type V = XmlNodeV;

    open spec fn view(&self) -> XmlNodeV {
        (
            self.depth as int,
            match self.ns {
                Option::Some(s) => Option::Some(s@),
                Option::None => Option::None,
            },
            self.name@,
            match self.text {
                Option::Some(s) => Option::Some(s@),
                Option::None => Option::None,
            },
        )
    }
}

impl DeepView for XmlNode {
    type V = XmlNodeV;

    open spec fn deep_view(&self) -> XmlNodeV {
        self@
    }
}

/// What the XML library yields for a document: its nodes in document
/// order, or nothing when the text is not well-formed XML.
pub uninterp spec fn xml_nodes_of(text: Seq<char>) -> Option<Seq<XmlNodeV>>;

/// Relies on `roxmltree::Document::parse` and the node accessors
/// `descendants`, `ancestors`, `tag_name` and `text`: the parse is a
/// function of the text alone; `descendants` yields every node in
/// document order; `ancestors` walks from the node itself to the root,
/// so its count is the node's depth; `text` of an element is the text of
/// its first child when that child is a text node.
#[verifier::external_body]
fn parse_xml_nodes(text: &str) -> (r: Option<Vec<XmlNode>>)
    ensures
        r is Some <==> xml_nodes_of(text@) is Some,
        r matches Some(v) ==> xml_nodes_of(text@) == Some(v.deep_view()),
{
    match roxmltree::Document::parse(text) {
        Ok(doc) => Some(
            doc.descendants().map(
                |n| XmlNode {
                    depth: n.ancestors().count(),
                    ns: n.tag_name().namespace().map(|s| s.to_string()),
                    name: n.tag_name().name().to_string(),
                    text: n.text().map(|s| s.to_string()),
                },
            ).collect(),
        ),
        Err(_) => None,
    }
}

/// The `DAV:` namespace of WebDAV.
pub open spec fn dav_ns() -> Seq<char> {
    "DAV:"@
}

/// The CalDAV namespace.
pub open spec fn caldav_ns() -> Seq<char> {
    "urn:ietf:params:xml:ns:caldav"@
}

/// True when the node is tagged `name` in namespace `ns`.
pub open spec fn node_matches(n: XmlNodeV, ns: Seq<char>, name: Seq<char>) -> bool {
    n.1 == Option::Some(ns) && n.2 == name
}

fn node_matches_exec(n: &XmlNode, ns: &str, name: &str) -> (r: bool)
    ensures
        r == node_matches(n@, ns@, name@),
{
    match &n.ns {
        Option::Some(s) => str_eq(s.as_str(), ns) && str_eq(n.name.as_str(), name),
        Option::None => false,
    }
}

/// The largest index at most `k` whose node sits at depth `d`.
pub open spec fn last_at_depth(nodes: Seq<XmlNodeV>, d: int, k: int) -> Option<int>
    decreases k + 1,
{
    if k < 0 || k >= nodes.len() {
        None
    } else if nodes[k].0 == d {
        Some(k)
    } else {
        last_at_depth(nodes, d, k - 1)
    }
}

/// The parent of node `j`: the nearest earlier node one level up. In a
/// document-ordered node sequence this is the enclosing element.
pub open spec fn parent_of(nodes: Seq<XmlNodeV>, j: int) -> Option<int> {
    if 0 <= j < nodes.len() {
        last_at_depth(nodes, nodes[j].0 - 1, j - 1)
    } else {
        None
    }
}

proof fn lemma_no_parent_below_one(nodes: Seq<XmlNodeV>, d: int, k: int)
    requires
        forall|m: int| 0 <= m < nodes.len() ==> (#[trigger] nodes[m].0) >= 0,
        d < 0,
    ensures
        last_at_depth(nodes, d, k) is None,
    decreases k + 1,
{
    if 0 <= k < nodes.len() {
        lemma_no_parent_below_one(nodes, d, k - 1);
    }
}

fn parent_of_exec(nodes: &Vec<XmlNode>, j: usize) -> (r: Option<usize>)
    requires
        j < nodes@.len(),
    ensures
        match r {
            Option::Some(p) => parent_of(nodes.deep_view(), j as int) == Option::Some(p as int)
                && p < j,
            Option::None => parent_of(nodes.deep_view(), j as int) is None,
        },
{
    let ghost ndv = nodes.deep_view();
    proof {
        assert(forall|m: int| 0 <= m < ndv.len() ==> (#[trigger] ndv[m].0) >= 0);
    }
    if nodes[j].depth == 0 {
        proof {
            lemma_no_parent_below_one(ndv, ndv[j as int].0 - 1, j - 1);
        }
        return None;
    }
    let d = nodes[j].depth - 1;
    let mut k: usize = j;
    while k > 0
        invariant
            k <= j < nodes@.len(),
            ndv == nodes.deep_view(),
            d == ndv[j as int].0 - 1,
            last_at_depth(ndv, d as int, j - 1) == last_at_depth(ndv, d as int, k - 1),
        decreases k,
    {
        if nodes[k - 1].depth == d {
            return Some(k - 1);
        }
        k -= 1;
    }
    None
}

/// The `<response>` a CalDAV `calendar` element marks as a calendar
/// collection: the element's parent chain must read `resourcetype`,
/// `prop`, `propstat`, `response`, all in the WebDAV namespace.
pub open spec fn calendar_chain(nodes: Seq<XmlNodeV>, j: int) -> Option<int> {
    match parent_of(nodes, j) {
        Option::None => Option::None,
        Option::Some(rt) => if node_matches(nodes[rt], dav_ns(), "resourcetype"@) {
            match parent_of(nodes, rt) {
                Option::None => Option::None,
                Option::Some(pr) => if node_matches(nodes[pr], dav_ns(), "prop"@) {
                    match parent_of(nodes, pr) {
                        Option::None => Option::None,
                        Option::Some(ps) => if node_matches(nodes[ps], dav_ns(), "propstat"@) {
                            match parent_of(nodes, ps) {
                                Option::None => Option::None,
                                Option::Some(re) => if node_matches(
                                    nodes[re],
                                    dav_ns(),
                                    "response"@,
                                ) {
                                    Option::Some(re)
                                } else {
                                    Option::None
                                },
                            }
                        } else {
                            Option::None
                        },
                    }
                } else {
                    Option::None
                },
            }
        } else {
            Option::None
        },
    }
}

fn calendar_chain_exec(nodes: &Vec<XmlNode>, j: usize) -> (r: Option<usize>)
    requires
        j < nodes@.len(),
    ensures
        match r {
            Option::Some(p) => calendar_chain(nodes.deep_view(), j as int) == Option::Some(
                p as int,
            ) && p < nodes@.len(),
            Option::None => calendar_chain(nodes.deep_view(), j as int) is None,
        },
{
    let rt = match parent_of_exec(nodes, j) {
        Option::None => {
            return None;
        },
        Option::Some(rt) => rt,
    };
    if !node_matches_exec(&nodes[rt], "DAV:", "resourcetype") {
        return None;
    }
    let pr = match parent_of_exec(nodes, rt) {
        Option::None => {
            return None;
        },
        Option::Some(pr) => pr,
    };
    if !node_matches_exec(&nodes[pr], "DAV:", "prop") {
        return None;
    }
    let ps = match parent_of_exec(nodes, pr) {
        Option::None => {
            return None;
        },
        Option::Some(ps) => ps,
    };
    if !node_matches_exec(&nodes[ps], "DAV:", "propstat") {
        return None;
    }
    let re = match parent_of_exec(nodes, ps) {
        Option::None => {
            return None;
        },
        Option::Some(re) => re,
    };
    if !node_matches_exec(&nodes[re], "DAV:", "response") {
        return None;
    }
    Some(re)
}

/// True when node `j` marks response `i` as a calendar collection.
pub open spec fn marks_calendar(nodes: Seq<XmlNodeV>, j: int, i: int) -> bool {
    &&& 0 <= j < nodes.len()
    &&& node_matches(nodes[j], caldav_ns(), "calendar"@)
    &&& calendar_chain(nodes, j) == Option::Some(i)
}

/// True when response `i` is a calendar collection.
pub open spec fn response_is_calendar(nodes: Seq<XmlNodeV>, i: int) -> bool {
    exists|j: int| marks_calendar(nodes, j, i)
}

fn response_is_calendar_exec(nodes: &Vec<XmlNode>, i: usize) -> (r: bool)
    ensures
        r == response_is_calendar(nodes.deep_view(), i as int),
{
    let ghost ndv = nodes.deep_view();
    let n = nodes.len();
    let mut j: usize = 0;
    while j < n
        invariant
            j <= n == nodes@.len(),
            ndv == nodes.deep_view(),
            forall|m: int| 0 <= m < j ==> !marks_calendar(ndv, m, i as int),
        decreases n - j,
    {
        if node_matches_exec(&nodes[j], "urn:ietf:params:xml:ns:caldav", "calendar") {
            match calendar_chain_exec(nodes, j) {
                Option::Some(re) => {
                    if re == i {
                        assert(marks_calendar(ndv, j as int, i as int));
                        return true;
                    }
                },
                Option::None => {},
            }
        }
        j += 1;
    }
    proof {
        assert(forall|m: int| !marks_calendar(ndv, m, i as int));
    }
    false
}

/// The last `<href>` child of response `i` at or before index `k`.
pub open spec fn last_href_child(nodes: Seq<XmlNodeV>, i: int, k: int) -> Option<int>
    decreases k + 1,
{
    if k < 0 || k >= nodes.len() {
        None
    } else if parent_of(nodes, k) == Option::Some(i) && node_matches(nodes[k], dav_ns(), "href"@) {
        Some(k)
    } else {
        last_href_child(nodes, i, k - 1)
    }
}

/// The href text of response `i`: the text of its last `<href>` child.
pub open spec fn href_of_response(nodes: Seq<XmlNodeV>, i: int) -> Option<Seq<char>> {
    match last_href_child(nodes, i, nodes.len() - 1) {
        Option::None => Option::None,
        Option::Some(h) => nodes[h].3,
    }
}

fn href_of_response_exec(nodes: &Vec<XmlNode>, i: usize) -> (r: Option<String>)
    ensures
        match r {
            Option::Some(h) => href_of_response(nodes.deep_view(), i as int) == Option::Some(h@),
            Option::None => href_of_response(nodes.deep_view(), i as int) is None,
        },
{
    let ghost ndv = nodes.deep_view();
    let n = nodes.len();
    let mut k: usize = n;
    while k > 0
        invariant
            k <= n == nodes@.len(),
            ndv == nodes.deep_view(),
            last_href_child(ndv, i as int, n - 1) == last_href_child(ndv, i as int, k - 1),
        decreases k,
    {
        if node_matches_exec(&nodes[k - 1], "DAV:", "href") {
            let is_child = match parent_of_exec(nodes, k - 1) {
                Option::Some(p) => p == i,
                Option::None => false,
            };
            if is_child {
                return match &nodes[k - 1].text {
                    Option::Some(t) => Option::Some(t.clone()),
                    Option::None => Option::None,
                };
            }
        }
        k -= 1;
    }
    None
}

/// The hrefs of the calendar-marked responses among the first `k` nodes,
/// in document order. A response without href text is passed over, as is
/// one whose href element is empty.
pub open spec fn hrefs_upto(nodes: Seq<XmlNodeV>, k: int) -> Seq<Seq<char>>
    decreases k,
{
    if k <= 0 {
        seq![]
    } else {
        let prev = hrefs_upto(nodes, k - 1);
        let i = k - 1;
        if node_matches(nodes[i], dav_ns(), "response"@) && response_is_calendar(nodes, i) {
            match href_of_response(nodes, i) {
                Option::Some(h) => prev.push(h),
                Option::None => prev,
            }
        } else {
            prev
        }
    }
}

/// The calendar hrefs of a multistatus document.
pub open spec fn spec_calendar_hrefs(nodes: Seq<XmlNodeV>) -> Seq<Seq<char>> {
    hrefs_upto(nodes, nodes.len() as int)
}

/// Collects the hrefs of the calendar collections of a parsed
/// multistatus document, in document order.
pub fn calendar_hrefs(nodes: &Vec<XmlNode>) -> (r: Vec<String>)
    ensures
        views_of(r@) == spec_calendar_hrefs(nodes.deep_view()),
{
    let ghost ndv = nodes.deep_view();
    let mut r: Vec<String> = Vec::new();
    let n = nodes.len();
    proof {
        assert(views_of(r@) =~= hrefs_upto(ndv, 0));
    }
    let mut i: usize = 0;
    while i < n
        invariant
            i <= n == nodes@.len(),
            ndv == nodes.deep_view(),
            views_of(r@) == hrefs_upto(ndv, i as int),
        decreases n - i,
    {
        let ghost prev = views_of(r@);
        if node_matches_exec(&nodes[i], "DAV:", "response") {
            if response_is_calendar_exec(nodes, i) {
                match href_of_response_exec(nodes, i) {
                    Option::Some(h) => {
                        let ghost hv = h@;
                        r.push(h);
                        proof {
                            assert(views_of(r@) =~= prev.push(hv));
                        }
                    },
                    Option::None => {},
                }
            }
        }
        i += 1;
    }
    r
}

/// The number of calendar-marked responses among the first `k` nodes.
pub open spec fn count_calendars(nodes: Seq<XmlNodeV>, k: int) -> nat
    decreases k,
{
    if k <= 0 {
        0
    } else if node_matches(nodes[k - 1], dav_ns(), "response"@) && response_is_calendar(
        nodes,
        k - 1,
    ) {
        count_calendars(nodes, k - 1) + 1
    } else {
        count_calendars(nodes, k - 1)
    }
}

proof fn lemma_hrefs_count_upto(nodes: Seq<XmlNodeV>, k: int)
    requires
        forall|i: int|
            0 <= i < nodes.len() && node_matches(#[trigger] nodes[i], dav_ns(), "response"@)
                && response_is_calendar(nodes, i) ==> href_of_response(nodes, i) is Some,
        k <= nodes.len(),
    ensures
        hrefs_upto(nodes, k).len() == count_calendars(nodes, k),
    decreases k,
{
    if k > 0 {
        lemma_hrefs_count_upto(nodes, k - 1);
    }
}

/// Discovery counting: in a multistatus whose calendar-marked responses
/// each carry an href with text, the number of hrefs collected equals
/// the number of responses marked as calendars; responses without the
/// marking contribute nothing.
pub proof fn lemma_discovery_counts(nodes: Seq<XmlNodeV>)
    requires
        forall|i: int|
            0 <= i < nodes.len() && node_matches(#[trigger] nodes[i], dav_ns(), "response"@)
                && response_is_calendar(nodes, i) ==> href_of_response(nodes, i) is Some,
    ensures
        spec_calendar_hrefs(nodes).len() == count_calendars(nodes, nodes.len() as int),
{
    lemma_hrefs_count_upto(nodes, nodes.len() as int);
}

/// The texts of the `<calendar-data>` elements among the first `k`
/// nodes, in document order.
pub open spec fn caldata_upto(nodes: Seq<XmlNodeV>, k: int) -> Seq<Seq<char>>
    decreases k,
{
    if k <= 0 {
        seq![]
    } else {
        let prev = caldata_upto(nodes, k - 1);
        if node_matches(nodes[k - 1], caldav_ns(), "calendar-data"@) {
            match nodes[k - 1].3 {
                Option::Some(t) => prev.push(t),
                Option::None => prev,
            }
        } else {
            prev
        }
    }
}

/// The raw ICS documents of a calendar-query report.
pub open spec fn spec_calendar_data(nodes: Seq<XmlNodeV>) -> Seq<Seq<char>> {
    caldata_upto(nodes, nodes.len() as int)
}

/// Collects the text of every `<calendar-data>` element, in document
/// order: the raw ICS documents of one REPORT response.
pub fn calendar_data_texts(nodes: &Vec<XmlNode>) -> (r: Vec<String>)
    ensures
        views_of(r@) == spec_calendar_data(nodes.deep_view()),
{
    let ghost ndv = nodes.deep_view();
    let mut r: Vec<String> = Vec::new();
    let n = nodes.len();
    proof {
        assert(views_of(r@) =~= caldata_upto(ndv, 0));
    }
    let mut i: usize = 0;
    while i < n
        invariant
            i <= n == nodes@.len(),
            ndv == nodes.deep_view(),
            views_of(r@) == caldata_upto(ndv, i as int),
        decreases n - i,
    {
        let ghost prev = views_of(r@);
        if node_matches_exec(&nodes[i], "urn:ietf:params:xml:ns:caldav", "calendar-data") {
            match &nodes[i].text {
                Option::Some(t) => {
                    let ghost tv = t@;
                    r.push(t.clone());
                    proof {
                        assert(views_of(r@) =~= prev.push(tv));
                    }
                },
                Option::None => {},
            }
        }
        i += 1;
    }
    r
}

/// Parses a multistatus body and yields the calendar hrefs it reports,
/// in document order; `None` when the body is not well-formed XML, the
/// fatal parse error of discovery.
pub fn parse_multistatus_hrefs(text: &str) -> (r: Option<Vec<String>>)
    ensures
        r is Some <==> xml_nodes_of(text@) is Some,
        r matches Some(v) ==> match xml_nodes_of(text@) {
            Option::Some(nodes) => views_of(v@) == spec_calendar_hrefs(nodes),
            Option::None => false,
        },
{
    match parse_xml_nodes(text) {
        Option::Some(nodes) => Option::Some(calendar_hrefs(&nodes)),
        Option::None => Option::None,
    }
}

/// Parses a calendar-query response body and yields the raw ICS
/// documents it carries, in response order; `None` when the body is not
/// well-formed XML.
pub fn parse_calendar_data(text: &str) -> (r: Option<Vec<String>>)
    ensures
        r is Some <==> xml_nodes_of(text@) is Some,
        r matches Some(v) ==> match xml_nodes_of(text@) {
            Option::Some(nodes) => views_of(v@) == spec_calendar_data(nodes),
            Option::None => false,
        },
{
    match parse_xml_nodes(text) {
        Option::Some(nodes) => Option::Some(calendar_data_texts(&nodes)),
        Option::None => Option::None,
    }
}

} // verus!
