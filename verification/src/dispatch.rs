use vstd::prelude::*;

use crate::text::{eq_ignore_ascii_case, str_eq, str_eq_ignore_ascii_case};

verus! {

/// An entry of a list in a scan request: the entry as a text, and its
/// `vendor` field as a text, each where the entry has it in that form.
pub struct ScanItem {
    pub text: Option<String>,
    pub vendor: Option<String>,
}

/// What a scan request holds that tells whether it may reach RobStride
/// motors: whether the vendor it names (or the session's default vendor) is
/// RobStride, and the lists it carries under `vendors`, `scans`,
/// `requests` and `items`.
pub struct ScanRequest {
    pub vendor_is_robstride: bool,
    pub lists: Vec<Vec<ScanItem>>,
}

/// The commands that the gateway routes itself once its handlers have
/// declined an operation.
#[derive(Debug, Clone, Copy, PartialEq, Eq, Structural)]
pub enum OpRoute {
    BatchScan,
    Scan,
    SetId,
    Verify,
}

/// Whether a text is `robstride` up to ASCII case.
pub open spec fn names_robstride(t: Option<String>) -> bool {
    match t {
        Some(s) => eq_ignore_ascii_case(s@, "robstride"@),
        None => false,
    }
}

/// Whether an entry names RobStride, as itself or as its vendor.
pub open spec fn item_names_robstride(item: ScanItem) -> bool {
    names_robstride(item.text) || names_robstride(item.vendor)
}

/// Whether a scan request may reach RobStride motors: it names RobStride as
/// its vendor, or one of its lists has an entry that names RobStride.
pub open spec fn may_include_robstride(request: ScanRequest) -> bool {
    ||| request.vendor_is_robstride
    ||| exists|i: int, j: int|
        0 <= i < request.lists@.len() && 0 <= j < request.lists@[i]@.len()
            && #[trigger] item_names_robstride(request.lists@[i]@[j])
}

/// The route of an operation: `batch_scan`, `scan`, `set_id` and `verify`
/// have one; any other operation is unsupported.
pub open spec fn op_route(op: Seq<char>) -> Option<OpRoute> {
    if op == "batch_scan"@ {
        Some(OpRoute::BatchScan)
    } else if op == "scan"@ {
        Some(OpRoute::Scan)
    } else if op == "set_id"@ {
        Some(OpRoute::SetId)
    } else if op == "verify"@ {
        Some(OpRoute::Verify)
    } else {
        None
    }
}

fn text_names_robstride(t: &Option<String>) -> (r: bool)
    ensures
        r == names_robstride(*t),
{
    match t {
        Some(s) => str_eq_ignore_ascii_case(s.as_str(), "robstride"),
        None => false,
    }
}

/// Whether a scan request may reach RobStride motors.
pub fn scan_request_may_include_robstride(request: &ScanRequest) -> (r: bool)
    ensures
        r == may_include_robstride(*request),
{
    if request.vendor_is_robstride {
        return true;
    }
    let mut i: usize = 0;
    while i < request.lists.len()
        invariant
            i <= request.lists@.len(),
            forall|a: int, b: int|
                0 <= a < i && 0 <= b < request.lists@[a]@.len() ==> !#[trigger] item_names_robstride(request.lists@[a]@[b]),
        decreases request.lists@.len() - i,
    {
        let list = &request.lists[i];
        let mut j: usize = 0;
        while j < list.len()
            invariant
                i < request.lists@.len(),
                *list == request.lists@[i as int],
                j <= list@.len(),
                forall|b: int| 0 <= b < j ==> !#[trigger] item_names_robstride(list@[b]),
            decreases list@.len() - j,
        {
            let item = &list[j];
            if text_names_robstride(&item.text) || text_names_robstride(&item.vendor) {
                assert(item_names_robstride(request.lists@[i as int]@[j as int]));
                return true;
            }
            j = j + 1;
        }
        i = i + 1;
    }
    false
}

/// Whether the RobStride session must be released before a scan: when the
/// scan may reach RobStride motors and the session holds a RobStride
/// controller.
pub fn release_robstride_session_before_scan(request: &ScanRequest, controller_is_robstride: bool) -> (release: bool)
    ensures
        release == (may_include_robstride(*request) && controller_is_robstride),
{
    scan_request_may_include_robstride(request) && controller_is_robstride
}

/// The route of an operation that the gateway's handlers have declined.
pub fn route_op(op: &str) -> (route: Option<OpRoute>)
    ensures
        route == op_route(op@),
{
    if str_eq(op, "batch_scan") {
        Some(OpRoute::BatchScan)
    } else if str_eq(op, "scan") {
        Some(OpRoute::Scan)
    } else if str_eq(op, "set_id") {
        Some(OpRoute::SetId)
    } else if str_eq(op, "verify") {
        Some(OpRoute::Verify)
    } else {
        None
    }
}

} // verus!
