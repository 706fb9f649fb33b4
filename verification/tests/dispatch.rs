use robstride::dispatch::{
    release_robstride_session_before_scan, route_op, scan_request_may_include_robstride, OpRoute,
    ScanItem, ScanRequest,
};
use robstride::text::{str_eq_ignore_ascii_case, trim_bounds};

fn item(text: Option<&str>, vendor: Option<&str>) -> ScanItem {
    ScanItem { text: text.map(|s| s.to_string()), vendor: vendor.map(|s| s.to_string()) }
}

#[test]
fn scan_request_naming_robstride_as_vendor() {
    let r = ScanRequest { vendor_is_robstride: true, lists: vec![] };
    assert!(scan_request_may_include_robstride(&r));
    assert!(release_robstride_session_before_scan(&r, true));
    assert!(!release_robstride_session_before_scan(&r, false));
}

#[test]
fn scan_request_lists_are_searched() {
    let none = ScanRequest {
        vendor_is_robstride: false,
        lists: vec![vec![item(Some("damiao"), None), item(None, Some("myactuator"))], vec![]],
    };
    assert!(!scan_request_may_include_robstride(&none));
    assert!(!release_robstride_session_before_scan(&none, true));

    let by_text = ScanRequest {
        vendor_is_robstride: false,
        lists: vec![vec![item(Some("damiao"), None)], vec![item(Some("RobStride"), None)]],
    };
    assert!(scan_request_may_include_robstride(&by_text));

    let by_vendor = ScanRequest {
        vendor_is_robstride: false,
        lists: vec![vec![item(None, Some("ROBSTRIDE"))]],
    };
    assert!(scan_request_may_include_robstride(&by_vendor));

    let near_miss = ScanRequest {
        vendor_is_robstride: false,
        lists: vec![vec![item(Some("robstride "), Some("robstrid"))]],
    };
    assert!(!scan_request_may_include_robstride(&near_miss));
}

#[test]
fn operations_are_routed_by_exact_name() {
    assert_eq!(route_op("batch_scan"), Some(OpRoute::BatchScan));
    assert_eq!(route_op("scan"), Some(OpRoute::Scan));
    assert_eq!(route_op("set_id"), Some(OpRoute::SetId));
    assert_eq!(route_op("verify"), Some(OpRoute::Verify));
    assert_eq!(route_op("Scan"), None);
    assert_eq!(route_op("scan "), None);
    assert_eq!(route_op(""), None);
}

#[test]
fn text_helpers() {
    assert!(str_eq_ignore_ascii_case("RoBsTrIdE", "robstride"));
    assert!(!str_eq_ignore_ascii_case("robstrid", "robstride"));
    assert!(!str_eq_ignore_ascii_case("é", "É"));
    assert_eq!(trim_bounds("  ab c \n", 0, 8), (2, 6));
    assert_eq!(trim_bounds("   ", 0, 3), (3, 3));
    assert_eq!(trim_bounds("x, y", 2, 4), (3, 4));
}
