use nova::response::{
    ApiResponse, ApiVersion, EmptyResponse, ListResponse, PaginatedResponse, PaginationQuery, VersionedResponse,
};

#[test]
fn api_response_constructors() {
    let ok = ApiResponse::ok(5u32);
    assert_eq!(ok.status, 200);
    assert!(ok.success);
    assert_eq!(ok.data, Some(5));
    assert!(ok.message.is_none());
    let created = ApiResponse::with_status(201, "x");
    assert!(created.success);
    assert_eq!(created.status_code(), 201);
    let failed = ApiResponse::with_status(404, "x");
    assert!(!failed.success);
    let msg = ApiResponse::ok_with_message(1u8, "done".to_string());
    assert_eq!(msg.message.as_deref(), Some("done"));
    let odd = ApiResponse { status: 42, success: true, data: Some(()), message: None };
    assert_eq!(odd.status_code(), 200);
    assert_eq!(EmptyResponse.status_code(), 204);
}

#[test]
fn list_responses_count_items() {
    let l = ListResponse::new(vec![1, 2, 3]);
    assert_eq!(l.count, 3);
    assert!(l.total.is_none());
    let t = ListResponse::with_total(vec![1], 10);
    assert_eq!(t.count, 1);
    assert_eq!(t.total, Some(10));
}

#[test]
fn api_versions_parse_case_insensitively() {
    assert_eq!(ApiVersion::V1.as_str(), "v1");
    assert_eq!(ApiVersion::V2.as_str(), "v2");
    assert_eq!(ApiVersion::default(), ApiVersion::V1);
    assert_eq!(ApiVersion::parse("V1"), Ok(ApiVersion::V1));
    assert_eq!(ApiVersion::parse("1"), Ok(ApiVersion::V1));
    assert_eq!(ApiVersion::parse("v2"), Ok(ApiVersion::V2));
    assert_eq!("2".parse::<ApiVersion>(), Ok(ApiVersion::V2));
    assert_eq!(ApiVersion::parse("v3"), Err("unsupported api version: v3".to_string()));
    let v = VersionedResponse::new(ApiVersion::V2, 7);
    assert_eq!(v.version, "v2");
    assert_eq!(v.data, 7);
}

#[test]
fn pagination_normalizes_and_slices() {
    let q = PaginationQuery::default();
    assert_eq!(q.normalized(), (1, 20));
    let q = PaginationQuery { page: Some(0), per_page: Some(500) };
    assert_eq!(q.normalized(), (1, 100));
    let q = PaginationQuery { page: None, per_page: Some(0) };
    assert_eq!(q.normalized(), (1, 1));

    let items: Vec<u32> = (1..=7).collect();
    let page = PaginatedResponse::from_items(items.clone(), PaginationQuery { page: Some(2), per_page: Some(3) });
    assert_eq!(page.items, vec![4, 5, 6]);
    assert_eq!(page.total, 7);
    assert_eq!(page.total_pages, 3);
    assert!(page.has_next);
    assert!(page.has_prev);

    let last = PaginatedResponse::from_items(items.clone(), PaginationQuery { page: Some(3), per_page: Some(3) });
    assert_eq!(last.items, vec![7]);
    assert!(!last.has_next);

    let beyond = PaginatedResponse::from_items(items, PaginationQuery { page: Some(9), per_page: Some(3) });
    assert!(beyond.items.is_empty());
    assert!(!beyond.has_next);
    assert!(beyond.has_prev);

    let empty = PaginatedResponse::from_items(Vec::<u8>::new(), PaginationQuery::default());
    assert_eq!(empty.total_pages, 0);
    assert!(!empty.has_next);
    assert!(!empty.has_prev);
}

#[test]
fn api_version_text_round_trips() {
    for v in [ApiVersion::V1, ApiVersion::V2] {
        assert_eq!(ApiVersion::parse(v.as_str()), Ok(v));
        assert_eq!(ApiVersion::parse(&v.as_str().to_uppercase()), Ok(v));
        assert_eq!(v.as_str().parse::<ApiVersion>(), Ok(v));
    }
}

#[test]
fn api_version_from_lowered_text() {
    assert_eq!(ApiVersion::from_lowered("V2", "v2"), Ok(ApiVersion::V2));
    assert_eq!(ApiVersion::from_lowered("1", "1"), Ok(ApiVersion::V1));
    assert_eq!(
        ApiVersion::from_lowered("V3", "v3"),
        Err("unsupported api version: V3".to_string())
    );
}
