//! The client end to end: URI building, envelope decoding, pagination.

use imagr::pagination::Pagination;
use imagr::photos::Post;
use imagr::response::{decode_photo_size, decode_post_count, decode_posts, decode_posts_page,
    decode_total};
use imagr::uri::QueryParameters;
use imagr::{Blog, Error};

#[test]
fn test_json_parse() {
    let photo_size = decode_photo_size(
        "{\"width\": 1280, \"height\": 722, \"url\": \"http:\\/\\/derekg.org\\/photo\\/1280\\/7431599279\\/1\\/ tumblr_lo36wbWqqq1qanqww\"}"
            .as_bytes(),
    )
    .unwrap();
    assert_eq!(photo_size.width, 1280);
    assert_eq!(photo_size.height, 722);
}

#[test]
fn photo_size_url_is_retained() {
    let photo_size =
        decode_photo_size(b"{\"width\": 10, \"height\": 20, \"url\": \"http:\\/\\/x\"}").unwrap();
    assert_eq!(photo_size.url, b"http://x".to_vec());
}

#[test]
fn uri_exact_shape() {
    let blog = Blog::new(b"K".to_vec(), b"exampleblog".to_vec());
    let uri = blog.post_count_uri().unwrap();
    assert_eq!(
        uri,
        b"https://api.tumblr.com/v2/blog/exampleblog/posts/photo?api_key=K&limit=1".to_vec()
    );
}

#[test]
fn uri_page_params() {
    let blog = Blog::new(b"K".to_vec(), b"exampleblog".to_vec());
    let uri = blog.posts_page_uri(40).unwrap();
    assert_eq!(
        uri,
        b"https://api.tumblr.com/v2/blog/exampleblog/posts/photo?api_key=K&limit=20&offset=40"
            .to_vec()
    );
}

#[test]
fn uri_percent_encodes_values() {
    let blog = Blog::new(b"a b/c".to_vec(), b"exampleblog".to_vec());
    let uri = blog.post_count_uri().unwrap();
    assert_eq!(
        uri,
        b"https://api.tumblr.com/v2/blog/exampleblog/posts/photo?api_key=a%20b%2Fc&limit=1"
            .to_vec()
    );
}

#[test]
fn uri_rejects_empty_identifier() {
    let blog = Blog::new(b"K".to_vec(), Vec::new());
    assert_eq!(blog.post_count_uri(), Err(Error::InvalidUri));
}

#[test]
fn colon_in_identifier_is_accepted_raw() {
    let blog = Blog::new(b"K".to_vec(), b"b:b".to_vec());
    let uri = blog.post_count_uri().unwrap();
    assert_eq!(
        uri,
        b"https://api.tumblr.com/v2/blog/b:b/posts/photo?api_key=K&limit=1".to_vec()
    );
}

#[test]
fn slash_in_identifier_is_encoded() {
    let blog = Blog::new(b"K".to_vec(), b"bad/blog".to_vec());
    let uri = blog.posts_page_uri(0).unwrap();
    assert_eq!(
        uri,
        b"https://api.tumblr.com/v2/blog/bad%2Fblog/posts/photo?api_key=K&limit=20&offset=0"
            .to_vec()
    );
}

#[test]
fn page_size_is_configuration() {
    let mut blog = Blog::new(b"K".to_vec(), b"exampleblog".to_vec());
    blog.set_page_size(5);
    let uri = blog.posts_page_uri(10).unwrap();
    assert_eq!(
        uri,
        b"https://api.tumblr.com/v2/blog/exampleblog/posts/photo?api_key=K&limit=5&offset=10"
            .to_vec()
    );
}

#[test]
fn query_parameters_start_with_api_key() {
    let params = QueryParameters::new(b"K".to_vec());
    assert_eq!(params.params, vec![(b"api_key".to_vec(), b"K".to_vec())]);
}

#[test]
fn envelope_success_decodes() {
    let body = b"{\"meta\":{\"status\":200,\"msg\":\"OK\"},\"response\":{\"amount\":42}}";
    let envelope = decode_total(body).unwrap();
    assert!(envelope.meta.is_success());
    assert_eq!(envelope.response.amount, 42);
}

#[test]
fn envelope_nonsuccess_decodes_but_flags() {
    let body = b"{\"meta\":{\"status\":404,\"msg\":\"Not Found\"},\"response\":{\"amount\":7}}";
    let envelope = decode_total(body).unwrap();
    assert!(!envelope.meta.is_success());
    assert_eq!(envelope.meta.status, 404);
    assert_eq!(envelope.meta.msg, b"Not Found".to_vec());
}

#[test]
fn envelope_failure_is_api_error() {
    let body = b"{\"meta\":{\"status\":404,\"msg\":\"Not Found\"},\"response\":{}}";
    assert_eq!(decode_post_count(body), Err(Error::Api(b"Not Found".to_vec())));
}

#[test]
fn page_failure_is_api_error() {
    let body = b"{\"meta\":{\"status\":500,\"msg\":\"Internal Server Error\"},\"response\":{}}";
    assert_eq!(
        decode_posts_page(body),
        Err(Error::Api(b"Internal Server Error".to_vec()))
    );
}

#[test]
fn malformed_json_is_decode_error() {
    let cases: Vec<&[u8]> = vec![
        b"",
        b"{",
        b"not json at all",
        b"{\"meta\":{\"status\":200,\"msg\":\"OK\"}",
        b"{\"meta\":{\"status\":200,\"msg\":\"OK\"},\"response\":{\"amount\":42}} trailing",
        b"{\"meta\":[],\"response\":{}}",
        b"\xff\xfe\x00",
    ];
    for body in cases {
        assert_eq!(decode_post_count(body), Err(Error::Decode));
        assert!(matches!(decode_total(body), Err(Error::Decode)));
        assert!(matches!(decode_posts(body), Err(Error::Decode)));
    }
}

#[test]
fn unicode_escapes_resolve_to_utf8() {
    let body =
        b"{\"meta\":{\"status\":404,\"msg\":\"\\u0041h \\u00e9 \\u20ac\"},\"response\":{}}";
    let err = decode_post_count(body).unwrap_err();
    assert_eq!(err, Error::Api("Ah \u{e9} \u{20ac}".as_bytes().to_vec()));
}

#[test]
fn surrogate_pair_resolves_to_utf8() {
    let body =
        b"{\"meta\":{\"status\":404,\"msg\":\"\\ud83d\\ude00\"},\"response\":{}}";
    let err = decode_post_count(body).unwrap_err();
    assert_eq!(err, Error::Api("\u{1f600}".as_bytes().to_vec()));
}

#[test]
fn surrogate_escape_is_decode_error() {
    let body = b"{\"meta\":{\"status\":200,\"msg\":\"\\ud800\"},\"response\":{\"amount\":1}}";
    assert_eq!(decode_post_count(body), Err(Error::Decode));
}

#[test]
fn unknown_escape_is_decode_error() {
    let body = b"{\"meta\":{\"status\":200,\"msg\":\"\\q\"},\"response\":{\"amount\":1}}";
    assert_eq!(decode_post_count(body), Err(Error::Decode));
}

#[test]
fn missing_amount_is_decode_error() {
    let body = b"{\"meta\":{\"status\":200,\"msg\":\"OK\"},\"response\":{}}";
    assert_eq!(decode_post_count(body), Err(Error::Decode));
}

#[test]
fn fractional_status_is_decode_error() {
    let body = b"{\"meta\":{\"status\":200.5,\"msg\":\"OK\"},\"response\":{\"amount\":1}}";
    assert_eq!(decode_post_count(body), Err(Error::Decode));
}

#[test]
fn amount_overflow_is_decode_error() {
    let body =
        b"{\"meta\":{\"status\":200,\"msg\":\"OK\"},\"response\":{\"amount\":99999999999999999999}}";
    assert_eq!(decode_post_count(body), Err(Error::Decode));
    let body2 =
        b"{\"meta\":{\"status\":200,\"msg\":\"OK\"},\"response\":{\"amount\":18446744073709551616}}";
    assert_eq!(decode_post_count(body2), Err(Error::Decode));
    let body3 =
        b"{\"meta\":{\"status\":200,\"msg\":\"OK\"},\"response\":{\"amount\":18446744073709551615}}";
    assert_eq!(decode_post_count(body3), Ok(18446744073709551615usize));
}

#[test]
fn negative_amount_is_decode_error() {
    let body = b"{\"meta\":{\"status\":200,\"msg\":\"OK\"},\"response\":{\"amount\":-3}}";
    assert_eq!(decode_post_count(body), Err(Error::Decode));
}

#[test]
fn unknown_fields_are_skipped() {
    let body = b" { \"extra\": [1, -2.5e3, true, null, {\"deep\": [[]]}], \
        \"meta\": {\"noise\": \"x\", \"status\": 200, \"msg\": \"OK\"}, \
        \"response\": {\"before\": false, \"amount\": 45} } ";
    assert_eq!(decode_post_count(body), Ok(45));
}

#[test]
fn duplicate_field_first_wins() {
    let body = b"{\"meta\":{\"status\":200,\"msg\":\"OK\"},\"response\":{\"amount\":1,\"amount\":2}}";
    assert_eq!(decode_post_count(body), Ok(1));
}

#[test]
fn posts_page_decodes_in_order() {
    let body = b"{\"meta\":{\"status\":200,\"msg\":\"OK\"},\"response\":{\"posts\":[\
        {\"id\":11,\"photos\":[{\"alt_sizes\":[\
            {\"width\":1280,\"height\":722,\"url\":\"http:\\/\\/a\"},\
            {\"width\":250,\"height\":141,\"url\":\"http:\\/\\/b\"}]}]},\
        {\"id\":22,\"photos\":[]}]}}";
    let posts = decode_posts_page(body).unwrap();
    assert_eq!(posts.len(), 2);
    assert_eq!(posts[0].id, 11);
    assert_eq!(posts[0].photos.len(), 1);
    assert_eq!(posts[0].photos[0].sizes.len(), 2);
    assert_eq!(posts[0].photos[0].sizes[0].width, 1280);
    assert_eq!(posts[0].photos[0].sizes[0].url, b"http://a".to_vec());
    assert_eq!(posts[0].photos[0].sizes[1].height, 141);
    assert_eq!(posts[1].id, 22);
    assert!(posts[1].photos.is_empty());
}

#[test]
fn posts_envelope_keeps_meta_and_payload() {
    let body = b"{\"meta\":{\"status\":200,\"msg\":\"OK\"},\"response\":{\"posts\":[\
        {\"id\":5,\"photos\":[]}]}}";
    let envelope = decode_posts(body).unwrap();
    assert!(envelope.meta.is_success());
    assert_eq!(envelope.meta.msg, b"OK".to_vec());
    assert_eq!(envelope.response.posts.len(), 1);
    assert_eq!(envelope.response.posts[0].id, 5);
}

#[test]
fn bad_post_in_page_is_decode_error() {
    let body = b"{\"meta\":{\"status\":200,\"msg\":\"OK\"},\"response\":{\"posts\":[\
        {\"id\":11,\"photos\":[]},{\"photos\":[]}]}}";
    assert_eq!(decode_posts_page(body), Err(Error::Decode));
}

fn fake_page(offset: usize, len: usize) -> Vec<Post> {
    (offset..offset + len)
        .map(|id| Post { id: id as u64, photos: Vec::new() })
        .collect()
}

#[test]
fn pagination_walks_all_pages() {
    let total = 45;
    let mut driver = Pagination::new(total);
    let mut collected: Vec<Post> = Vec::new();
    let mut calls = 0;
    while driver.needs_fetch() {
        let offset = driver.next_offset();
        let page = match offset {
            0 => fake_page(0, 20),
            20 => fake_page(20, 20),
            40 => fake_page(40, 5),
            other => panic!("unexpected offset {other}"),
        };
        calls += 1;
        driver.record_page_posts(&mut collected, page);
    }
    assert_eq!(calls, 3);
    assert_eq!(collected.len(), 45);
    for (i, post) in collected.iter().enumerate() {
        assert_eq!(post.id, i as u64);
    }
}

#[test]
fn pagination_stops_on_empty_page() {
    let mut driver = Pagination::new(100);
    let mut calls = 0;
    let mut collected: Vec<Post> = Vec::new();
    while driver.needs_fetch() {
        calls += 1;
        let page: Vec<Post> = Vec::new();
        driver.record_page_posts(&mut collected, page);
    }
    assert_eq!(calls, 1);
    assert!(collected.is_empty());
}

#[test]
fn pagination_zero_total_fetches_nothing() {
    let driver = Pagination::new(0);
    assert!(!driver.needs_fetch());
}

#[test]
fn pagination_overlong_page_ends_run() {
    let mut driver = Pagination::new(10);
    driver.record_page(20);
    assert!(!driver.needs_fetch());
}
