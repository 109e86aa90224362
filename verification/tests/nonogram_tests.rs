use nonogram_fetcher::nonogram::{
    choose_page, ids_from_hrefs, image_url_from_srcs, page_count_from_hrefs, page_number_from_href,
    page_url, parse_ids, parse_image_url, parse_total_pages, print_url, puzzle_id_from_href,
    puzzle_title, search_params, search_url, FetchError, FetchRequest,
};
use nonogram_fetcher::nonogram::{search_first_url, search_next, SearchStep};
use nonogram_fetcher::web::{build_agent, bytes_request, fetch_bytes, fetch_html, html_request};

fn some(s: &str) -> Option<String> {
    Some(s.to_string())
}

#[test]
fn search_params_black_and_white() {
    let req = FetchRequest { type_bw: true, min_size: 5, max_size: 15, five_multiple: false };
    assert_eq!(
        search_params(&req),
        "?name=&colors=1&width_min=5&width_max=15&height_min=5&height_max=15"
    );
}

#[test]
fn search_params_colour_multiple_of_five() {
    let req = FetchRequest { type_bw: false, min_size: 10, max_size: 25, five_multiple: true };
    assert_eq!(
        search_params(&req),
        "?name=&colors=2&width_min=10&width_max=25&height_min=10&height_max=25&size5=1"
    );
}

#[test]
fn search_and_page_urls() {
    assert_eq!(search_url("?a=1"), "https://www.nonograms.org/search?a=1");
    assert_eq!(page_url(7, "?a=1"), "https://www.nonograms.org/search/p/7?a=1");
    assert_eq!(page_url(120, ""), "https://www.nonograms.org/search/p/120");
}

#[test]
fn print_urls_and_title() {
    assert_eq!(print_url(4321, true), "https://www.nonograms.org/nonogramprint/i/4321");
    assert_eq!(print_url(9, false), "https://www.nonograms.org/nonogramprint2/i/9");
    assert_eq!(puzzle_title(77), "Nonogram #77");
    assert_eq!(puzzle_title(0), "Nonogram #0");
}

#[test]
fn page_choice() {
    assert_eq!(choose_page(0, 123), 1);
    assert_eq!(choose_page(1, 999), 1);
    assert_eq!(choose_page(10, 0), 1);
    assert_eq!(choose_page(10, 9), 10);
    assert_eq!(choose_page(10, 123), 4);
    for seed in [0u32, 1, 17, 999_999_999] {
        let p = choose_page(7, seed);
        assert!(p >= 1 && p <= 7);
    }
}

#[test]
fn page_numbers_of_links() {
    assert_eq!(page_number_from_href("/search/p/12?colors=1"), Some(12));
    assert_eq!(page_number_from_href("https://www.nonograms.org/search/p/3"), Some(3));
    assert_eq!(page_number_from_href("/p/ 8 ?x"), Some(8));
    assert_eq!(page_number_from_href("/p/+5"), Some(5));
    assert_eq!(page_number_from_href("/p/-5"), None);
    assert_eq!(page_number_from_href("/p/abc"), None);
    assert_eq!(page_number_from_href("/p/"), None);
    assert_eq!(page_number_from_href("/search"), None);
    // the piece ends at the next "/p/"
    assert_eq!(page_number_from_href("/p/4/p/9"), Some(4));
}

#[test]
fn puzzle_numbers_of_links() {
    assert_eq!(puzzle_id_from_href("/nonograms/i/1234"), Some(1234));
    assert_eq!(puzzle_id_from_href("/nonograms/i/56?lang=en"), Some(56));
    assert_eq!(puzzle_id_from_href("/i/0"), Some(0));
    assert_eq!(puzzle_id_from_href("/i/4294967295"), Some(4294967295));
    assert_eq!(puzzle_id_from_href("/i/4294967296"), None);
    assert_eq!(puzzle_id_from_href("/nonograms/p/2"), None);
    assert_eq!(puzzle_id_from_href("/i/\t42\n"), Some(42));
}

#[test]
fn ids_skip_zero_missing_and_repeated_neighbours() {
    let hrefs = vec![
        some("/i/10"),
        some("/i/10?x"),
        None,
        some("/i/0"),
        some("/i/11"),
        some("/i/10"),
        some("/other"),
        some("/i/11"),
        some("/i/11"),
    ];
    assert_eq!(ids_from_hrefs(&hrefs), vec![10, 11, 10, 11]);
    assert_eq!(ids_from_hrefs(&[]), Vec::<u32>::new());
}

#[test]
fn page_count_is_largest_link_else_one() {
    let hrefs = vec![some("/search/p/2"), some("/search/p/17?x=1"), None, some("/search/p/5")];
    assert_eq!(page_count_from_hrefs(&hrefs), 17);
    assert_eq!(page_count_from_hrefs(&[]), 1);
    assert_eq!(page_count_from_hrefs(&[some("/search/p/x")]), 1);
    assert_eq!(page_count_from_hrefs(&[some("/search/p/0")]), 0);
}

#[test]
fn total_pages_from_html() {
    let html = r#"<html><body>
        <a href="/search/p/2?colors=1">2</a>
        <a href="/search/p/31?colors=1">31</a>
        <a href="/nonograms/i/5">a puzzle</a>
        </body></html>"#;
    assert_eq!(parse_total_pages(html), Some(31));
    assert_eq!(parse_total_pages("<html><body>nothing</body></html>"), Some(1));
}

#[test]
fn ids_from_html() {
    let html = r#"<html><body>
        <a href="/nonograms/i/501">one</a>
        <a href="/nonograms/i/501">one again</a>
        <a href="/nonograms/i/77">two</a>
        <a href="/search/p/2">page</a>
        </body></html>"#;
    match parse_ids(html) {
        Ok(ids) => assert_eq!(ids, vec![501, 77]),
        Err(e) => panic!("unexpected error {:?}", e),
    }
    match parse_ids("<html><body><a href='/search/p/2'>p</a></body></html>") {
        Err(FetchError::NoPuzzlesFound) => {}
        other => panic!("unexpected {:?}", other.map(|v| v.len())),
    }
}

#[test]
fn image_url_is_upgraded_to_large() {
    let html = r#"<html><body>
        <img src="https://static.nonograms.org/files/nonograms/large/cat_12_1_1p.png">
        <img src="https://static.nonograms.org/other_12_1_.png">
        </body></html>"#;
    match parse_image_url(html) {
        Ok(u) => assert_eq!(u, "https://static.nonograms.org/files/nonograms/large/cat_19_4_1p.png"),
        Err(e) => panic!("unexpected error {:?}", e),
    }
    match parse_image_url("<html><body><img src='https://example.org/x.png'></body></html>") {
        Err(FetchError::NoPuzzleImage) => {}
        other => panic!("unexpected {:?}", other),
    }
}

#[test]
fn image_url_replaces_every_marker() {
    assert_eq!(
        image_url_from_srcs(&[some("a_12_1_b_12_1_c")]),
        Some("a_19_4_b_19_4_c".to_string())
    );
    assert_eq!(image_url_from_srcs(&[some("_12_1_12_1_")]), Some("_19_4_12_1_".to_string()));
    assert_eq!(image_url_from_srcs(&[None, some("x_12_1_")]), None);
    assert_eq!(image_url_from_srcs(&[]), None);
}

#[test]
fn error_messages() {
    assert_eq!(FetchError::NoPuzzleImage.message(), "Could not find puzzle image on print page");
    assert_eq!(FetchError::NoPuzzlesFound.message(), "No puzzles found on search page");
    assert_eq!(FetchError::Http("boom".to_string()).message(), "boom");
}

#[test]
fn agent_timeouts() {
    let s = build_agent();
    assert_eq!((s.connect_secs, s.read_secs, s.total_secs), (8, 15, 25));
}

#[test]
fn fetching_a_malformed_url_fails() {
    assert!(fetch_html("not a url").is_err());
    assert!(fetch_bytes("not a url").is_err());
}

#[test]
fn links_read_back() {
    let req = FetchRequest { type_bw: true, min_size: 5, max_size: 10, five_multiple: true };
    let params = search_params(&req);
    for page in [1usize, 2, 39, 1000] {
        assert_eq!(page_number_from_href(&page_url(page, &params)), Some(page));
    }
    assert_eq!(page_number_from_href(&page_url(5, "")), Some(5));
    for id in [1u32, 42, 4294967295] {
        assert_eq!(puzzle_id_from_href(&print_url(id, true)), Some(id));
        assert_eq!(puzzle_id_from_href(&print_url(id, false)), Some(id));
    }
}

#[test]
fn first_search_url() {
    let req = FetchRequest { type_bw: true, min_size: 5, max_size: 10, five_multiple: true };
    assert_eq!(
        search_first_url(&req),
        "https://www.nonograms.org/search?name=&colors=1&width_min=5&width_max=10&height_min=5&height_max=10&size5=1"
    );
}

#[test]
fn second_page_only_when_chosen() {
    let req = FetchRequest { type_bw: false, min_size: 5, max_size: 5, five_multiple: false };
    let one_page = "<html><body><a href='/nonograms/i/8'>x</a><a href='/nonograms/i/9'>y</a></body></html>";
    match search_next(&req, one_page, 12345) {
        SearchStep::Done(Ok(ids)) => assert_eq!(ids, vec![8, 9]),
        _ => panic!("a single page is read at once"),
    }
    let pages = "<html><body><a href='/search/p/2'>2</a><a href='/search/p/4'>4</a><a href='/nonograms/i/8'>x</a></body></html>";
    // 4 pages: seed 2 picks page 3, seed 8 picks page 1
    match search_next(&req, pages, 2) {
        SearchStep::FetchPage(u) => assert_eq!(
            u,
            "https://www.nonograms.org/search/p/3?name=&colors=2&width_min=5&width_max=5&height_min=5&height_max=5"
        ),
        _ => panic!("page 3 must be fetched"),
    }
    match search_next(&req, pages, 8) {
        SearchStep::Done(Ok(ids)) => assert_eq!(ids, vec![8]),
        _ => panic!("page 1 is read at once"),
    }
    match search_next(&req, "<html></html>", 0) {
        SearchStep::Done(Err(FetchError::NoPuzzlesFound)) => {}
        _ => panic!("no puzzles on the only page"),
    }
}

#[test]
fn requests_as_built() {
    let r = html_request("https://example.org/x");
    assert_eq!(r.url, "https://example.org/x");
    let h: Vec<(&str, &str)> = r.headers.iter().map(|(a, b)| (a.as_str(), b.as_str())).collect();
    assert_eq!(
        h,
        vec![
            ("User-Agent", "Mozilla/5.0 (compatible; NonogramFetcher/1.0)"),
            ("Accept", "text/html,application/xhtml+xml")
        ]
    );
    assert_eq!((r.settings.connect_secs, r.settings.read_secs, r.settings.total_secs), (8, 15, 25));
    let r = bytes_request("u");
    assert_eq!(r.url, "u");
    assert_eq!(r.headers.len(), 1);
    assert_eq!(r.headers[0].0, "User-Agent");
}
