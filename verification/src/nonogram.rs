//! Finding and downloading puzzles on nonograms.org: the search query, the
//! links read off the result pages, the choice of a result page and the
//! print page of a puzzle.

use vstd::prelude::*;
use crate::numbers::{
    decimal, is_digit, lemma_parse_decimal, parse_u32, parse_u32_spec, parse_usize,
    parse_usize_spec, push_decimal,
};
use crate::scrape::{attr_views, select_attrs, selected_attrs};
use crate::text::{
    before_char, before_char_of, chars_of, find_from, lemma_before_char_prefix, lemma_find_from,
    lemma_find_from_is, lemma_trim_unspaced, occurs_at, replace_all, replace_chars, second_piece,
    second_piece_of, string_from, trim, trim_chars,
};
use crate::web::{fetch_bytes, fetch_html};

verus! {

/// What the frontend asks for: black-and-white or colour puzzles, the range
/// of grid sizes, and whether sizes must be multiples of five.
#[derive(Debug, Clone, Copy)]
pub struct FetchRequest {
    pub type_bw: bool,
    pub min_size: u8,
    pub max_size: u8,
    pub five_multiple: bool,
}

/// A downloaded puzzle: its number, its title and its printable image.
pub struct NonogramInfo {
    pub id: u32,
    pub title: String,
    pub image_bytes: Vec<u8>,
}

/// Why a search or a download failed.
#[derive(Debug)]
pub enum FetchError {
    /// A request or its reading failed; the text says how.
    Http(String),
    /// The print page shows no puzzle image.
    NoPuzzleImage,
    /// The search page links to no puzzle.
    NoPuzzlesFound,
    /// A CSS selector of this module was refused by the HTML scraper.
    BadSelector,
}

/// The search page of nonograms.org.
pub const SEARCH_URL: &'static str = "https://www.nonograms.org/search";

/// The description of an error, as the frontend shows it.
pub open spec fn error_text(e: FetchError) -> Seq<char> {
    match e {
        FetchError::Http(s) => s@,
        FetchError::NoPuzzleImage => "Could not find puzzle image on print page"@,
        FetchError::NoPuzzlesFound => "No puzzles found on search page"@,
        FetchError::BadSelector => "Invalid CSS selector"@,
    }
}

impl FetchError {
    /// The description of the error.
    pub fn message(&self) -> (r: String)
        ensures
            r@ == error_text(*self),
    {
        match self {
            FetchError::Http(s) => s.clone(),
            FetchError::NoPuzzleImage => String::from_str("Could not find puzzle image on print page"),
            FetchError::NoPuzzlesFound => String::from_str("No puzzles found on search page"),
            FetchError::BadSelector => String::from_str("Invalid CSS selector"),
        }
    }
}

/// The query string of a search for `req`.
pub open spec fn search_params_text(req: FetchRequest) -> Seq<char> {
    "?name=&colors="@ + (if req.type_bw {
        "1"@
    } else {
        "2"@
    }) + "&width_min="@ + decimal(req.min_size as nat) + "&width_max="@ + decimal(
        req.max_size as nat,
    ) + "&height_min="@ + decimal(req.min_size as nat) + "&height_max="@ + decimal(
        req.max_size as nat,
    ) + (if req.five_multiple {
        "&size5=1"@
    } else {
        Seq::<char>::empty()
    })
}

/// The URL of result page `page` of the search with query `params`.
pub open spec fn page_url_text(page: nat, params: Seq<char>) -> Seq<char> {
    SEARCH_URL@ + "/p/"@ + decimal(page) + params
}

/// The print page of puzzle `id`, black-and-white or colour.
pub open spec fn print_url_text(id: u32, is_bw: bool) -> Seq<char> {
    (if is_bw {
        "https://www.nonograms.org/nonogramprint/i/"@
    } else {
        "https://www.nonograms.org/nonogramprint2/i/"@
    }) + decimal(id as nat)
}

/// The title given to puzzle `id`.
pub open spec fn title_text(id: u32) -> Seq<char> {
    "Nonogram #"@ + decimal(id as nat)
}

/// The query string of a search for `req`: colours 1 for black and white,
/// 2 for colour, the size range for both width and height, and the
/// multiple-of-five filter when asked.
pub fn search_params(req: &FetchRequest) -> (r: String)
    ensures
        r@ == search_params_text(*req),
{
    let mut s = String::from_str("?name=&colors=");
    if req.type_bw {
        s.append("1");
    } else {
        s.append("2");
    }
    s.append("&width_min=");
    push_decimal(&mut s, req.min_size as u128);
    s.append("&width_max=");
    push_decimal(&mut s, req.max_size as u128);
    s.append("&height_min=");
    push_decimal(&mut s, req.min_size as u128);
    s.append("&height_max=");
    push_decimal(&mut s, req.max_size as u128);
    if req.five_multiple {
        s.append("&size5=1");
    }
    assert(s@ =~= search_params_text(*req));
    s
}

/// The URL of the first result page of the search with query `params`.
pub fn search_url(params: &str) -> (r: String)
    ensures
        r@ == SEARCH_URL@ + params@,
{
    let mut s = String::from_str(SEARCH_URL);
    s.append(params);
    s
}

/// The URL of result page `page` of the search with query `params`.
pub fn page_url(page: usize, params: &str) -> (r: String)
    ensures
        r@ == page_url_text(page as nat, params@),
{
    let mut s = String::from_str(SEARCH_URL);
    s.append("/p/");
    push_decimal(&mut s, page as u128);
    s.append(params);
    assert(s@ =~= page_url_text(page as nat, params@));
    s
}

/// The print page of puzzle `id`.
pub fn print_url(id: u32, is_bw: bool) -> (r: String)
    ensures
        r@ == print_url_text(id, is_bw),
{
    let mut s = if is_bw {
        String::from_str("https://www.nonograms.org/nonogramprint/i/")
    } else {
        String::from_str("https://www.nonograms.org/nonogramprint2/i/")
    };
    push_decimal(&mut s, id as u128);
    s
}

/// The title of puzzle `id`.
pub fn puzzle_title(id: u32) -> (r: String)
    ensures
        r@ == title_text(id),
{
    let mut s = String::from_str("Nonogram #");
    push_decimal(&mut s, id as u128);
    s
}

/// The result page to read: the first when there is at most one, else page
/// `seed % total_pages + 1`.
pub open spec fn chosen_page(total_pages: usize, seed: u32) -> nat {
    if total_pages <= 1 {
        1
    } else {
        (seed as nat % total_pages as nat) + 1
    }
}

/// Picks a result page from `seed`.
pub fn choose_page(total_pages: usize, seed: u32) -> (p: usize)
    ensures
        p == chosen_page(total_pages, seed),
        1 <= p,
        total_pages >= 1 ==> p <= total_pages,
{
    if total_pages <= 1 {
        1
    } else {
        (seed as usize % total_pages) + 1
    }
}

/// The page number a result-page link points to: the text after `/p/` and
/// before any `?`, trimmed, read as a `usize`.
pub open spec fn page_number(href: Seq<char>) -> Option<usize> {
    match second_piece(href, "/p/"@) {
        Some(p) => parse_usize_spec(trim(before_char(p, '?'))),
        None => None,
    }
}

/// The puzzle number a puzzle link points to: the text after `/i/` and
/// before any `?`, trimmed, read as a `u32`.
pub open spec fn puzzle_number(href: Seq<char>) -> Option<u32> {
    match second_piece(href, "/i/"@) {
        Some(p) => parse_u32_spec(trim(before_char(p, '?'))),
        None => None,
    }
}

/// The largest page number among the links, if any link has one.
pub open spec fn max_page(hrefs: Seq<Option<Seq<char>>>) -> Option<usize>
    decreases hrefs.len(),
{
    if hrefs.len() == 0 {
        None
    } else {
        let rest = max_page(hrefs.drop_last());
        let here = match hrefs.last() {
            Some(h) => page_number(h),
            None => None,
        };
        match here {
            None => rest,
            Some(p) => match rest {
                None => Some(p),
                Some(q) => Some(if p < q {
                    q
                } else {
                    p
                }),
            },
        }
    }
}

/// The page count of a search: the largest linked page, else one.
pub open spec fn page_count(hrefs: Seq<Option<Seq<char>>>) -> usize {
    match max_page(hrefs) {
        Some(m) => m,
        None => 1,
    }
}

/// The positive puzzle numbers of the links, in order.
pub open spec fn linked_ids(hrefs: Seq<Option<Seq<char>>>) -> Seq<u32>
    decreases hrefs.len(),
{
    if hrefs.len() == 0 {
        Seq::empty()
    } else {
        let rest = linked_ids(hrefs.drop_last());
        match hrefs.last() {
            Some(h) => match puzzle_number(h) {
                Some(id) => if id > 0 {
                    rest.push(id)
                } else {
                    rest
                },
                None => rest,
            },
            None => rest,
        }
    }
}

/// `s` with runs of equal neighbours cut to one, as `Vec::dedup` does.
pub open spec fn dedup(s: Seq<u32>) -> Seq<u32>
    decreases s.len(),
{
    if s.len() == 0 {
        s
    } else {
        let d = dedup(s.drop_last());
        if d.len() > 0 && d.last() == s.last() {
            d
        } else {
            d.push(s.last())
        }
    }
}

/// The puzzle numbers a search page offers.
pub open spec fn puzzle_ids(hrefs: Seq<Option<Seq<char>>>) -> Seq<u32> {
    dedup(linked_ids(hrefs))
}

/// The image of a print page: the `src` of the first matching image, with
/// the small-size marker `_12_1_` turned into the large-size `_19_4_`.
pub open spec fn image_url_text(srcs: Seq<Option<Seq<char>>>) -> Option<Seq<char>> {
    if srcs.len() > 0 && srcs[0] is Some {
        Some(replace_all(srcs[0]->Some_0, "_12_1_"@, "_19_4_"@))
    } else {
        None
    }
}

/// Reads the page number of a result-page link.
pub fn page_number_from_href(href: &str) -> (r: Option<usize>)
    ensures
        r == page_number(href@),
{
    let v = chars_of(href);
    let pat = chars_of("/p/");
    match second_piece_of(v.as_slice(), pat.as_slice()) {
        None => None,
        Some(piece) => {
            let b = before_char_of(piece.as_slice(), '?');
            let t = trim_chars(b.as_slice());
            parse_usize(t.as_slice())
        },
    }
}

/// Reads the puzzle number of a puzzle link.
pub fn puzzle_id_from_href(href: &str) -> (r: Option<u32>)
    ensures
        r == puzzle_number(href@),
{
    let v = chars_of(href);
    let pat = chars_of("/i/");
    match second_piece_of(v.as_slice(), pat.as_slice()) {
        None => None,
        Some(piece) => {
            let b = before_char_of(piece.as_slice(), '?');
            let t = trim_chars(b.as_slice());
            parse_u32(t.as_slice())
        },
    }
}

/// The page count announced by the pagination links of a result page.
pub fn page_count_from_hrefs(hrefs: &[Option<String>]) -> (r: usize)
    ensures
        r == page_count(attr_views(hrefs@)),
{
    let ghost hs = attr_views(hrefs@);
    let mut best: Option<usize> = None;
    let mut i: usize = 0;
    while i < hrefs.len()
        invariant
            i <= hrefs@.len(),
            hs == attr_views(hrefs@),
            best == max_page(hs.take(i as int)),
        decreases hrefs@.len() - i,
    {
        assert(hs.take(i + 1).drop_last() =~= hs.take(i as int));
        let here = match &hrefs[i] {
            Some(h) => page_number_from_href(h.as_str()),
            None => None,
        };
        best = match here {
            None => best,
            Some(p) => match best {
                None => Some(p),
                Some(q) => Some(if p < q {
                    q
                } else {
                    p
                }),
            },
        };
        i = i + 1;
    }
    assert(hs.take(i as int) =~= hs);
    match best {
        Some(m) => m,
        None => 1,
    }
}

/// The puzzle numbers linked from a search page, without repeats of
/// neighbours.
pub fn ids_from_hrefs(hrefs: &[Option<String>]) -> (r: Vec<u32>)
    ensures
        r@ == puzzle_ids(attr_views(hrefs@)),
{
    let ghost hs = attr_views(hrefs@);
    let mut out: Vec<u32> = Vec::new();
    let mut i: usize = 0;
    while i < hrefs.len()
        invariant
            i <= hrefs@.len(),
            hs == attr_views(hrefs@),
            out@ == dedup(linked_ids(hs.take(i as int))),
        decreases hrefs@.len() - i,
    {
        assert(hs.take(i + 1).drop_last() =~= hs.take(i as int));
        let ghost before = linked_ids(hs.take(i as int));
        let id = match &hrefs[i] {
            Some(h) => puzzle_id_from_href(h.as_str()),
            None => None,
        };
        match id {
            Some(n) => {
                if n > 0 {
                    assert(before.push(n).drop_last() =~= before);
                    let len = out.len();
                    if len == 0 || out[len - 1] != n {
                        out.push(n);
                    }
                }
            },
            None => {},
        }
        i = i + 1;
    }
    assert(hs.take(i as int) =~= hs);
    out
}

/// The page count of a result page, as its pagination links tell it (one
/// when there are none); `None` only if the link selector is refused.
pub fn parse_total_pages(html: &str) -> (r: Option<usize>)
    ensures
        r matches Some(n) ==> selected_attrs(html@, "a[href*='/p/']"@, "href"@) matches Some(hs)
            && n == page_count(hs),
        r is None ==> selected_attrs(html@, "a[href*='/p/']"@, "href"@) is None,
{
    match select_attrs(html, "a[href*='/p/']", "href") {
        None => None,
        Some(hrefs) => Some(page_count_from_hrefs(hrefs.as_slice())),
    }
}

/// `r` is what reading the puzzle links of `html` gives: the puzzle
/// numbers when there are some, else `NoPuzzlesFound`, or `BadSelector` if
/// the link selector is refused.
pub open spec fn is_ids_parse(html: Seq<char>, r: Result<Vec<u32>, FetchError>) -> bool {
    match selected_attrs(html, "a[href*='/i/']"@, "href"@) {
        None => r matches Err(e) && e is BadSelector,
        Some(hs) => if puzzle_ids(hs).len() == 0 {
            r matches Err(e) && e is NoPuzzlesFound
        } else {
            r matches Ok(ids) && ids@ == puzzle_ids(hs)
        },
    }
}

/// The puzzles a result page links to, without repeats of neighbours.
pub fn parse_ids(html: &str) -> (r: Result<Vec<u32>, FetchError>)
    ensures
        is_ids_parse(html@, r),
        r matches Ok(ids) ==> selected_attrs(html@, "a[href*='/i/']"@, "href"@) matches Some(hs)
            && ids@ == puzzle_ids(hs) && ids@.len() > 0,
        r matches Err(e) ==> {
            ||| selected_attrs(html@, "a[href*='/i/']"@, "href"@) is None && e is BadSelector
            ||| selected_attrs(html@, "a[href*='/i/']"@, "href"@) matches Some(hs) && puzzle_ids(
                hs,
            ).len() == 0 && e is NoPuzzlesFound
        },
{
    match select_attrs(html, "a[href*='/i/']", "href") {
        None => Err(FetchError::BadSelector),
        Some(hrefs) => {
            let ids = ids_from_hrefs(hrefs.as_slice());
            if ids.len() == 0 {
                Err(FetchError::NoPuzzlesFound)
            } else {
                Ok(ids)
            }
        },
    }
}

/// The full-size image of a print page.
pub fn image_url_from_srcs(srcs: &[Option<String>]) -> (r: Option<String>)
    ensures
        r matches Some(u) ==> image_url_text(attr_views(srcs@)) == Some(u@),
        r is None ==> image_url_text(attr_views(srcs@)) is None,
{
    if srcs.len() == 0 {
        return None;
    }
    match &srcs[0] {
        None => None,
        Some(src) => {
            let v = chars_of(src.as_str());
            let from = chars_of("_12_1_");
            let to = chars_of("_19_4_");
            proof {
                reveal_strlit("_12_1_");
            }
            let r = replace_chars(v.as_slice(), from.as_slice(), to.as_slice());
            Some(string_from(r.as_slice()))
        },
    }
}

/// The full-size puzzle image that a print page shows.
pub fn parse_image_url(html: &str) -> (r: Result<String, FetchError>)
    ensures
        r matches Ok(u) ==> selected_attrs(html@, "img[src*='static.nonograms.org']"@, "src"@)
            matches Some(srcs) && image_url_text(srcs) == Some(u@),
        r matches Err(e) ==> {
            ||| selected_attrs(html@, "img[src*='static.nonograms.org']"@, "src"@) is None
                && e is BadSelector
            ||| selected_attrs(html@, "img[src*='static.nonograms.org']"@, "src"@) matches Some(
                srcs,
            ) && image_url_text(srcs) is None && e is NoPuzzleImage
        },
{
    match select_attrs(html, "img[src*='static.nonograms.org']", "src") {
        None => Err(FetchError::BadSelector),
        Some(srcs) => match image_url_from_srcs(srcs.as_slice()) {
            Some(u) => Ok(u),
            None => Err(FetchError::NoPuzzleImage),
        },
    }
}

/// A link made of a prefix in which `pat` does not start, then `pat`, a
/// decimal numeral and a query that is empty or starts with `?`, is cut by
/// the link readers down to exactly that numeral.
proof fn lemma_numbered_link(prefix: Seq<char>, pat: Seq<char>, n: nat, rest: Seq<char>)
    requires
        pat.len() == 3,
        pat[0] == '/',
        forall|i: int| 0 <= i < prefix.len() ==> !occurs_at(prefix + pat + decimal(n) + rest, pat, i),
        rest.len() == 0 || rest[0] == '?',
    ensures
        second_piece(prefix + pat + decimal(n) + rest, pat) matches Some(piece) && trim(
            before_char(piece, '?'),
        ) == decimal(n),
{
    let d = decimal(n);
    lemma_parse_decimal(n);
    let s = prefix + pat + d + rest;
    let p = prefix.len() as int;
    assert(s.subrange(p, p + 3) =~= pat);
    lemma_find_from_is(s, pat, 0, p);
    let start = p + 3;
    lemma_find_from(s, pat, start);
    assert forall|k: int| 0 <= k < d.len() implies d[k] != '?' && d[k] != '/' by {
        assert(is_digit(d[k]));
    }
    let piece = match find_from(s, pat, start) {
        None => s.subrange(start, s.len() as int),
        Some(q) => s.subrange(start, q),
    };
    let r = match find_from(s, pat, start) {
        None => rest,
        Some(q) => {
            if q < start + d.len() {
                assert(s[q] == d[q - start]);
                assert(s.subrange(q, q + 3)[0] == s[q]);
            }
            rest.subrange(0, q - start - d.len())
        },
    };
    assert(piece =~= d + r);
    assert(r.len() == 0 || r[0] == '?');
    lemma_before_char_prefix(d, r, '?');
    lemma_trim_unspaced(d);
}

/// A result-page link built by `page_url` is read back as its page number.
pub proof fn lemma_page_link_roundtrip(page: usize, params: Seq<char>)
    requires
        params.len() == 0 || params[0] == '?',
    ensures
        page_number(page_url_text(page as nat, params)) == Some(page),
{
    reveal_strlit("https://www.nonograms.org/search");
    reveal_strlit("/p/");
    let prefix = SEARCH_URL@;
    let pat = "/p/"@;
    let s = prefix + pat + decimal(page as nat) + params;
    assert(prefix.len() == 32);
    assert forall|i: int| 0 <= i < prefix.len() implies !occurs_at(s, pat, i) by {
        if occurs_at(s, pat, i) {
            assert(s.subrange(i, i + 3)[0] == s[i]);
            assert(s.subrange(i, i + 3)[1] == s[i + 1]);
            if i < 31 {
                assert(#[trigger] prefix[i] == '/' && prefix[i + 1] == 'p');
            } else {
                assert(prefix[31] == 'h');
            }
        }
    }
    lemma_numbered_link(prefix, pat, page as nat, params);
    lemma_parse_decimal(page as nat);
}

/// The query of every search starts with `?`, so the result-page links
/// built for a search are read back as their page numbers.
pub proof fn lemma_search_page_links(req: FetchRequest, page: usize)
    ensures
        search_params_text(req)[0] == '?',
        page_number(page_url_text(page as nat, search_params_text(req))) == Some(page),
{
    reveal_strlit("?name=&colors=");
    let q = search_params_text(req);
    assert(q[0] == "?name=&colors="@[0]);
    lemma_page_link_roundtrip(page, q);
}

/// The search query names the colour asked for: `colors=1` for black and
/// white, `colors=2` for colour; two searches that differ in colour send
/// different queries, and so ask for different first pages.
pub proof fn lemma_search_colour(req: FetchRequest, other: FetchRequest)
    ensures
        search_params_text(req).subrange(0, 15) == "?name=&colors="@ + (if req.type_bw {
            "1"@
        } else {
            "2"@
        }),
        req.type_bw != other.type_bw ==> search_params_text(req) != search_params_text(other),
        req.type_bw != other.type_bw ==> SEARCH_URL@ + search_params_text(req) != SEARCH_URL@
            + search_params_text(other),
{
    reveal_strlit("?name=&colors=");
    reveal_strlit("1");
    reveal_strlit("2");
    let q = search_params_text(req);
    let q2 = search_params_text(other);
    let head = "?name=&colors="@ + (if req.type_bw {
        "1"@
    } else {
        "2"@
    });
    assert(q.subrange(0, 15) =~= head);
    assert(q[14] == (if req.type_bw {
        '1'
    } else {
        '2'
    }));
    assert(q2[14] == (if other.type_bw {
        '1'
    } else {
        '2'
    }));
    if req.type_bw != other.type_bw {
        assert(q[14] != q2[14]);
        let u = SEARCH_URL@ + q;
        let u2 = SEARCH_URL@ + q2;
        assert(u[SEARCH_URL@.len() as int + 14] == q[14]);
        assert(u2[SEARCH_URL@.len() as int + 14] == q2[14]);
    }
}

/// The print page is the black-and-white one (`nonogramprint/i/`) or the
/// colour one (`nonogramprint2/i/`) as asked: the pages of the two colours
/// of a puzzle are different pages.
pub proof fn lemma_print_colour(id: u32)
    ensures
        print_url_text(id, true).take(42) == "https://www.nonograms.org/nonogramprint/i/"@,
        print_url_text(id, false).take(43) == "https://www.nonograms.org/nonogramprint2/i/"@,
        print_url_text(id, true) != print_url_text(id, false),
{
    reveal_strlit("https://www.nonograms.org/nonogramprint/i/");
    reveal_strlit("https://www.nonograms.org/nonogramprint2/i/");
    let a = print_url_text(id, true);
    let b = print_url_text(id, false);
    assert(a.take(42) =~= "https://www.nonograms.org/nonogramprint/i/"@);
    assert(b.take(43) =~= "https://www.nonograms.org/nonogramprint2/i/"@);
    assert(a[39] == '/');
    assert(b[39] == '2');
}

/// The print-page link of a puzzle is read back as the puzzle's number.
pub proof fn lemma_print_link_roundtrip(id: u32, is_bw: bool)
    ensures
        puzzle_number(print_url_text(id, is_bw)) == Some(id),
{
    reveal_strlit("https://www.nonograms.org/nonogramprint/i/");
    reveal_strlit("https://www.nonograms.org/nonogramprint2/i/");
    reveal_strlit("/i/");
    let pat = "/i/"@;
    let full = if is_bw {
        "https://www.nonograms.org/nonogramprint/i/"@
    } else {
        "https://www.nonograms.org/nonogramprint2/i/"@
    };
    let prefix = full.subrange(0, full.len() - 3);
    assert(prefix + pat =~= full);
    let d = decimal(id as nat);
    let s = prefix + pat + d + Seq::<char>::empty();
    assert(s =~= print_url_text(id, is_bw));
    assert forall|i: int| 0 <= i < prefix.len() implies !occurs_at(s, pat, i) by {
        if occurs_at(s, pat, i) {
            assert(s.subrange(i, i + 3)[0] == s[i]);
            assert(s.subrange(i, i + 3)[1] == s[i + 1]);
            assert(s[i] == full[i] && s[i + 1] == full[i + 1]);
            assert(#[trigger] full[i] == '/' && full[i + 1] == 'i');
        }
    }
    lemma_numbered_link(prefix, pat, id as nat, Seq::<char>::empty());
    lemma_parse_decimal(id as nat);
}

#[verifier::external_type_specification]
#[verifier::external_body]
pub struct ExSystemTime(std::time::SystemTime);

/// `SystemTime::now`: a reading of the system clock, of which nothing is
/// claimed.
#[verifier::external_body]
fn system_now() -> std::time::SystemTime {
    std::time::SystemTime::now()
}

/// `SystemTime::duration_since(UNIX_EPOCH)`: the time elapsed since the Unix
/// epoch, `None` for a reading before it. Nothing is claimed of the value.
#[verifier::external_body]
fn since_unix_epoch(t: &std::time::SystemTime) -> Option<std::time::Duration> {
    t.duration_since(std::time::UNIX_EPOCH).ok()
}

/// `Duration::subsec_nanos`: the fractional part of `d` in nanoseconds,
/// which the documentation bounds below one billion.
#[verifier::external_body]
fn subsec_nanos(d: &std::time::Duration) -> (r: u32)
    ensures
        r < 1_000_000_000,
{
    d.subsec_nanos()
}

/// The nanoseconds of the current second of the clock (zero when the clock
/// reads before the Unix epoch).
pub fn clock_nanos() -> (r: u32)
    ensures
        r < 1_000_000_000,
{
    let now = system_now();
    match since_unix_epoch(&now) {
        Some(d) => subsec_nanos(&d),
        None => 0,
    }
}

/// A deduplicated sequence has no equal neighbours, keeps a property that
/// all its input has, and is empty only if its input is.
pub proof fn lemma_dedup(s: Seq<u32>)
    ensures
        forall|k: int| 0 <= k < dedup(s).len() - 1 ==> #[trigger] dedup(s)[k] != dedup(s)[k + 1],
        forall|k: int| 0 <= k < dedup(s).len() ==> s.contains(#[trigger] dedup(s)[k]),
        dedup(s).len() <= s.len(),
        (dedup(s).len() == 0) == (s.len() == 0),
    decreases s.len(),
{
    if s.len() > 0 {
        let rest = s.drop_last();
        lemma_dedup(rest);
        let d = dedup(rest);
        assert forall|k: int| 0 <= k < dedup(s).len() implies s.contains(#[trigger] dedup(s)[k]) by {
            if k < d.len() {
                assert(rest.contains(d[k]));
                let j = choose|j: int| 0 <= j < rest.len() && rest[j] == d[k];
                assert(s[j] == d[k]);
            } else {
                assert(s[s.len() - 1] == s.last());
            }
        }
    }
}

/// Every number that `linked_ids` collects is positive.
pub proof fn lemma_linked_ids_positive(hrefs: Seq<Option<Seq<char>>>)
    ensures
        forall|k: int| 0 <= k < linked_ids(hrefs).len() ==> #[trigger] linked_ids(hrefs)[k] > 0,
    decreases hrefs.len(),
{
    if hrefs.len() > 0 {
        let rest = linked_ids(hrefs.drop_last());
        lemma_linked_ids_positive(hrefs.drop_last());
        let all = linked_ids(hrefs);
        assert forall|k: int| 0 <= k < all.len() implies #[trigger] all[k] > 0 by {
            if k < rest.len() {
                assert(rest[k] > 0);
            }
        }
    }
}

/// The puzzle numbers of a search page are positive and no number follows
/// itself.
pub proof fn lemma_puzzle_ids(hrefs: Seq<Option<Seq<char>>>)
    ensures
        forall|k: int| 0 <= k < puzzle_ids(hrefs).len() ==> #[trigger] puzzle_ids(hrefs)[k] > 0,
        forall|k: int|
            0 <= k < puzzle_ids(hrefs).len() - 1 ==> #[trigger] puzzle_ids(hrefs)[k] != puzzle_ids(
                hrefs,
            )[k + 1],
{
    let s = linked_ids(hrefs);
    lemma_linked_ids_positive(hrefs);
    lemma_dedup(s);
    assert forall|k: int| 0 <= k < puzzle_ids(hrefs).len() implies #[trigger] puzzle_ids(hrefs)[k]
        > 0 by {
        assert(s.contains(dedup(s)[k]));
    }
}

/// The page count that the first result page announces (one when its link
/// selector is refused).
pub open spec fn first_page_count(first_body: Seq<char>) -> usize {
    match selected_attrs(first_body, "a[href*='/p/']"@, "href"@) {
        Some(hs) => page_count(hs),
        None => 1,
    }
}

/// The result page a search reads, given its first page and the clock seed.
pub open spec fn search_page(first_body: Seq<char>, seed: u32) -> nat {
    chosen_page(first_page_count(first_body), seed)
}

/// What a search does once it has its first result page.
pub enum SearchStep {
    /// Fetch this result page and read its puzzle links.
    FetchPage(String),
    /// The chosen page is the first one: this is what its links give.
    Done(Result<Vec<u32>, FetchError>),
}

/// The URL of the first result page of the search for `req`.
pub fn search_first_url(req: &FetchRequest) -> (u: String)
    ensures
        u@ == SEARCH_URL@ + search_params_text(*req),
{
    let params = search_params(req);
    search_url(params.as_str())
}

/// Decides, from the first result page of the search for `req` and a clock
/// seed, which page is read: when it is the first, its puzzle links are
/// read at once; otherwise that page is to be fetched.
pub fn search_next(req: &FetchRequest, first_body: &str, seed: u32) -> (a: SearchStep)
    ensures
        a is Done <==> search_page(first_body@, seed) == 1,
        a matches SearchStep::FetchPage(u) ==> u@ == page_url_text(
            search_page(first_body@, seed),
            search_params_text(*req),
        ),
        a matches SearchStep::Done(r) ==> is_ids_parse(first_body@, r),
{
    let total_pages = match parse_total_pages(first_body) {
        Some(n) => n,
        None => 1,
    };
    let page = choose_page(total_pages, seed);
    if page == 1 {
        SearchStep::Done(parse_ids(first_body))
    } else {
        let params = search_params(req);
        SearchStep::FetchPage(page_url(page, params.as_str()))
    }
}

/// Searches nonograms.org for puzzles matching `req` and returns the puzzle
/// numbers of one result page: the first page is fetched to learn the
/// page count, then a page is picked from the clock (the first when there
/// is only one) and its puzzle links are read.
pub fn search_nonograms(req: &FetchRequest) -> (r: Result<Vec<u32>, FetchError>)
    ensures
        r matches Ok(ids) ==> {
            &&& ids@.len() > 0
            &&& forall|k: int| 0 <= k < ids@.len() ==> #[trigger] ids@[k] > 0
            &&& forall|k: int| 0 <= k < ids@.len() - 1 ==> #[trigger] ids@[k] != ids@[k + 1]
        },
        r is Ok ==> exists|page: Seq<char>| is_ids_parse(page, r),
        r matches Err(e) ==> !(e is NoPuzzleImage),
{
    let first_url = search_first_url(req);
    let first_body = match fetch_html(first_url.as_str()) {
        Ok(b) => b,
        Err(e) => return Err(FetchError::Http(e)),
    };
    let seed = clock_nanos();
    let (body, r) = match search_next(req, first_body.as_str(), seed) {
        SearchStep::Done(r) => (first_body, r),
        SearchStep::FetchPage(url) => {
            let body = match fetch_html(url.as_str()) {
                Ok(b) => b,
                Err(e) => return Err(FetchError::Http(e)),
            };
            let r = parse_ids(body.as_str());
            (body, r)
        },
    };
    proof {
        if let Some(hs) = selected_attrs(body@, "a[href*='/i/']"@, "href"@) {
            lemma_puzzle_ids(hs);
        }
        assert(is_ids_parse(body@, r));
    }
    r
}

/// Downloads puzzle `id`: its print page, then the full-size image that the
/// page shows. The title is `Nonogram #<id>`.
pub fn fetch_nonogram(id: u32, is_bw: bool) -> (r: Result<NonogramInfo, FetchError>)
    ensures
        r matches Ok(info) ==> info.id == id && info.title@ == title_text(id),
        r matches Err(e) ==> !(e is NoPuzzlesFound),
{
    let url = print_url(id, is_bw);
    let html = match fetch_html(url.as_str()) {
        Ok(h) => h,
        Err(e) => return Err(FetchError::Http(e)),
    };
    let title = puzzle_title(id);
    let img_url = match parse_image_url(html.as_str()) {
        Ok(u) => u,
        Err(e) => return Err(e),
    };
    let image_bytes = match fetch_bytes(img_url.as_str()) {
        Ok(b) => b,
        Err(e) => return Err(FetchError::Http(e)),
    };
    Ok(NonogramInfo { id, title, image_bytes })
}

} // verus!
