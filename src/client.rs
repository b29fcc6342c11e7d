use vstd::prelude::*;
use crate::article::{
    ArticleData, ArticlePreviewResponse, Tag, ArticlesListFilter, ArticlesListSorting, ArticlesSearchSorting, date_filter_param,
    list_sorting_param, search_sorting_param,
};
use crate::hub::Hub;
use crate::html_parse::{extract_text_from_html, walk_text};
use crate::provider::fragment_walk;
use crate::text::{strings_view, trim, trim_spec};
use vstd::utf8::encode_utf8;

verus! {

/// The decimal digit for `d < 10`.
pub open spec fn digit_char(d: nat) -> char {
    if d == 0 {
        '0'
    } else if d == 1 {
        '1'
    } else if d == 2 {
        '2'
    } else if d == 3 {
        '3'
    } else if d == 4 {
        '4'
    } else if d == 5 {
        '5'
    } else if d == 6 {
        '6'
    } else if d == 7 {
        '7'
    } else if d == 8 {
        '8'
    } else {
        '9'
    }
}

/// `n` written in decimal, without leading zeros.
pub open spec fn decimal(n: nat) -> Seq<char>
    decreases n,
{
    if n < 10 {
        seq![digit_char(n)]
    } else {
        decimal(n / 10).push(digit_char(n % 10))
    }
}

fn digit_str(d: u64) -> (r: &'static str)
    requires
        d < 10,
    ensures
        r@ == seq![digit_char(d as nat)],
{
    proof {
        reveal_strlit("0");
        reveal_strlit("1");
        reveal_strlit("2");
        reveal_strlit("3");
        reveal_strlit("4");
        reveal_strlit("5");
        reveal_strlit("6");
        reveal_strlit("7");
        reveal_strlit("8");
        reveal_strlit("9");
    }
    if d == 0 {
        "0"
    } else if d == 1 {
        "1"
    } else if d == 2 {
        "2"
    } else if d == 3 {
        "3"
    } else if d == 4 {
        "4"
    } else if d == 5 {
        "5"
    } else if d == 6 {
        "6"
    } else if d == 7 {
        "7"
    } else if d == 8 {
        "8"
    } else {
        "9"
    }
}

/// `n` written in decimal.
pub fn decimal_string(n: u64) -> (r: String)
    ensures
        r@ == decimal(n as nat),
    decreases n,
{
    if n < 10 {
        digit_str(n).to_owned()
    } else {
        let mut s = decimal_string(n / 10);
        s.append(digit_str(n % 10));
        s
    }
}

/// The views of query pairs.
pub open spec fn pairs_view(s: Seq<(String, String)>) -> Seq<(Seq<char>, Seq<char>)> {
    s.map_values(|p: (String, String)| (p.0@, p.1@))
}

fn pair(key: &str, value: String) -> (r: (String, String))
    ensures
        r.0@ == key@,
        r.1@ == value@,
{
    (key.to_owned(), value)
}

/// The query pair that selects the articles a list filter admits.
pub open spec fn filter_pair(filter: ArticlesListFilter) -> (Seq<char>, Seq<char>) {
    match filter {
        ArticlesListFilter::ByDate(d) => ("period"@, date_filter_param(d)),
        ArticlesListFilter::ByRating(r) => (
            "score"@,
            match r {
                Some(s) => decimal(s as nat),
                None => Seq::empty(),
            },
        ),
    }
}

/// The query of a request for a page of an article list: a hub's list is
/// always sorted by "all", the front list by the chosen order.
pub open spec fn articles_query_spec(
    hub: Seq<char>,
    sorting: ArticlesListSorting,
    filter: ArticlesListFilter,
    page: u8,
) -> Seq<(Seq<char>, Seq<char>)> {
    seq![
        ("page"@, decimal(page as nat)),
        ("hub"@, hub),
        ("sort"@, if hub.len() == 0 { list_sorting_param(sorting) } else { "all"@ }),
        ("perPage"@, "20"@),
        filter_pair(filter),
    ]
}

/// The query pairs of a request for a page of an article list.
pub fn articles_query(
    hub: &String,
    sorting: ArticlesListSorting,
    filter: ArticlesListFilter,
    page: u8,
) -> (r: Vec<(String, String)>)
    ensures
        pairs_view(r@) == articles_query_spec(hub@, sorting, filter, page),
{
    let filter_params = match filter {
        ArticlesListFilter::ByDate(date) => pair("period", date.to_string()),
        ArticlesListFilter::ByRating(rating) => pair(
            "score",
            match rating {
                Some(s) => decimal_string(s as u64),
                None => String::new(),
            },
        ),
    };
    let sort = if hub.as_str().is_empty() {
        sorting.to_string()
    } else {
        "all".to_owned()
    };
    let mut r: Vec<(String, String)> = Vec::new();
    r.push(pair("page", decimal_string(page as u64)));
    r.push(pair("hub", hub.clone()));
    r.push(pair("sort", sort));
    r.push(pair("perPage", "20".to_owned()));
    r.push(filter_params);
    assert(pairs_view(r@) =~= articles_query_spec(hub@, sorting, filter, page));
    r
}

/// The query of a request for a page of search results.
pub open spec fn search_query_spec(
    query: Seq<char>,
    sort: ArticlesSearchSorting,
    page: u8,
) -> Seq<(Seq<char>, Seq<char>)> {
    seq![
        ("page"@, decimal(page as nat)),
        ("query"@, query),
        ("order"@, search_sorting_param(sort)),
        ("perPage"@, "20"@),
    ]
}

/// The query pairs of a request for a page of search results.
pub fn search_query(query: &str, sort: ArticlesSearchSorting, page: u8) -> (r: Vec<
    (String, String),
>)
    ensures
        pairs_view(r@) == search_query_spec(query@, sort, page),
{
    let mut r: Vec<(String, String)> = Vec::new();
    r.push(pair("page", decimal_string(page as u64)));
    r.push(pair("query", query.to_owned()));
    r.push(pair("order", sort.to_string()));
    r.push(pair("perPage", "20".to_owned()));
    assert(pairs_view(r@) =~= search_query_spec(query@, sort, page));
    r
}

/// The address of the hub list: the search endpoint when there is search
/// text, the plain list otherwise.
pub open spec fn hubs_url_spec(search_text: Seq<char>) -> Seq<char> {
    if search_text.len() == 0 {
        "https://habr.com/kek/v2/hubs"@
    } else {
        "https://habr.com/kek/v2/hubs/search"@
    }
}

pub fn hubs_url(search_text: &str) -> (r: String)
    ensures
        r@ == hubs_url_spec(search_text@),
{
    if search_text.is_empty() {
        "https://habr.com/kek/v2/hubs".to_owned()
    } else {
        "https://habr.com/kek/v2/hubs/search".to_owned()
    }
}

/// The query of a request for a page of the hub list.
pub open spec fn hubs_query_spec(search_text: Seq<char>, page: u8) -> Seq<(Seq<char>, Seq<char>)> {
    seq![
        ("q"@, search_text),
        ("page"@, decimal(page as nat)),
        ("fl"@, "ru"@),
        ("hl"@, "ru"@),
    ]
}

pub fn hubs_query(search_text: &str, page: u8) -> (r: Vec<(String, String)>)
    ensures
        pairs_view(r@) == hubs_query_spec(search_text@, page),
{
    let mut r: Vec<(String, String)> = Vec::new();
    r.push(pair("q", search_text.to_owned()));
    r.push(pair("page", decimal_string(page as u64)));
    r.push(pair("fl", "ru".to_owned()));
    r.push(pair("hl", "ru".to_owned()));
    assert(pairs_view(r@) =~= hubs_query_spec(search_text@, page));
    r
}

/// The titles of a preview's tags.
pub open spec fn tag_titles(tags: Seq<Tag>) -> Seq<Seq<char>> {
    tags.map_values(|t: Tag| t.title@)
}

/// The value of an optional string, or the empty string.
pub open spec fn or_empty(s: Option<String>) -> Seq<char> {
    match s {
        Some(v) => v@,
        None => Seq::empty(),
    }
}

fn unwrap_or_empty(s: Option<String>) -> (r: String)
    ensures
        r@ == or_empty(s),
{
    match s {
        Some(v) => v,
        None => String::new(),
    }
}

impl ArticleData {
    /// The list entry of an article preview, given its publication time as
    /// it is to be shown: the title as plain text, and an empty string for
    /// every field the preview lacks.
    pub fn from_preview(a: ArticlePreviewResponse, published_at: String) -> (r: ArticleData)
        ensures
            r.id@ == a.id@,
            r.title@ == walk_text(fragment_walk(trim_spec(a.title@))),
            r.author@ == match a.author {
                Some(au) => au.alias@,
                None => Seq::empty(),
            },
            r.reading_time == a.reading_time,
            r.published_at@ == published_at@,
            strings_view(r.tags@) == tag_titles(a.tags@),
            r.complexity@ == or_empty(a.complexity),
            r.image_url@ == or_empty(a.lead_data.image_url),
            r.score == a.statistics.score,
    {
        let trimmed = trim(a.title.as_str());
        let title = extract_text_from_html(trimmed.as_str());
        let author = match a.author {
            Some(au) => au.alias,
            None => String::new(),
        };
        let mut tags: Vec<String> = Vec::new();
        let mut i: usize = 0;
        while i < a.tags.len()
            invariant
                i <= a.tags.len(),
                strings_view(tags@) =~= tag_titles(a.tags@.subrange(0, i as int)),
            decreases a.tags.len() - i,
        {
            let ghost before = tags@;
            tags.push(a.tags[i].title.clone());
            assert(strings_view(tags@) =~= strings_view(before).push(a.tags@[i as int].title@));
            assert(tag_titles(a.tags@.subrange(0, i as int + 1)) =~= tag_titles(
                a.tags@.subrange(0, i as int),
            ).push(a.tags@[i as int].title@));
            i = i + 1;
        }
        assert(a.tags@.subrange(0, a.tags.len() as int) =~= a.tags@);
        ArticleData {
            id: a.id,
            title,
            author,
            reading_time: a.reading_time,
            published_at,
            tags,
            complexity: unwrap_or_empty(a.complexity),
            image_url: unwrap_or_empty(a.lead_data.image_url),
            score: a.statistics.score,
        }
    }
}

/// Whether score `a` may stand before score `b`.
pub open spec fn score_before(a: isize, b: isize, descending: bool) -> bool {
    if descending {
        a >= b
    } else {
        a <= b
    }
}

fn score_goes_before(a: isize, b: isize, descending: bool) -> (r: bool)
    ensures
        r == score_before(a, b, descending),
{
    if descending {
        a >= b
    } else {
        a <= b
    }
}

/// Articles ordered by score, highest first when `descending`.
pub open spec fn sorted_by_score(s: Seq<ArticleData>, descending: bool) -> bool {
    forall|i: int, j: int|
        0 <= i < j < s.len() ==> score_before(#[trigger] s[i].score, #[trigger] s[j].score, descending)
}

proof fn lemma_multiset_insert<A>(s: Seq<A>, k: int, x: A)
    requires
        0 <= k <= s.len(),
    ensures
        s.insert(k, x).to_multiset() =~= s.to_multiset().insert(x),
{
    let t = s.insert(k, x);
    t.to_multiset_ensures();
    assert(t.remove(k) =~= s);
    assert(t[k] == x);
    assert(t.contains(x));
}

/// The articles ordered by score: highest first when `descending`, lowest
/// first otherwise.
pub fn sort_articles_by_score(articles: Vec<ArticleData>, descending: bool) -> (r: Vec<
    ArticleData,
>)
    ensures
        sorted_by_score(r@, descending),
        r@.to_multiset() =~= articles@.to_multiset(),
{
    broadcast use vstd::seq_lib::group_to_multiset_ensures;
    let mut rest = articles;
    let mut out: Vec<ArticleData> = Vec::new();
    while rest.len() > 0
        invariant
            sorted_by_score(out@, descending),
            out@.to_multiset().add(rest@.to_multiset()) =~= articles@.to_multiset(),
        decreases rest.len(),
    {
        let ghost old_rest = rest@;
        let x = rest.pop().unwrap();
        assert(old_rest =~= rest@.push(x));
        proof {
            rest@.to_multiset_ensures();
            assert(rest@.push(x).to_multiset() =~= rest@.to_multiset().insert(x));
        }
        assert(old_rest.to_multiset() =~= rest@.to_multiset().insert(x));
        let mut k: usize = 0;
        while k < out.len() && score_goes_before(out[k].score, x.score, descending)
            invariant
                k <= out.len(),
                forall|j: int| 0 <= j < k ==> score_before(#[trigger] out@[j].score, x.score, descending),
            decreases out.len() - k,
        {
            k = k + 1;
        }
        proof {
            lemma_multiset_insert(out@, k as int, x);
        }
        let ghost old_out = out@;
        out.insert(k, x);
        assert(out@ =~= old_out.insert(k as int, x));
        assert(out@.to_multiset() =~= old_out.to_multiset().insert(x));
        assert(out@.to_multiset().add(rest@.to_multiset()) =~= old_out.to_multiset().add(
            old_rest.to_multiset(),
        ));
        assert forall|i: int, j: int| 0 <= i < j < out@.len() implies score_before(
            #[trigger] out@[i].score,
            #[trigger] out@[j].score,
            descending,
        ) by {
            if i == k && j > k {
                assert(!score_before(old_out[k as int].score, x.score, descending));
                assert(score_before(old_out[k as int].score, old_out[j - 1].score, descending)
                    || k as int == j - 1);
            }
        }
    }
    out
}

/// Byte-wise lexicographic order: `a` is a prefix of `b`, or at the first
/// byte where they differ `a`'s is smaller.
pub open spec fn bytes_le(a: Seq<u8>, b: Seq<u8>) -> bool
    decreases a.len(),
{
    if a.len() == 0 {
        true
    } else if b.len() == 0 {
        false
    } else if a[0] != b[0] {
        a[0] < b[0]
    } else {
        bytes_le(a.drop_first(), b.drop_first())
    }
}

/// The order of strings: by their UTF-8 bytes.
pub open spec fn text_le(a: Seq<char>, b: Seq<char>) -> bool {
    bytes_le(encode_utf8(a), encode_utf8(b))
}

pub proof fn lemma_bytes_le_total(a: Seq<u8>, b: Seq<u8>)
    ensures
        bytes_le(a, b) || bytes_le(b, a),
    decreases a.len(),
{
    if a.len() > 0 && b.len() > 0 && a[0] == b[0] {
        lemma_bytes_le_total(a.drop_first(), b.drop_first());
    }
}

/// Relies on `Ord for str`: strings are ordered lexicographically by their
/// bytes.
#[verifier::external_body]
fn str_le(a: &str, b: &str) -> (r: bool)
    ensures
        r == text_le(a@, b@),
{
    a <= b
}

/// Hubs ordered by title, each title no greater than the next.
pub open spec fn sorted_by_title(s: Seq<Hub>) -> bool {
    forall|i: int| 0 <= i < s.len() - 1 ==> text_le(#[trigger] s[i].title@, s[i + 1].title@)
}

/// The hubs ordered by title.
pub fn sort_hubs_by_title(hubs: Vec<Hub>) -> (r: Vec<Hub>)
    ensures
        sorted_by_title(r@),
        r@.to_multiset() =~= hubs@.to_multiset(),
{
    broadcast use vstd::seq_lib::group_to_multiset_ensures;
    let mut rest = hubs;
    let mut out: Vec<Hub> = Vec::new();
    while rest.len() > 0
        invariant
            sorted_by_title(out@),
            out@.to_multiset().add(rest@.to_multiset()) =~= hubs@.to_multiset(),
        decreases rest.len(),
    {
        let ghost old_rest = rest@;
        let x = rest.pop().unwrap();
        assert(old_rest =~= rest@.push(x));
        proof {
            rest@.to_multiset_ensures();
            assert(rest@.push(x).to_multiset() =~= rest@.to_multiset().insert(x));
        }
        let mut k: usize = 0;
        while k < out.len() && str_le(out[k].title.as_str(), x.title.as_str())
            invariant
                k <= out.len(),
                k > 0 ==> text_le(out@[k - 1].title@, x.title@),
            decreases out.len() - k,
        {
            k = k + 1;
        }
        proof {
            lemma_multiset_insert(out@, k as int, x);
            if k < out.len() {
                lemma_bytes_le_total(encode_utf8(out@[k as int].title@), encode_utf8(x.title@));
            }
        }
        let ghost old_out = out@;
        out.insert(k, x);
        assert(out@ =~= old_out.insert(k as int, x));
        assert(out@.to_multiset() =~= old_out.to_multiset().insert(x));
        assert(out@.to_multiset().add(rest@.to_multiset()) =~= old_out.to_multiset().add(
            old_rest.to_multiset(),
        ));
        assert forall|i: int| 0 <= i < out@.len() - 1 implies text_le(
            #[trigger] out@[i].title@,
            out@[i + 1].title@,
        ) by {
            if i < k - 1 {
                assert(out@[i] == old_out[i] && out@[i + 1] == old_out[i + 1]);
            } else if i > k {
                assert(out@[i] == old_out[i - 1] && out@[i + 1] == old_out[i]);
            }
        }
    }
    out
}

/// The hubs with their titles, which the API gives as HTML, turned into plain
/// text; everything else is kept, in the same order.
pub fn hub_titles_as_text(hubs: Vec<Hub>) -> (r: Vec<Hub>)
    ensures
        r@.len() == hubs@.len(),
        forall|i: int|
            0 <= i < r@.len() ==> {
                &&& (#[trigger] r@[i]).title@ == walk_text(fragment_walk(hubs@[i].title@))
                &&& r@[i].id == hubs@[i].id
                &&& r@[i].alias == hubs@[i].alias
                &&& r@[i].description_html == hubs@[i].description_html
                &&& r@[i].common_tags == hubs@[i].common_tags
                &&& r@[i].image_url == hubs@[i].image_url
            },
{
    let ghost n = hubs@.len();
    let mut rest = hubs;
    let mut out: Vec<Hub> = Vec::new();
    while rest.len() > 0
        invariant
            n == hubs@.len(),
            out@.len() + rest@.len() == n,
            rest@ == hubs@.subrange(out@.len() as int, n as int),
            forall|i: int|
                0 <= i < out@.len() ==> {
                    &&& (#[trigger] out@[i]).title@ == walk_text(fragment_walk(hubs@[i].title@))
                    &&& out@[i].id == hubs@[i].id
                    &&& out@[i].alias == hubs@[i].alias
                    &&& out@[i].description_html == hubs@[i].description_html
                    &&& out@[i].common_tags == hubs@[i].common_tags
                    &&& out@[i].image_url == hubs@[i].image_url
                },
        decreases rest.len(),
    {
        let mut h = rest.remove(0);
        assert(h == hubs@[out@.len() as int]);
        h.title = extract_text_from_html(h.title.as_str());
        out.push(h);
        assert(rest@ =~= hubs@.subrange(out@.len() as int, n as int));
    }
    out
}

} // verus!
