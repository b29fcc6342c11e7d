use habre::article::{
    ArticleData, ArticlePreviewResponse, ArticlesListFilter, ArticlesListSorting,
    ArticlesSearchSorting, Author, DateFilter, LeadData, Statistics, Tag,
};
use habre::client::{
    articles_query, decimal_string, hub_titles_as_text, hubs_query, hubs_url, search_query,
    sort_articles_by_score, sort_hubs_by_title,
};
use habre::comment::{Comment, CommentAuthor};
use habre::hub::Hub;
use habre::loading::RequestTracker;
use habre::widgets::Pager;

fn pairs(v: &[(&str, &str)]) -> Vec<(String, String)> {
    v.iter().map(|(k, x)| (k.to_string(), x.to_string())).collect()
}

#[test]
fn sorting_and_filter_names() {
    assert_eq!(ArticlesListSorting::Best.to_string(), "date");
    assert_eq!(ArticlesListSorting::Newest.to_string(), "rating");
    assert_eq!(ArticlesListSorting::default(), ArticlesListSorting::Newest);
    assert_eq!(DateFilter::Daily.to_string(), "daily");
    assert_eq!(DateFilter::Weekly.to_string(), "weekly");
    assert_eq!(DateFilter::Monthly.to_string(), "monthly");
    assert_eq!(DateFilter::Yearly.to_string(), "yearly");
    assert_eq!(DateFilter::AllTime.to_string(), "alltime");
    assert_eq!(ArticlesSearchSorting::Relevance.to_string(), "relevance");
    assert_eq!(ArticlesSearchSorting::Date.to_string(), "date");
    assert_eq!(ArticlesSearchSorting::Rating.to_string(), "rating");
}

#[test]
fn decimal_numbers() {
    assert_eq!(decimal_string(0), "0");
    assert_eq!(decimal_string(7), "7");
    assert_eq!(decimal_string(10), "10");
    assert_eq!(decimal_string(255), "255");
    assert_eq!(decimal_string(u64::MAX), "18446744073709551615");
}

#[test]
fn front_list_query() {
    let q = articles_query(
        &String::new(),
        ArticlesListSorting::Best,
        ArticlesListFilter::ByRating(Some(25)),
        3,
    );
    assert_eq!(
        q,
        pairs(&[("page", "3"), ("hub", ""), ("sort", "date"), ("perPage", "20"), ("score", "25")])
    );
    let q = articles_query(&String::new(), ArticlesListSorting::Newest, ArticlesListFilter::ByRating(None), 1);
    assert_eq!(q[4], ("score".to_string(), String::new()));
}

#[test]
fn hub_list_query_sorts_by_all() {
    let q = articles_query(
        &"rust".to_string(),
        ArticlesListSorting::Newest,
        ArticlesListFilter::ByDate(DateFilter::Weekly),
        12,
    );
    assert_eq!(
        q,
        pairs(&[("page", "12"), ("hub", "rust"), ("sort", "all"), ("perPage", "20"), ("period", "weekly")])
    );
}

#[test]
fn search_and_hub_queries() {
    assert_eq!(
        search_query("verus", ArticlesSearchSorting::Rating, 2),
        pairs(&[("page", "2"), ("query", "verus"), ("order", "rating"), ("perPage", "20")])
    );
    assert_eq!(
        hubs_query("go", 100),
        pairs(&[("q", "go"), ("page", "100"), ("fl", "ru"), ("hl", "ru")])
    );
    assert_eq!(hubs_url(""), "https://habr.com/kek/v2/hubs");
    assert_eq!(hubs_url("go"), "https://habr.com/kek/v2/hubs/search");
}

fn article(id: &str, score: isize) -> ArticleData {
    ArticleData {
        id: id.to_string(),
        title: String::new(),
        tags: vec![],
        complexity: String::new(),
        author: String::new(),
        published_at: String::new(),
        reading_time: 0,
        image_url: String::new(),
        score,
    }
}

#[test]
fn articles_sorted_by_score() {
    let v = vec![article("a", 5), article("b", -2), article("c", 9), article("d", 5)];
    let desc: Vec<isize> = sort_articles_by_score(v.clone(), true).iter().map(|a| a.score).collect();
    assert_eq!(desc, vec![9, 5, 5, -2]);
    let asc: Vec<String> = sort_articles_by_score(v, false).iter().map(|a| a.id.clone()).collect();
    assert_eq!(asc[0], "b");
    assert_eq!(asc[3], "c");
    assert!(sort_articles_by_score(vec![], true).is_empty());
}

fn hub(title: &str) -> Hub {
    Hub {
        id: title.to_string(),
        alias: String::new(),
        title: title.to_string(),
        description_html: String::new(),
        common_tags: vec![],
        image_url: String::new(),
    }
}

#[test]
fn hubs_sorted_by_title_bytes() {
    let v = vec![hub("b"), hub("Я"), hub("ab"), hub("B"), hub("a")];
    let titles: Vec<String> = sort_hubs_by_title(v).into_iter().map(|h| h.title).collect();
    assert_eq!(titles, vec!["B", "a", "ab", "b", "Я"]);
}

#[test]
fn hub_titles_become_plain_text() {
    let v = vec![hub("<b>Rust</b> &amp; co"), hub("Go")];
    let out = hub_titles_as_text(v);
    assert_eq!(out[0].title, "Rust & co");
    assert_eq!(out[0].id, "<b>Rust</b> &amp; co");
    assert_eq!(out[1].title, "Go");
}

#[test]
fn preview_to_list_entry() {
    let p = ArticlePreviewResponse {
        id: "42".to_string(),
        published_at: "2026-01-25T08:09:55+00:00".to_string(),
        title: "  <em>Big</em> news ".to_string(),
        lead_data: LeadData { description: String::new(), image_url: Some("i.png".to_string()) },
        tags: vec![Tag { title: "t1".to_string() }, Tag { title: "t2".to_string() }],
        complexity: None,
        reading_time: 4,
        author: Some(Author { id: "1".to_string(), alias: "me".to_string(), avatar_url: None }),
        statistics: Statistics { comments_count: 1, reading_count: 2, score: -3 },
    };
    let a = ArticleData::from_preview(p, "25.01.2026 08:09".to_string());
    assert_eq!(a.id, "42");
    assert_eq!(a.title, "Big news");
    assert_eq!(a.author, "me");
    assert_eq!(a.tags, vec!["t1".to_string(), "t2".to_string()]);
    assert_eq!(a.complexity, "");
    assert_eq!(a.image_url, "i.png");
    assert_eq!(a.published_at, "25.01.2026 08:09");
    assert_eq!(a.reading_time, 4);
    assert_eq!(a.score, -3);
}

#[test]
fn pager_moves_within_bounds() {
    let mut page: u8 = 1;
    {
        let mut p = Pager::new(&mut page, 2);
        p.prev_page();
        assert!(!p.changed);
        p.next_page();
        assert!(p.changed);
        p.next_page();
    }
    assert_eq!(page, 2);
    {
        let mut p = Pager::new(&mut page, 2);
        p.prev_page();
        assert!(p.changed);
    }
    assert_eq!(page, 1);
}

#[test]
fn only_latest_request_is_current() {
    let mut t = RequestTracker::new();
    let first = t.begin();
    assert!(t.is_current(first));
    let second = t.begin();
    assert!(!t.is_current(first));
    assert!(t.is_current(second));
}

#[test]
fn cloned_comment_keeps_replies() {
    let reply = Comment {
        id: "2".to_string(),
        parent_id: Some("1".to_string()),
        level: 1,
        published_at: "t2".to_string(),
        message: "<p>Reply</p>".to_string(),
        score: 5,
        author: CommentAuthor { alias: "ReplyUser".to_string(), avatar_url: None },
        children_ids: vec![],
        children: vec![],
    };
    let root = Comment {
        id: "1".to_string(),
        parent_id: None,
        level: 0,
        published_at: "t1".to_string(),
        message: "<p>Root</p>".to_string(),
        score: 15,
        author: CommentAuthor { alias: "TestUser".to_string(), avatar_url: Some("a.png".to_string()) },
        children_ids: vec!["2".to_string()],
        children: vec![reply],
    };
    let copy = root.clone();
    assert_eq!(format!("{:?}", copy), format!("{:?}", root));
    assert_eq!(copy.children[0].author.alias, "ReplyUser");
}
