use vstd::prelude::*;

verus! {

/// The short description shown in an article's preview.
#[derive(Debug, Clone)]
pub struct LeadData {
    pub description: String,
    pub image_url: Option<String>,
}

#[derive(Debug, Clone)]
pub struct Tag {
    pub title: String,
}

#[derive(Debug, Clone)]
pub struct Author {
    pub id: String,
    pub alias: String,
    pub avatar_url: Option<String>,
}

#[derive(Debug, Clone)]
pub struct Statistics {
    pub comments_count: usize,
    pub reading_count: usize,
    pub score: isize,
}

/// An article's preview as the content API lists it.
#[derive(Debug, Clone)]
pub struct ArticlePreviewResponse {
    pub id: String,
    pub published_at: String,
    pub title: String,
    pub lead_data: LeadData,
    pub tags: Vec<Tag>,
    pub complexity: Option<String>,
    pub reading_time: usize,
    pub author: Option<Author>,
    pub statistics: Statistics,
}

/// An article's preview as the article list shows it.
#[derive(Debug, Clone)]
pub struct ArticleData {
    pub id: String,
    pub title: String,
    pub tags: Vec<String>,
    pub complexity: String,
    pub author: String,
    pub published_at: String,
    pub reading_time: usize,
    pub image_url: String,
    pub score: isize,
}

/// The order of an article list.
#[derive(Debug, Clone, Copy, PartialEq, Eq, Structural)]
pub enum ArticlesListSorting {
    Newest,
    Best,
}

impl Default for ArticlesListSorting {
    fn default() -> (r: Self)
        ensures
            r == ArticlesListSorting::Newest,
    {
        ArticlesListSorting::Newest
    }
}

/// The query value that stands for a list order.
pub open spec fn list_sorting_param(s: ArticlesListSorting) -> Seq<char> {
    match s {
        ArticlesListSorting::Best => "date"@,
        ArticlesListSorting::Newest => "rating"@,
    }
}

impl ArticlesListSorting {
    pub fn to_string(&self) -> (r: String)
        ensures
            r@ == list_sorting_param(*self),
    {
        match self {
            ArticlesListSorting::Best => "date".to_owned(),
            ArticlesListSorting::Newest => "rating".to_owned(),
        }
    }
}

/// Which articles a list holds: those above a rating, or those of a period.
#[derive(Debug, Clone, Copy, PartialEq, Eq, Structural)]
pub enum ArticlesListFilter {
    ByRating(Option<usize>),
    ByDate(DateFilter),
}

#[derive(Debug, Clone, Copy, PartialEq, Eq, Structural)]
pub enum DateFilter {
    Daily,
    Weekly,
    Monthly,
    Yearly,
    AllTime,
}

/// The query value that stands for a period.
pub open spec fn date_filter_param(d: DateFilter) -> Seq<char> {
    match d {
        DateFilter::Daily => "daily"@,
        DateFilter::Weekly => "weekly"@,
        DateFilter::Monthly => "monthly"@,
        DateFilter::Yearly => "yearly"@,
        DateFilter::AllTime => "alltime"@,
    }
}

impl DateFilter {
    pub fn to_string(&self) -> (r: String)
        ensures
            r@ == date_filter_param(*self),
    {
        match self {
            DateFilter::Daily => "daily".to_owned(),
            DateFilter::Weekly => "weekly".to_owned(),
            DateFilter::Monthly => "monthly".to_owned(),
            DateFilter::Yearly => "yearly".to_owned(),
            DateFilter::AllTime => "alltime".to_owned(),
        }
    }
}

#[derive(Debug, Clone, Copy, PartialEq, Eq, Structural)]
pub enum ComplexityFilter {
    Easy,
    Medium,
    Hard,
}

/// The order of search results.
#[derive(Debug, Clone, Copy, PartialEq, Eq, Structural)]
pub enum ArticlesSearchSorting {
    Relevance,
    Date,
    Rating,
}

/// The query value that stands for a search order.
pub open spec fn search_sorting_param(s: ArticlesSearchSorting) -> Seq<char> {
    match s {
        ArticlesSearchSorting::Relevance => "relevance"@,
        ArticlesSearchSorting::Date => "date"@,
        ArticlesSearchSorting::Rating => "rating"@,
    }
}

impl ArticlesSearchSorting {
    pub fn to_string(&self) -> (r: String)
        ensures
            r@ == search_sorting_param(*self),
    {
        match self {
            ArticlesSearchSorting::Relevance => "relevance".to_owned(),
            ArticlesSearchSorting::Date => "date".to_owned(),
            ArticlesSearchSorting::Rating => "rating".to_owned(),
        }
    }
}

} // verus!
