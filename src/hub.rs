use vstd::prelude::*;

verus! {

/// A hub: a topic that articles are filed under.
#[derive(Debug, Clone)]
pub struct Hub {
    pub id: String,
    pub alias: String,
    pub title: String,
    pub description_html: String,
    pub common_tags: Vec<String>,
    pub image_url: String,
}

} // verus!
