use vstd::prelude::*;
use std::collections::HashMap;

verus! {

/// A comment under an article, with the ids of its replies and, once the
/// thread is assembled, the replies themselves.
#[derive(Debug)]
pub struct Comment {
    pub id: String,
    pub parent_id: Option<String>,
    pub level: usize,
    pub published_at: String,
    pub message: String,
    pub score: isize,
    pub author: CommentAuthor,
    pub children_ids: Vec<String>,
    pub children: Vec<Comment>,
}

#[derive(Debug, Clone)]
pub struct CommentAuthor {
    pub alias: String,
    pub avatar_url: Option<String>,
}

/// The comments of an article, keyed by id, and the ids of the threads'
/// first comments.
#[derive(Debug)]
pub struct CommentsResponse {
    pub comment_refs: HashMap<String, Comment>,
    pub threads: Vec<String>,
}

/// Model of a comment and its replies.
pub struct CommentModel {
    pub id: Seq<char>,
    pub parent_id: Option<Seq<char>>,
    pub level: usize,
    pub published_at: Seq<char>,
    pub message: Seq<char>,
    pub score: isize,
    pub author_alias: Seq<char>,
    pub author_avatar_url: Option<Seq<char>>,
    pub children_ids: Seq<Seq<char>>,
    pub children: Seq<CommentModel>,
}

pub open spec fn opt_view(o: Option<String>) -> Option<Seq<char>> {
    match o {
        Some(s) => Some(s@),
        None => None,
    }
}

pub open spec fn ids_view(s: Seq<String>) -> Seq<Seq<char>> {
    s.map_values(|t: String| t@)
}

/// The model of one comment.
pub open spec fn comment_view(c: Comment) -> CommentModel
    decreases c, 1int,
{
    CommentModel {
        id: c.id@,
        parent_id: opt_view(c.parent_id),
        level: c.level,
        published_at: c.published_at@,
        message: c.message@,
        score: c.score,
        author_alias: c.author.alias@,
        author_avatar_url: opt_view(c.author.avatar_url),
        children_ids: ids_view(c.children_ids@),
        children: comments_view(c.children@),
    }
}

/// The models of a sequence of comments.
pub open spec fn comments_view(s: Seq<Comment>) -> Seq<CommentModel>
    decreases s, 0int,
{
    if s.len() == 0 {
        Seq::empty()
    } else {
        comments_view(s.subrange(0, s.len() - 1)).push(comment_view(s[s.len() - 1]))
    }
}

fn copy_text(s: &String) -> (r: String)
    ensures
        r@ == s@,
{
    s.clone()
}

fn copy_opt(o: &Option<String>) -> (r: Option<String>)
    ensures
        opt_view(r) == opt_view(*o),
{
    match o {
        Some(s) => Some(copy_text(s)),
        None => None,
    }
}

fn copy_ids(v: &Vec<String>) -> (r: Vec<String>)
    ensures
        ids_view(r@) == ids_view(v@),
{
    let mut out: Vec<String> = Vec::new();
    let mut i: usize = 0;
    while i < v.len()
        invariant
            i <= v.len(),
            ids_view(out@) =~= ids_view(v@.subrange(0, i as int)),
        decreases v.len() - i,
    {
        let t = copy_text(&v[i]);
        let ghost before = out@;
        out.push(t);
        assert(ids_view(out@) =~= ids_view(before).push(t@));
        assert(ids_view(v@.subrange(0, i as int + 1)) =~= ids_view(v@.subrange(0, i as int)).push(
            v@[i as int]@,
        ));
        i = i + 1;
    }
    assert(v@.subrange(0, v.len() as int) =~= v@);
    out
}

/// A copy of a comment and all its replies.
pub fn copy_comment(c: &Comment) -> (r: Comment)
    ensures
        comment_view(r) == comment_view(*c),
    decreases c,
{
    let mut children: Vec<Comment> = Vec::new();
    let mut i: usize = 0;
    while i < c.children.len()
        invariant
            i <= c.children.len(),
            comments_view(children@) == comments_view(c.children@.subrange(0, i as int)),
        decreases c.children.len() - i,
    {
        let d = copy_comment(&c.children[i]);
        proof {
            let before = children@;
            assert(before.push(d).subrange(0, before.len() as int) =~= before);
            let sub = c.children@.subrange(0, i as int + 1);
            assert(sub.subrange(0, i as int) =~= c.children@.subrange(0, i as int));
        }
        children.push(d);
        i = i + 1;
    }
    assert(c.children@.subrange(0, c.children.len() as int) =~= c.children@);
    Comment {
        id: copy_text(&c.id),
        parent_id: copy_opt(&c.parent_id),
        level: c.level,
        published_at: copy_text(&c.published_at),
        message: copy_text(&c.message),
        score: c.score,
        author: CommentAuthor {
            alias: copy_text(&c.author.alias),
            avatar_url: copy_opt(&c.author.avatar_url),
        },
        children_ids: copy_ids(&c.children_ids),
        children,
    }
}

impl Clone for Comment {
    fn clone(&self) -> (r: Self)
        ensures
            comment_view(r) == comment_view(*self),
    {
        copy_comment(self)
    }
}

} // verus!
