use vstd::prelude::*;

verus! {

/// An inline run of text inside a paragraph, list item or link, as the
/// rendering layer receives it.
#[derive(Debug, Clone)]
pub enum TypedText {
    Common(String),
    Code(String),
    Link { url: String, value: String },
    Italic(String),
    Strong(String),
}

/// One top-level renderable unit of an article.
#[derive(Debug)]
pub enum ArticleContent {
    Image(String),
    Header(u8, String),
    Paragraph(Vec<TypedText>),
    Code { lang: String, content: String },
    Blockquote(String),
    Text(TypedText),
    UnorderedList(Vec<ArticleContent>),
    OrderedList(Vec<ArticleContent>),
    BR,
}

/// Mathematical model of an inline run.
pub enum TextRun {
    Common(Seq<char>),
    Code(Seq<char>),
    Link { url: Seq<char>, value: Seq<char> },
    Italic(Seq<char>),
    Strong(Seq<char>),
}

/// Mathematical model of a content block.
pub enum ContentBlock {
    Image(Seq<char>),
    Header(u8, Seq<char>),
    Paragraph(Seq<TextRun>),
    Code { lang: Seq<char>, content: Seq<char> },
    Blockquote(Seq<char>),
    Text(TextRun),
    UnorderedList(Seq<ContentBlock>),
    OrderedList(Seq<ContentBlock>),
    LineBreak,
}

impl View for TypedText {
    type V = TextRun;

    open spec fn view(&self) -> TextRun {
        match self {
            TypedText::Common(t) => TextRun::Common(t@),
            TypedText::Code(t) => TextRun::Code(t@),
            TypedText::Link { url, value } => TextRun::Link { url: url@, value: value@ },
            TypedText::Italic(t) => TextRun::Italic(t@),
            TypedText::Strong(t) => TextRun::Strong(t@),
        }
    }
}

/// The models of a sequence of runs, element by element.
pub open spec fn runs_view(s: Seq<TypedText>) -> Seq<TextRun> {
    s.map_values(|t: TypedText| t@)
}

/// The model of one block.
pub open spec fn content_view(c: ArticleContent) -> ContentBlock
    decreases c, 1int,
{
    match c {
        ArticleContent::Image(u) => ContentBlock::Image(u@),
        ArticleContent::Header(l, t) => ContentBlock::Header(l, t@),
        ArticleContent::Paragraph(rs) => ContentBlock::Paragraph(runs_view(rs@)),
        ArticleContent::Code { lang, content } => ContentBlock::Code { lang: lang@, content: content@ },
        ArticleContent::Blockquote(t) => ContentBlock::Blockquote(t@),
        ArticleContent::Text(r) => ContentBlock::Text(r@),
        ArticleContent::UnorderedList(items) => ContentBlock::UnorderedList(contents_view(items@)),
        ArticleContent::OrderedList(items) => ContentBlock::OrderedList(contents_view(items@)),
        ArticleContent::BR => ContentBlock::LineBreak,
    }
}

/// The models of a sequence of blocks, element by element.
pub open spec fn contents_view(s: Seq<ArticleContent>) -> Seq<ContentBlock>
    decreases s, 0int,
{
    if s.len() == 0 {
        Seq::empty()
    } else {
        contents_view(s.subrange(0, s.len() - 1)).push(content_view(s[s.len() - 1]))
    }
}

impl View for ArticleContent {
    type V = ContentBlock;

    open spec fn view(&self) -> ContentBlock {
        content_view(*self)
    }
}

pub proof fn lemma_contents_view_push(s: Seq<ArticleContent>, c: ArticleContent)
    ensures
        contents_view(s.push(c)) == contents_view(s).push(content_view(c)),
{
    assert(s.push(c).subrange(0, s.len() as int) =~= s);
}

fn copy_text(s: &String) -> (r: String)
    ensures
        r@ == s@,
{
    s.clone()
}

/// A copy of a run.
pub fn copy_run(t: &TypedText) -> (r: TypedText)
    ensures
        r@ == t@,
{
    match t {
        TypedText::Common(x) => TypedText::Common(copy_text(x)),
        TypedText::Code(x) => TypedText::Code(copy_text(x)),
        TypedText::Link { url, value } => TypedText::Link { url: copy_text(url), value: copy_text(value) },
        TypedText::Italic(x) => TypedText::Italic(copy_text(x)),
        TypedText::Strong(x) => TypedText::Strong(copy_text(x)),
    }
}

fn copy_runs(v: &Vec<TypedText>) -> (r: Vec<TypedText>)
    ensures
        runs_view(r@) == runs_view(v@),
{
    let mut out: Vec<TypedText> = Vec::new();
    let mut i: usize = 0;
    while i < v.len()
        invariant
            i <= v.len(),
            runs_view(out@) =~= runs_view(v@.subrange(0, i as int)),
        decreases v.len() - i,
    {
        let t = copy_run(&v[i]);
        let ghost before = out@;
        out.push(t);
        assert(runs_view(out@) =~= runs_view(before).push(t@));
        assert(runs_view(v@.subrange(0, i as int + 1)) =~= runs_view(v@.subrange(0, i as int)).push(
            v@[i as int]@,
        ));
        i = i + 1;
    }
    assert(v@.subrange(0, v.len() as int) =~= v@);
    out
}

/// A copy of a block and everything it holds.
pub fn copy_content(c: &ArticleContent) -> (r: ArticleContent)
    ensures
        content_view(r) == content_view(*c),
    decreases c,
{
    match c {
        ArticleContent::Image(u) => ArticleContent::Image(copy_text(u)),
        ArticleContent::Header(l, t) => ArticleContent::Header(*l, copy_text(t)),
        ArticleContent::Paragraph(rs) => ArticleContent::Paragraph(copy_runs(rs)),
        ArticleContent::Code { lang, content } => ArticleContent::Code {
            lang: copy_text(lang),
            content: copy_text(content),
        },
        ArticleContent::Blockquote(t) => ArticleContent::Blockquote(copy_text(t)),
        ArticleContent::Text(r) => ArticleContent::Text(copy_run(r)),
        ArticleContent::UnorderedList(items) => ArticleContent::UnorderedList(copy_contents(items)),
        ArticleContent::OrderedList(items) => ArticleContent::OrderedList(copy_contents(items)),
        ArticleContent::BR => ArticleContent::BR,
    }
}

/// A copy of a sequence of blocks.
pub fn copy_contents(v: &Vec<ArticleContent>) -> (r: Vec<ArticleContent>)
    ensures
        contents_view(r@) == contents_view(v@),
    decreases v,
{
    let mut out: Vec<ArticleContent> = Vec::new();
    let mut i: usize = 0;
    while i < v.len()
        invariant
            i <= v.len(),
            contents_view(out@) == contents_view(v@.subrange(0, i as int)),
        decreases v.len() - i,
    {
        let c = copy_content(&v[i]);
        proof {
            lemma_contents_view_push(out@, c);
            let sub = v@.subrange(0, i as int + 1);
            assert(sub.subrange(0, i as int) =~= v@.subrange(0, i as int));
        }
        out.push(c);
        i = i + 1;
    }
    assert(v@.subrange(0, v.len() as int) =~= v@);
    out
}

impl Clone for ArticleContent {
    fn clone(&self) -> (r: Self)
        ensures
            content_view(r) == content_view(*self),
    {
        copy_content(self)
    }
}

} // verus!
