use vstd::prelude::*;
use crate::document::{lemma_contents_view_push, ArticleContent, ContentBlock, TextRun, TypedText, contents_view, content_view, runs_view};
use crate::html_tree::{EdgeModel, HtmlNode, TreeEdge, edges_view, tree_from_edges, tree_of_edges, KindModel, NodeKind, NodeModel, attrs_view, lemma_nodes_view_index, node_view, nodes_view};
use crate::provider::{fragment_walk, parse_fragment_walk};
use crate::text::{is_named, join_spaced, join_with_spaces, strings_view, trim, trim_first, trim_first_spec, trim_spec};

verus! {

/// The value of the first attribute named `key`.
pub open spec fn attr_lookup(attrs: Seq<(Seq<char>, Seq<char>)>, key: Seq<char>) -> Option<
    Seq<char>,
>
    decreases attrs.len(),
{
    if attrs.len() == 0 {
        None
    } else if attrs[0].0 == key {
        Some(attrs[0].1)
    } else {
        attr_lookup(attrs.drop_first(), key)
    }
}

/// The value of the attribute named `key`, or the empty string.
pub open spec fn attr_or_empty(attrs: Seq<(Seq<char>, Seq<char>)>, key: Seq<char>) -> Seq<char> {
    match attr_lookup(attrs, key) {
        Some(v) => v,
        None => Seq::empty(),
    }
}

/// Looks up the attribute named `key`.
pub fn get_attr(attrs: &Vec<(String, String)>, key: &str) -> (r: Option<String>)
    ensures
        match r {
            Some(v) => attr_lookup(attrs_view(attrs@), key@) == Some(v@),
            None => attr_lookup(attrs_view(attrs@), key@) is None,
        },
{
    let ghost all = attrs_view(attrs@);
    assert(all.subrange(0, all.len() as int) =~= all);
    let mut i: usize = 0;
    while i < attrs.len()
        invariant
            i <= attrs.len(),
            all == attrs_view(attrs@),
            attr_lookup(all, key@) == attr_lookup(all.subrange(i as int, all.len() as int), key@),
        decreases attrs.len() - i,
    {
        let ghost rest = all.subrange(i as int, all.len() as int);
        assert(rest[0] == (attrs@[i as int].0@, attrs@[i as int].1@));
        if is_named(&attrs[i].0, key) {
            return Some(attrs[i].1.clone());
        }
        assert(rest.drop_first() =~= all.subrange(i + 1, all.len() as int));
        i = i + 1;
    }
    None
}

fn get_attr_or_empty(attrs: &Vec<(String, String)>, key: &str) -> (r: String)
    ensures
        r@ == attr_or_empty(attrs_view(attrs@), key@),
{
    match get_attr(attrs, key) {
        Some(v) => v,
        None => String::new(),
    }
}

/// The trimmed texts of the text nodes of a subtree, in document order.
pub open spec fn node_texts(n: NodeModel) -> Seq<Seq<char>>
    decreases n, 1int,
{
    (match n.kind {
        KindModel::Text(t) => seq![trim_spec(t)],
        _ => Seq::empty(),
    }) + nodes_texts(n.children)
}

/// The trimmed texts of the text nodes of a sequence of subtrees.
pub open spec fn nodes_texts(s: Seq<NodeModel>) -> Seq<Seq<char>>
    decreases s, 0int,
{
    if s.len() == 0 {
        Seq::empty()
    } else {
        nodes_texts(s.subrange(0, s.len() - 1)) + node_texts(s[s.len() - 1])
    }
}

/// The text of a subtree as headers and quotes show it: every text node
/// trimmed, joined by single spaces.
pub open spec fn element_text(n: NodeModel) -> Seq<char> {
    join_spaced(node_texts(n))
}

proof fn lemma_strings_view_push(s: Seq<String>, t: String)
    ensures
        strings_view(s.push(t)) == strings_view(s).push(t@),
{
    assert(strings_view(s.push(t)) =~= strings_view(s).push(t@));
}

fn collect_texts(n: &HtmlNode, out: &mut Vec<String>)
    ensures
        strings_view(final(out)@) == strings_view(old(out)@) + node_texts(n@),
    decreases n,
{
    let ghost base = strings_view(out@);
    match &n.kind {
        NodeKind::Text(t) => {
            let s = trim(t.as_str());
            proof {
                lemma_strings_view_push(out@, s);
            }
            out.push(s);
        },
        _ => {},
    }
    let ghost own = strings_view(out@);
    assert(own == base + match n@.kind {
        KindModel::Text(t) => seq![trim_spec(t)],
        _ => Seq::<Seq<char>>::empty(),
    }) by {
        match n@.kind {
            KindModel::Text(t) => {},
            _ => {
                assert(base + Seq::<Seq<char>>::empty() =~= base);
            },
        }
    }
    proof {
        lemma_nodes_view_index(n.children@);
    }
    let mut i: usize = 0;
    while i < n.children.len()
        invariant
            i <= n.children.len(),
            n@.children == nodes_view(n.children@),
            n@.children.len() == n.children.len(),
            forall|j: int|
                0 <= j < n.children.len() ==> #[trigger] n@.children[j] == node_view(
                    n.children@[j],
                ),
            strings_view(out@) == own + nodes_texts(n@.children.subrange(0, i as int)),
        decreases n.children.len() - i,
    {
        let ghost before = strings_view(out@);
        collect_texts(&n.children[i], out);
        proof {
            let cs = n@.children.subrange(0, i as int + 1);
            assert(cs.subrange(0, i as int) =~= n@.children.subrange(0, i as int));
            assert(cs[i as int] == n@.children[i as int]);
        }
        i = i + 1;
    }
    assert(n@.children.subrange(0, n.children.len() as int) =~= n@.children);
    assert(strings_view(out@) =~= base + node_texts(n@));
}

/// The text of a subtree: every text node trimmed, joined by single spaces.
pub fn get_element_text(element: &HtmlNode) -> (r: String)
    ensures
        r@ == element_text(element@),
{
    let mut pieces: Vec<String> = Vec::new();
    collect_texts(element, &mut pieces);
    assert(strings_view(pieces@) =~= node_texts(element@));
    join_with_spaces(&pieces)
}

/// The run that the child at position `i` of a text container yields, if any.
pub open spec fn inline_run(c: NodeModel, i: int) -> Option<TextRun> {
    match c.kind {
        KindModel::Text(t) => Some(TextRun::Common(trim_first_spec(i, t))),
        KindModel::Element { name, attrs, .. } => {
            if name == "a"@ {
                match attr_lookup(attrs, "href"@) {
                    Some(url) => Some(
                        TextRun::Link {
                            url,
                            value: if c.children.len() > 0 && c.children[0].kind is Text {
                                trim_first_spec(i, c.children[0].kind->Text_0)
                            } else {
                                url
                            },
                        },
                    ),
                    None => None,
                }
            } else if c.children.len() == 0 {
                None
            } else {
                match c.children[0].kind {
                    KindModel::Text(t) => {
                        let text = trim_first_spec(i, t);
                        if name == "code"@ {
                            Some(TextRun::Code(text))
                        } else if name == "i"@ || name == "em"@ {
                            Some(TextRun::Italic(text))
                        } else if name == "strong"@ {
                            Some(TextRun::Strong(text))
                        } else {
                            None
                        }
                    },
                    _ => None,
                }
            }
        },
        KindModel::Other => None,
    }
}

/// The runs of a text container's children, in order, skipping the children
/// that yield none.
pub open spec fn inline_runs(cs: Seq<NodeModel>) -> Seq<TextRun>
    decreases cs.len(),
{
    if cs.len() == 0 {
        Seq::empty()
    } else {
        let prev = inline_runs(cs.subrange(0, cs.len() - 1));
        match inline_run(cs[cs.len() - 1], cs.len() - 1) {
            Some(r) => prev.push(r),
            None => prev,
        }
    }
}

fn inline_run_of(c: &HtmlNode, index: usize) -> (r: Option<TypedText>)
    ensures
        match (r, inline_run(c@, index as int)) {
            (Some(t), Some(m)) => t@ == m,
            (None, None) => true,
            _ => false,
        },
{
    proof {
        lemma_nodes_view_index(c.children@);
    }
    match &c.kind {
        NodeKind::Text(t) => Some(TypedText::Common(trim_first(index, t.as_str()))),
        NodeKind::Element { name, attrs, .. } => {
            if is_named(name, "a") {
                match get_attr(attrs, "href") {
                    Some(url) => {
                        let value = if c.children.len() > 0 {
                            match &c.children[0].kind {
                                NodeKind::Text(t) => trim_first(index, t.as_str()),
                                _ => url.clone(),
                            }
                        } else {
                            url.clone()
                        };
                        Some(TypedText::Link { url, value })
                    },
                    None => None,
                }
            } else if c.children.len() == 0 {
                None
            } else {
                match &c.children[0].kind {
                    NodeKind::Text(t) => {
                        let text = trim_first(index, t.as_str());
                        if is_named(name, "code") {
                            Some(TypedText::Code(text))
                        } else if is_named(name, "i") || is_named(name, "em") {
                            Some(TypedText::Italic(text))
                        } else if is_named(name, "strong") {
                            Some(TypedText::Strong(text))
                        } else {
                            None
                        }
                    },
                    _ => None,
                }
            }
        },
        NodeKind::Other => None,
    }
}

proof fn lemma_runs_view_push(s: Seq<TypedText>, t: TypedText)
    ensures
        runs_view(s.push(t)) == runs_view(s).push(t@),
{
    assert(runs_view(s.push(t)) =~= runs_view(s).push(t@));
}

/// The inline runs of a text container (a paragraph, or the first element of
/// a list item): one per child that yields one, in document order.
pub fn extract_paragraph_content(element: &HtmlNode) -> (r: Vec<TypedText>)
    ensures
        runs_view(r@) == inline_runs(element@.children),
{
    proof {
        lemma_nodes_view_index(element.children@);
    }
    let ghost cs = element@.children;
    let mut out: Vec<TypedText> = Vec::new();
    let mut i: usize = 0;
    while i < element.children.len()
        invariant
            i <= element.children.len(),
            cs == element@.children,
            cs.len() == element.children.len(),
            forall|j: int|
                0 <= j < element.children.len() ==> #[trigger] cs[j] == node_view(
                    element.children@[j],
                ),
            runs_view(out@) == inline_runs(cs.subrange(0, i as int)),
        decreases element.children.len() - i,
    {
        proof {
            let sub = cs.subrange(0, i as int + 1);
            assert(sub.subrange(0, i as int) =~= cs.subrange(0, i as int));
            assert(sub[i as int] == cs[i as int]);
        }
        match inline_run_of(&element.children[i], i) {
            Some(t) => {
                proof {
                    lemma_runs_view_push(out@, t);
                }
                out.push(t);
            },
            None => {},
        }
        i = i + 1;
    }
    assert(cs.subrange(0, cs.len() as int) =~= cs);
    out
}

/// The block that a child of a list yields: from the item's first child only.
pub open spec fn list_item(c: NodeModel) -> Option<ContentBlock> {
    if c.kind is Element && c.children.len() > 0 {
        match c.children[0].kind {
            KindModel::Text(t) => Some(ContentBlock::Text(TextRun::Common(trim_spec(t)))),
            KindModel::Element { .. } => Some(
                ContentBlock::Paragraph(inline_runs(c.children[0].children)),
            ),
            KindModel::Other => None,
        }
    } else {
        None
    }
}

/// The blocks of a list's children, in order, skipping those that yield none.
pub open spec fn list_items(cs: Seq<NodeModel>) -> Seq<ContentBlock>
    decreases cs.len(),
{
    if cs.len() == 0 {
        Seq::empty()
    } else {
        let prev = list_items(cs.subrange(0, cs.len() - 1));
        match list_item(cs[cs.len() - 1]) {
            Some(b) => prev.push(b),
            None => prev,
        }
    }
}

fn list_item_of(c: &HtmlNode) -> (r: Option<ArticleContent>)
    ensures
        match (r, list_item(c@)) {
            (Some(b), Some(m)) => content_view(b) == m,
            (None, None) => true,
            _ => false,
        },
{
    proof {
        lemma_nodes_view_index(c.children@);
    }
    match &c.kind {
        NodeKind::Element { .. } => {
            if c.children.len() == 0 {
                return None;
            }
            let first = &c.children[0];
            match &first.kind {
                NodeKind::Text(t) => Some(ArticleContent::Text(TypedText::Common(trim(t.as_str())))),
                NodeKind::Element { .. } => Some(
                    ArticleContent::Paragraph(extract_paragraph_content(first)),
                ),
                NodeKind::Other => None,
            }
        },
        _ => None,
    }
}

/// The items of a `ul` or `ol` element: one block per element child that
/// yields one, in order.
pub fn get_list_items(element: &HtmlNode) -> (r: Vec<ArticleContent>)
    ensures
        contents_view(r@) == list_items(element@.children),
{
    proof {
        lemma_nodes_view_index(element.children@);
    }
    let ghost cs = element@.children;
    let mut out: Vec<ArticleContent> = Vec::new();
    let mut i: usize = 0;
    while i < element.children.len()
        invariant
            i <= element.children.len(),
            cs == element@.children,
            cs.len() == element.children.len(),
            forall|j: int|
                0 <= j < element.children.len() ==> #[trigger] cs[j] == node_view(
                    element.children@[j],
                ),
            contents_view(out@) == list_items(cs.subrange(0, i as int)),
        decreases element.children.len() - i,
    {
        proof {
            let sub = cs.subrange(0, i as int + 1);
            assert(sub.subrange(0, i as int) =~= cs.subrange(0, i as int));
            assert(sub[i as int] == cs[i as int]);
        }
        match list_item_of(&element.children[i]) {
            Some(b) => {
                proof {
                    lemma_contents_view_push(out@, b);
                }
                out.push(b);
            },
            None => {},
        }
        i = i + 1;
    }
    assert(cs.subrange(0, cs.len() as int) =~= cs);
    out
}

/// The code block of a `pre` or `code` element with the given content.
pub open spec fn code_block(attrs: Seq<(Seq<char>, Seq<char>)>, content: Seq<char>) -> ContentBlock {
    ContentBlock::Code { lang: attr_or_empty(attrs, "class"@), content }
}

/// The blocks that an element yields, by its tag name; any other node and any
/// unsupported tag yield none.
pub open spec fn classify(n: NodeModel) -> Seq<ContentBlock>
    decreases n, 1int,
{
    match n.kind {
        KindModel::Element { name, attrs, .. } => {
            if name == "img"@ {
                match attr_lookup(attrs, "src"@) {
                    Some(u) => seq![ContentBlock::Image(u)],
                    None => Seq::empty(),
                }
            } else if name == "figure"@ {
                if n.children.len() > 0 && n.children[0].kind is Element {
                    classify(n.children[0])
                } else {
                    Seq::empty()
                }
            } else if name == "p"@ {
                seq![ContentBlock::Paragraph(inline_runs(n.children))]
            } else if name == "h2"@ {
                seq![ContentBlock::Header(2, element_text(n))]
            } else if name == "h3"@ {
                seq![ContentBlock::Header(3, element_text(n))]
            } else if name == "h4"@ {
                seq![ContentBlock::Header(4, element_text(n))]
            } else if name == "pre"@ {
                if n.children.len() > 0 {
                    match n.children[0].kind {
                        KindModel::Text(t) => seq![code_block(attrs, t)],
                        KindModel::Element { .. } => classify(n.children[0]),
                        KindModel::Other => seq![code_block(attrs, element_text(n))],
                    }
                } else {
                    seq![code_block(attrs, element_text(n))]
                }
            } else if name == "code"@ {
                seq![code_block(attrs, element_text(n))]
            } else if name == "blockquote"@ {
                seq![ContentBlock::Blockquote(element_text(n))]
            } else if name == "ul"@ {
                seq![ContentBlock::UnorderedList(list_items(n.children))]
            } else if name == "ol"@ {
                seq![ContentBlock::OrderedList(list_items(n.children))]
            } else if name == "a"@ {
                let url = attr_or_empty(attrs, "href"@);
                let text = element_text(n);
                seq![
                    ContentBlock::Paragraph(
                        seq![TextRun::Link { url, value: if text.len() > 0 { text } else { url } }],
                    ),
                ]
            } else if name == "i"@ {
                seq![ContentBlock::Paragraph(seq![TextRun::Italic(element_text(n))])]
            } else if name == "div"@ {
                div_blocks(n.children)
            } else if name == "br"@ {
                seq![ContentBlock::LineBreak]
            } else {
                Seq::empty()
            }
        },
        _ => Seq::empty(),
    }
}

/// The blocks of a `div`'s children, in order: elements are classified, text
/// that is not blank becomes a bare run, anything else yields nothing.
pub open spec fn div_blocks(cs: Seq<NodeModel>) -> Seq<ContentBlock>
    decreases cs, 0int,
{
    if cs.len() == 0 {
        Seq::empty()
    } else {
        let c = cs[cs.len() - 1];
        div_blocks(cs.subrange(0, cs.len() - 1)) + match c.kind {
            KindModel::Element { .. } => classify(c),
            KindModel::Text(t) => if trim_spec(t).len() == 0 {
                Seq::empty()
            } else {
                seq![ContentBlock::Text(TextRun::Common(trim_spec(t)))]
            },
            KindModel::Other => Seq::empty(),
        }
    }
}

pub proof fn lemma_contents_view_append(a: Seq<ArticleContent>, b: Seq<ArticleContent>)
    ensures
        contents_view(a + b) == contents_view(a) + contents_view(b),
    decreases b.len(),
{
    if b.len() == 0 {
        assert(a + b =~= a);
        assert(contents_view(a) + contents_view(b) =~= contents_view(a));
    } else {
        let b2 = b.subrange(0, b.len() - 1);
        lemma_contents_view_append(a, b2);
        assert((a + b).subrange(0, (a + b).len() - 1) =~= a + b2);
        assert(contents_view(a) + contents_view(b) =~= contents_view(a) + contents_view(b2).push(
            content_view(b[b.len() - 1]),
        ));
    }
}

fn one_block(b: ArticleContent) -> (r: Vec<ArticleContent>)
    ensures
        contents_view(r@) == seq![content_view(b)],
{
    let mut v: Vec<ArticleContent> = Vec::new();
    proof {
        lemma_contents_view_push(v@, b);
    }
    v.push(b);
    assert(contents_view(Seq::<ArticleContent>::empty()) =~= Seq::<ContentBlock>::empty());
    assert(seq![content_view(b)] =~= Seq::<ContentBlock>::empty().push(content_view(b)));
    v
}

fn code_of(attrs: &Vec<(String, String)>, content: String) -> (r: ArticleContent)
    ensures
        content_view(r) == code_block(attrs_view(attrs@), content@),
{
    ArticleContent::Code { lang: get_attr_or_empty(attrs, "class"), content }
}

/// Maps an element to the blocks it stands for, dispatching on its tag name.
/// Unsupported tags, and nodes that are not elements, yield no block.
pub fn parse_recursively(element: &HtmlNode) -> (r: Vec<ArticleContent>)
    ensures
        contents_view(r@) == classify(element@),
    decreases element,
{
    proof {
        lemma_nodes_view_index(element.children@);
    }
    let (name, attrs) = match &element.kind {
        NodeKind::Element { name, attrs, .. } => (name, attrs),
        _ => {
            return Vec::new();
        },
    };
    if is_named(name, "img") {
        match get_attr(attrs, "src") {
            Some(u) => one_block(ArticleContent::Image(u)),
            None => Vec::new(),
        }
    } else if is_named(name, "figure") {
        if element.children.len() > 0 && matches!(element.children[0].kind, NodeKind::Element { .. }) {
            parse_recursively(&element.children[0])
        } else {
            Vec::new()
        }
    } else if is_named(name, "p") {
        one_block(ArticleContent::Paragraph(extract_paragraph_content(element)))
    } else if is_named(name, "h2") {
        one_block(ArticleContent::Header(2, get_element_text(element)))
    } else if is_named(name, "h3") {
        one_block(ArticleContent::Header(3, get_element_text(element)))
    } else if is_named(name, "h4") {
        one_block(ArticleContent::Header(4, get_element_text(element)))
    } else if is_named(name, "pre") {
        if element.children.len() > 0 {
            match &element.children[0].kind {
                NodeKind::Text(t) => one_block(code_of(attrs, t.clone())),
                NodeKind::Element { .. } => parse_recursively(&element.children[0]),
                NodeKind::Other => one_block(code_of(attrs, get_element_text(element))),
            }
        } else {
            one_block(code_of(attrs, get_element_text(element)))
        }
    } else if is_named(name, "code") {
        one_block(code_of(attrs, get_element_text(element)))
    } else if is_named(name, "blockquote") {
        one_block(ArticleContent::Blockquote(get_element_text(element)))
    } else if is_named(name, "ul") {
        one_block(ArticleContent::UnorderedList(get_list_items(element)))
    } else if is_named(name, "ol") {
        one_block(ArticleContent::OrderedList(get_list_items(element)))
    } else if is_named(name, "a") {
        let url = get_attr_or_empty(attrs, "href");
        let link_text = get_element_text(element);
        let value = if !link_text.as_str().is_empty() {
            link_text
        } else {
            url.clone()
        };
        let mut runs: Vec<TypedText> = Vec::new();
        runs.push(TypedText::Link { url, value });
        assert(runs_view(runs@) =~= seq![runs@[0]@]);
        one_block(ArticleContent::Paragraph(runs))
    } else if is_named(name, "i") {
        let mut runs: Vec<TypedText> = Vec::new();
        runs.push(TypedText::Italic(get_element_text(element)));
        assert(runs_view(runs@) =~= seq![runs@[0]@]);
        one_block(ArticleContent::Paragraph(runs))
    } else if is_named(name, "div") {
        div_content(element)
    } else if is_named(name, "br") {
        one_block(ArticleContent::BR)
    } else {
        Vec::new()
    }
}

/// The blocks of a `div`: its element children classified in turn, and its
/// non-blank text children as bare runs.
fn div_content(element: &HtmlNode) -> (r: Vec<ArticleContent>)
    ensures
        contents_view(r@) == div_blocks(element@.children),
    decreases element, 0int,
{
    proof {
        lemma_nodes_view_index(element.children@);
    }
    let ghost cs = element@.children;
    let mut out: Vec<ArticleContent> = Vec::new();
    let mut i: usize = 0;
    while i < element.children.len()
        invariant
            i <= element.children.len(),
            cs == element@.children,
            cs.len() == element.children.len(),
            forall|j: int|
                0 <= j < element.children.len() ==> #[trigger] cs[j] == node_view(
                    element.children@[j],
                ),
            contents_view(out@) == div_blocks(cs.subrange(0, i as int)),
        decreases element.children.len() - i,
    {
        proof {
            let sub = cs.subrange(0, i as int + 1);
            assert(sub.subrange(0, i as int) =~= cs.subrange(0, i as int));
            assert(sub[i as int] == cs[i as int]);
        }
        let child = &element.children[i];
        let mut part: Vec<ArticleContent> = match &child.kind {
            NodeKind::Element { .. } => parse_recursively(child),
            NodeKind::Text(t) => {
                let text = trim(t.as_str());
                if text.as_str().is_empty() {
                    Vec::new()
                } else {
                    one_block(ArticleContent::Text(TypedText::Common(text)))
                }
            },
            NodeKind::Other => Vec::new(),
        };
        proof {
            lemma_contents_view_append(out@, part@);
        }
        out.append(&mut part);
        i = i + 1;
    }
    assert(cs.subrange(0, cs.len() as int) =~= cs);
    out
}

/// The blocks of a parsed fragment: those of the root's only child when the
/// root has exactly one child and it is an element, none otherwise.
pub open spec fn fragment_blocks(root: NodeModel) -> Seq<ContentBlock> {
    if root.children.len() == 1 && root.children[0].kind is Element {
        classify(root.children[0])
    } else {
        Seq::empty()
    }
}

/// The blocks of the fragment that a walk describes; none where the walk does
/// not describe one tree.
pub open spec fn walk_blocks(walk: Seq<EdgeModel>) -> Seq<ContentBlock> {
    match tree_of_edges(walk) {
        Some(root) => fragment_blocks(root),
        None => Seq::empty(),
    }
}

/// The text of the fragment that a walk describes, as `element_text` gives it
/// for the root; empty where the walk does not describe one tree.
pub open spec fn walk_text(walk: Seq<EdgeModel>) -> Seq<char> {
    match tree_of_edges(walk) {
        Some(root) => element_text(root),
        None => Seq::empty(),
    }
}

/// The blocks of a parsed fragment, given its root.
pub fn fragment_content(root: &HtmlNode) -> (r: Vec<ArticleContent>)
    ensures
        contents_view(r@) == fragment_blocks(root@),
{
    proof {
        lemma_nodes_view_index(root.children@);
    }
    if root.children.len() == 1 && matches!(root.children[0].kind, NodeKind::Element { .. }) {
        parse_recursively(&root.children[0])
    } else {
        Vec::new()
    }
}

/// The blocks of the fragment that a walk over its parsed tree describes.
pub fn content_from_walk(walk: &Vec<TreeEdge>) -> (r: Vec<ArticleContent>)
    ensures
        contents_view(r@) == walk_blocks(edges_view(walk@)),
{
    match tree_from_edges(walk) {
        Some(root) => fragment_content(&root),
        None => Vec::new(),
    }
}

/// The text of the fragment that a walk over its parsed tree describes.
pub fn text_from_walk(walk: &Vec<TreeEdge>) -> (r: String)
    ensures
        r@ == walk_text(edges_view(walk@)),
{
    match tree_from_edges(walk) {
        Some(root) => get_element_text(&root),
        None => String::new(),
    }
}

/// Turns an article body, an HTML fragment, into its ordered content blocks.
pub fn extract_content_from_html(text: String) -> (r: Vec<ArticleContent>)
    ensures
        contents_view(r@) == walk_blocks(fragment_walk(text@)),
{
    let walk = parse_fragment_walk(text.as_str());
    content_from_walk(&walk)
}

/// The plain text of an HTML fragment: its text nodes trimmed and joined by
/// single spaces.
pub fn extract_text_from_html(input: &str) -> (r: String)
    ensures
        r@ == walk_text(fragment_walk(input@)),
{
    let walk = parse_fragment_walk(input);
    text_from_walk(&walk)
}

/// The transform is a function of its input alone: the same fragment text
/// always yields the same blocks.
pub proof fn lemma_transform_is_deterministic(first: Seq<char>, second: Seq<char>)
    requires
        first == second,
    ensures
        walk_blocks(fragment_walk(first)) == walk_blocks(fragment_walk(second)),
{
}

/// Whether the classifier has an entry for a tag name.
pub open spec fn is_supported_tag(name: Seq<char>) -> bool {
    name == "img"@ || name == "figure"@ || name == "p"@ || name == "h2"@ || name == "h3"@ || name
        == "h4"@ || name == "pre"@ || name == "code"@ || name == "blockquote"@ || name == "ul"@
        || name == "ol"@ || name == "a"@ || name == "i"@ || name == "div"@ || name == "br"@
}

/// An element whose tag has no entry in the classifier yields no block.
pub proof fn lemma_unsupported_tag_yields_nothing(n: NodeModel)
    requires
        n.kind is Element,
        !is_supported_tag(n.kind->Element_name),
    ensures
        classify(n) == Seq::<ContentBlock>::empty(),
{
}

/// A `div`'s blocks are those of its first children followed by those of the
/// rest.
pub proof fn lemma_div_blocks_append(a: Seq<NodeModel>, b: Seq<NodeModel>)
    ensures
        div_blocks(a + b) == div_blocks(a) + div_blocks(b),
    decreases b.len(),
{
    if b.len() == 0 {
        assert(a + b =~= a);
        assert(div_blocks(a) + div_blocks(b) =~= div_blocks(a));
    } else {
        let b2 = b.subrange(0, b.len() - 1);
        lemma_div_blocks_append(a, b2);
        assert((a + b).subrange(0, (a + b).len() - 1) =~= a + b2);
        assert((a + b)[(a + b).len() - 1] == b[b.len() - 1]);
        assert(div_blocks(b2) + div_blocks(b).subrange(div_blocks(b2).len() as int, div_blocks(b).len() as int) =~= div_blocks(b));
        assert(div_blocks(a + b) =~= div_blocks(a) + div_blocks(b));
    }
}

/// An unsupported element among a `div`'s children yields nothing, and its
/// siblings yield the blocks they would yield without it.
pub proof fn lemma_div_skips_unsupported(
    before: Seq<NodeModel>,
    unsupported: NodeModel,
    after: Seq<NodeModel>,
)
    requires
        unsupported.kind is Element,
        !is_supported_tag(unsupported.kind->Element_name),
    ensures
        div_blocks(before + seq![unsupported] + after) == div_blocks(before + after),
{
    lemma_div_blocks_append(before + seq![unsupported], after);
    lemma_div_blocks_append(before, seq![unsupported]);
    lemma_div_blocks_append(before, after);
    let one = seq![unsupported];
    assert(one.subrange(0, 0) =~= Seq::<NodeModel>::empty());
    lemma_unsupported_tag_yields_nothing(unsupported);
    assert(div_blocks(one) == div_blocks(one.subrange(0, 0)) + classify(unsupported));
    assert(div_blocks(one) =~= Seq::<ContentBlock>::empty());
    assert(div_blocks(before) + div_blocks(one) =~= div_blocks(before));
}

/// A list's items are bare text runs or paragraphs, never nested lists.
pub proof fn lemma_list_items_are_flat(cs: Seq<NodeModel>)
    ensures
        forall|i: int|
            0 <= i < list_items(cs).len() ==> (#[trigger] list_items(cs)[i] is Text
                || list_items(cs)[i] is Paragraph),
    decreases cs.len(),
{
    if cs.len() > 0 {
        lemma_list_items_are_flat(cs.subrange(0, cs.len() - 1));
    }
}

fn is_supported_name(name: &String) -> (r: bool)
    ensures
        r == is_supported_tag(name@),
{
    is_named(name, "img") || is_named(name, "figure") || is_named(name, "p") || is_named(name, "h2")
        || is_named(name, "h3") || is_named(name, "h4") || is_named(name, "pre") || is_named(
        name,
        "code",
    ) || is_named(name, "blockquote") || is_named(name, "ul") || is_named(name, "ol") || is_named(
        name,
        "a",
    ) || is_named(name, "i") || is_named(name, "div") || is_named(name, "br")
}

/// Something the transform skipped, reported so that the skip can be seen.
#[derive(Debug, Clone)]
pub enum Diagnostic {
    /// An element whose tag the classifier has no entry for, skipped with
    /// its whole subtree: its tag name, its `class` attribute and the subtree
    /// written out as HTML.
    UnsupportedTag { name: String, class: Option<String>, html: String },
    /// An element inside a paragraph or list item that starts with text but
    /// whose tag stands for no kind of run.
    UnknownInlineTag(String),
}

/// Model of a diagnostic.
pub enum DiagnosticModel {
    UnsupportedTag { name: Seq<char>, class: Option<Seq<char>>, html: Seq<char> },
    UnknownInlineTag(Seq<char>),
}

impl View for Diagnostic {
    type V = DiagnosticModel;

    open spec fn view(&self) -> DiagnosticModel {
        match self {
            Diagnostic::UnsupportedTag { name, class, html } => DiagnosticModel::UnsupportedTag {
                name: name@,
                class: match class {
                    Some(c) => Some(c@),
                    None => None,
                },
                html: html@,
            },
            Diagnostic::UnknownInlineTag(name) => DiagnosticModel::UnknownInlineTag(name@),
        }
    }
}

/// The models of a sequence of diagnostics.
pub open spec fn diagnostics_view(s: Seq<Diagnostic>) -> Seq<DiagnosticModel> {
    s.map_values(|d: Diagnostic| d@)
}

proof fn lemma_diagnostics_view_push(s: Seq<Diagnostic>, d: Diagnostic)
    ensures
        diagnostics_view(s.push(d)) == diagnostics_view(s).push(d@),
{
    assert(diagnostics_view(s.push(d)) =~= diagnostics_view(s).push(d@));
}

/// The warning for a child of a text container whose tag yields no run
/// although it starts with text.
pub open spec fn inline_warning(c: NodeModel) -> Seq<DiagnosticModel> {
    match c.kind {
        KindModel::Element { name, .. } => {
            if name != "a"@ && c.children.len() > 0 && c.children[0].kind is Text && name
                != "code"@ && name != "i"@ && name != "em"@ && name != "strong"@ {
                seq![DiagnosticModel::UnknownInlineTag(name)]
            } else {
                Seq::empty()
            }
        },
        _ => Seq::empty(),
    }
}

/// The warnings for the children of a text container, in order.
pub open spec fn inline_warnings(cs: Seq<NodeModel>) -> Seq<DiagnosticModel>
    decreases cs.len(),
{
    if cs.len() == 0 {
        Seq::empty()
    } else {
        inline_warnings(cs.subrange(0, cs.len() - 1)) + inline_warning(cs[cs.len() - 1])
    }
}

/// The warnings for the children of a list: those of each item whose first
/// child is an element, which is read as a text container.
pub open spec fn list_warnings(cs: Seq<NodeModel>) -> Seq<DiagnosticModel>
    decreases cs.len(),
{
    if cs.len() == 0 {
        Seq::empty()
    } else {
        let c = cs[cs.len() - 1];
        list_warnings(cs.subrange(0, cs.len() - 1)) + if c.kind is Element && c.children.len()
            > 0 && c.children[0].kind is Element {
            inline_warnings(c.children[0].children)
        } else {
            Seq::empty()
        }
    }
}

/// The diagnostics of classifying `n`, in document order: an unsupported
/// element reports itself, and the inline warnings of the paragraphs and
/// lists that are reached.
pub open spec fn classify_diagnostics(n: NodeModel) -> Seq<DiagnosticModel>
    decreases n, 1int,
{
    match n.kind {
        KindModel::Element { name, attrs, html } => {
            if !is_supported_tag(name) {
                seq![
                    DiagnosticModel::UnsupportedTag {
                        name,
                        class: attr_lookup(attrs, "class"@),
                        html,
                    },
                ]
            } else if name == "figure"@ || name == "pre"@ {
                if n.children.len() > 0 && n.children[0].kind is Element {
                    classify_diagnostics(n.children[0])
                } else {
                    Seq::empty()
                }
            } else if name == "div"@ {
                div_diagnostics(n.children)
            } else if name == "p"@ {
                inline_warnings(n.children)
            } else if name == "ul"@ || name == "ol"@ {
                list_warnings(n.children)
            } else {
                Seq::empty()
            }
        },
        _ => Seq::empty(),
    }
}

/// The diagnostics of classifying each of `cs` in turn.
pub open spec fn div_diagnostics(cs: Seq<NodeModel>) -> Seq<DiagnosticModel>
    decreases cs, 0int,
{
    if cs.len() == 0 {
        Seq::empty()
    } else {
        div_diagnostics(cs.subrange(0, cs.len() - 1)) + classify_diagnostics(cs[cs.len() - 1])
    }
}

/// Appends the warnings for the children of a text container.
fn collect_inline_warnings(element: &HtmlNode, out: &mut Vec<Diagnostic>)
    ensures
        diagnostics_view(final(out)@) == diagnostics_view(old(out)@) + inline_warnings(
            element@.children,
        ),
{
    proof {
        lemma_nodes_view_index(element.children@);
    }
    let ghost base = diagnostics_view(out@);
    let ghost cs = element@.children;
    assert(base + inline_warnings(cs.subrange(0, 0)) =~= base);
    let mut i: usize = 0;
    while i < element.children.len()
        invariant
            i <= element.children.len(),
            cs == element@.children,
            cs.len() == element.children.len(),
            forall|j: int|
                0 <= j < element.children.len() ==> #[trigger] cs[j] == node_view(
                    element.children@[j],
                ),
            diagnostics_view(out@) == base + inline_warnings(cs.subrange(0, i as int)),
        decreases element.children.len() - i,
    {
        let c = &element.children[i];
        proof {
            lemma_nodes_view_index(c.children@);
            let sub = cs.subrange(0, i as int + 1);
            assert(sub.subrange(0, i as int) =~= cs.subrange(0, i as int));
            assert(sub[i as int] == cs[i as int]);
        }
        let ghost before = diagnostics_view(out@);
        match &c.kind {
            NodeKind::Element { name, .. } => {
                if !is_named(name, "a") && c.children.len() > 0 && matches!(
                    c.children[0].kind,
                    NodeKind::Text(_),
                ) && !is_named(name, "code") && !is_named(name, "i") && !is_named(name, "em")
                    && !is_named(name, "strong") {
                    let d = Diagnostic::UnknownInlineTag(name.clone());
                    proof {
                        lemma_diagnostics_view_push(out@, d);
                    }
                    out.push(d);
                }
            },
            _ => {},
        }
        assert(diagnostics_view(out@) =~= before + inline_warning(cs[i as int]));
        assert(diagnostics_view(out@) =~= base + inline_warnings(cs.subrange(0, i as int + 1)));
        i = i + 1;
    }
    assert(cs.subrange(0, cs.len() as int) =~= cs);
}

/// Appends the warnings for the items of a list.
fn collect_list_warnings(element: &HtmlNode, out: &mut Vec<Diagnostic>)
    ensures
        diagnostics_view(final(out)@) == diagnostics_view(old(out)@) + list_warnings(
            element@.children,
        ),
{
    proof {
        lemma_nodes_view_index(element.children@);
    }
    let ghost base = diagnostics_view(out@);
    let ghost cs = element@.children;
    assert(base + list_warnings(cs.subrange(0, 0)) =~= base);
    let mut i: usize = 0;
    while i < element.children.len()
        invariant
            i <= element.children.len(),
            cs == element@.children,
            cs.len() == element.children.len(),
            forall|j: int|
                0 <= j < element.children.len() ==> #[trigger] cs[j] == node_view(
                    element.children@[j],
                ),
            diagnostics_view(out@) == base + list_warnings(cs.subrange(0, i as int)),
        decreases element.children.len() - i,
    {
        let c = &element.children[i];
        proof {
            lemma_nodes_view_index(c.children@);
            let sub = cs.subrange(0, i as int + 1);
            assert(sub.subrange(0, i as int) =~= cs.subrange(0, i as int));
            assert(sub[i as int] == cs[i as int]);
        }
        let ghost before = diagnostics_view(out@);
        if matches!(c.kind, NodeKind::Element { .. }) && c.children.len() > 0 && matches!(
            c.children[0].kind,
            NodeKind::Element { .. },
        ) {
            collect_inline_warnings(&c.children[0], out);
        } else {
            assert(before + Seq::<DiagnosticModel>::empty() =~= before);
        }
        assert(diagnostics_view(out@) =~= base + list_warnings(cs.subrange(0, i as int + 1)));
        i = i + 1;
    }
    assert(cs.subrange(0, cs.len() as int) =~= cs);
}

/// Appends the diagnostics of classifying `element`.
pub fn collect_diagnostics(element: &HtmlNode, out: &mut Vec<Diagnostic>)
    ensures
        diagnostics_view(final(out)@) == diagnostics_view(old(out)@) + classify_diagnostics(
            element@,
        ),
    decreases element,
{
    proof {
        lemma_nodes_view_index(element.children@);
    }
    let ghost base = diagnostics_view(out@);
    let (name, attrs, html) = match &element.kind {
        NodeKind::Element { name, attrs, html } => (name, attrs, html),
        _ => {
            assert(base + Seq::<DiagnosticModel>::empty() =~= base);
            return ;
        },
    };
    if !is_supported_name(name) {
        let d = Diagnostic::UnsupportedTag {
            name: name.clone(),
            class: get_attr(attrs, "class"),
            html: html.clone(),
        };
        proof {
            lemma_diagnostics_view_push(out@, d);
        }
        out.push(d);
        assert(diagnostics_view(out@) =~= base + classify_diagnostics(element@));
    } else if is_named(name, "figure") || is_named(name, "pre") {
        if element.children.len() > 0 && matches!(element.children[0].kind, NodeKind::Element { .. }) {
            collect_diagnostics(&element.children[0], out);
        } else {
            assert(base + Seq::<DiagnosticModel>::empty() =~= base);
        }
    } else if is_named(name, "div") {
        let ghost cs = element@.children;
        let mut i: usize = 0;
        assert(base + div_diagnostics(cs.subrange(0, 0)) =~= base);
        while i < element.children.len()
            invariant
                i <= element.children.len(),
                cs == element@.children,
                cs.len() == element.children.len(),
                forall|j: int|
                    0 <= j < element.children.len() ==> #[trigger] cs[j] == node_view(
                        element.children@[j],
                    ),
                diagnostics_view(out@) == base + div_diagnostics(cs.subrange(0, i as int)),
            decreases element.children.len() - i,
        {
            proof {
                let sub = cs.subrange(0, i as int + 1);
                assert(sub.subrange(0, i as int) =~= cs.subrange(0, i as int));
                assert(sub[i as int] == cs[i as int]);
            }
            collect_diagnostics(&element.children[i], out);
            assert(diagnostics_view(out@) =~= base + div_diagnostics(
                cs.subrange(0, i as int + 1),
            ));
            i = i + 1;
        }
        assert(cs.subrange(0, cs.len() as int) =~= cs);
    } else if is_named(name, "p") {
        collect_inline_warnings(element, out);
    } else if is_named(name, "ul") || is_named(name, "ol") {
        collect_list_warnings(element, out);
    } else {
        assert(base + Seq::<DiagnosticModel>::empty() =~= base);
    }
}

/// The diagnostics of classifying a parsed fragment, given its root.
pub open spec fn fragment_diagnostics(root: NodeModel) -> Seq<DiagnosticModel> {
    if root.children.len() == 1 && root.children[0].kind is Element {
        classify_diagnostics(root.children[0])
    } else {
        Seq::empty()
    }
}

/// The diagnostics of classifying the fragment that a walk describes.
pub open spec fn walk_diagnostics(walk: Seq<EdgeModel>) -> Seq<DiagnosticModel> {
    match tree_of_edges(walk) {
        Some(root) => fragment_diagnostics(root),
        None => Seq::empty(),
    }
}

/// The blocks of the fragment that a walk describes, with the diagnostics of
/// what was skipped on the way.
pub fn content_and_diagnostics_from_walk(walk: &Vec<TreeEdge>) -> (r: (
    Vec<ArticleContent>,
    Vec<Diagnostic>,
))
    ensures
        contents_view(r.0@) == walk_blocks(edges_view(walk@)),
        diagnostics_view(r.1@) == walk_diagnostics(edges_view(walk@)),
{
    let mut diagnostics: Vec<Diagnostic> = Vec::new();
    assert(diagnostics_view(diagnostics@) =~= Seq::<DiagnosticModel>::empty());
    match tree_from_edges(walk) {
        Some(root) => {
            proof {
                lemma_nodes_view_index(root.children@);
            }
            if root.children.len() == 1 && matches!(root.children[0].kind, NodeKind::Element { .. }) {
                collect_diagnostics(&root.children[0], &mut diagnostics);
                assert(diagnostics_view(diagnostics@) =~= fragment_diagnostics(root@));
            }
            (fragment_content(&root), diagnostics)
        },
        None => (Vec::new(), diagnostics),
    }
}

/// Turns an article body into its content blocks, and reports what was
/// skipped, in document order.
pub fn extract_content_and_diagnostics(text: String) -> (r: (Vec<ArticleContent>, Vec<Diagnostic>))
    ensures
        contents_view(r.0@) == walk_blocks(fragment_walk(text@)),
        diagnostics_view(r.1@) == walk_diagnostics(fragment_walk(text@)),
{
    let walk = parse_fragment_walk(text.as_str());
    content_and_diagnostics_from_walk(&walk)
}

/// An element whose tag has no entry in the classifier yields no block and
/// exactly one diagnostic: its name, its `class` and its subtree as HTML.
pub proof fn lemma_unsupported_element_is_reported(n: NodeModel)
    requires
        n.kind is Element,
        !is_supported_tag(n.kind->Element_name),
    ensures
        classify_diagnostics(n) == seq![
            DiagnosticModel::UnsupportedTag {
                name: n.kind->Element_name,
                class: attr_lookup(n.kind->Element_attrs, "class"@),
                html: n.kind->Element_html,
            },
        ],
        classify(n) == Seq::<ContentBlock>::empty(),
{
}

/// Every header among the blocks has level 2, 3 or 4.
pub open spec fn header_levels_valid(bs: Seq<ContentBlock>) -> bool {
    forall|i: int|
        0 <= i < bs.len() && (#[trigger] bs[i]) is Header ==> 2 <= bs[i]->Header_0 <= 4
}

/// The classifier only produces headers of level 2, 3 or 4.
pub proof fn lemma_classify_header_levels(n: NodeModel)
    ensures
        header_levels_valid(classify(n)),
    decreases n, 1int,
{
    if n.kind is Element && n.children.len() > 0 && n.children[0].kind is Element {
        lemma_classify_header_levels(n.children[0]);
    }
    lemma_div_header_levels(n.children);
}

/// The blocks of a `div` only hold headers of level 2, 3 or 4.
pub proof fn lemma_div_header_levels(cs: Seq<NodeModel>)
    ensures
        header_levels_valid(div_blocks(cs)),
    decreases cs, 0int,
{
    if cs.len() > 0 {
        let prefix = cs.subrange(0, cs.len() - 1);
        let c = cs[cs.len() - 1];
        lemma_div_header_levels(prefix);
        lemma_classify_header_levels(c);
        let a = div_blocks(prefix);
        let b = match c.kind {
            KindModel::Element { .. } => classify(c),
            KindModel::Text(t) => if trim_spec(t).len() == 0 {
                Seq::empty()
            } else {
                seq![ContentBlock::Text(TextRun::Common(trim_spec(t)))]
            },
            KindModel::Other => Seq::empty(),
        };
        assert(div_blocks(cs) == a + b);
        assert forall|i: int|
            0 <= i < (a + b).len() && (#[trigger] (a + b)[i]) is Header implies 2 <= (a
                + b)[i]->Header_0 <= 4 by {
            if i < a.len() {
                assert((a + b)[i] == a[i]);
            } else {
                assert((a + b)[i] == b[i - a.len()]);
            }
        }
    }
}

/// The link that an anchor classified on its own stands for.
pub open spec fn top_level_link(n: NodeModel) -> TextRun {
    let url = attr_or_empty(n.kind->Element_attrs, "href"@);
    let text = element_text(n);
    TextRun::Link { url, value: if text.len() > 0 { text } else { url } }
}

/// A top-level anchor with a non-empty `href` becomes one paragraph holding
/// one link whose value is never empty: its text, or the address where it has
/// none.
pub proof fn lemma_anchor_link_value_not_empty(n: NodeModel)
    requires
        n.kind is Element,
        n.kind->Element_name == "a"@,
        attr_or_empty(n.kind->Element_attrs, "href"@).len() > 0,
    ensures
        classify(n) == seq![ContentBlock::Paragraph(seq![top_level_link(n)])],
        top_level_link(n)->Link_value.len() > 0,
{
    reveal_strlit("a");
    reveal_strlit("img");
    reveal_strlit("figure");
    reveal_strlit("p");
    reveal_strlit("h2");
    reveal_strlit("h3");
    reveal_strlit("h4");
    reveal_strlit("pre");
    reveal_strlit("code");
    reveal_strlit("blockquote");
    reveal_strlit("ul");
    reveal_strlit("ol");
    assert("a"@ =~= seq!['a']);
    assert("img"@ =~= seq!['i', 'm', 'g']);
    assert("figure"@ =~= seq!['f', 'i', 'g', 'u', 'r', 'e']);
    assert("p"@ =~= seq!['p']);
    assert("h2"@ =~= seq!['h', '2']);
    assert("h3"@ =~= seq!['h', '3']);
    assert("h4"@ =~= seq!['h', '4']);
    assert("pre"@ =~= seq!['p', 'r', 'e']);
    assert("code"@ =~= seq!['c', 'o', 'd', 'e']);
    assert("blockquote"@ =~= seq!['b', 'l', 'o', 'c', 'k', 'q', 'u', 'o', 't', 'e']);
    assert("ul"@ =~= seq!['u', 'l']);
    assert("ol"@ =~= seq!['o', 'l']);
    assert(n.kind->Element_name[0] == 'a' && "p"@[0] == 'p');
}

/// Inside a text container, an anchor with an `href` always yields a link;
/// with no text as its first child, the link's value is its address.
pub proof fn lemma_inline_anchor_falls_back_to_url(c: NodeModel, i: int)
    requires
        c.kind is Element,
        c.kind->Element_name == "a"@,
        attr_lookup(c.kind->Element_attrs, "href"@) is Some,
        !(c.children.len() > 0 && c.children[0].kind is Text),
    ensures
        inline_run(c, i) == Some(
            TextRun::Link {
                url: attr_lookup(c.kind->Element_attrs, "href"@)->0,
                value: attr_lookup(c.kind->Element_attrs, "href"@)->0,
            },
        ),
{
}

} // verus!
