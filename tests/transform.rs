use habre::document::{ArticleContent, TypedText};
use habre::html_parse::{
    Diagnostic, extract_content_and_diagnostics, extract_content_from_html, extract_text_from_html,
};
use habre::text::{trim, trim_first};

fn blocks(html: &str) -> String {
    format!("{:?}", extract_content_from_html(html.to_string()))
}

fn expected(v: Vec<ArticleContent>) -> String {
    format!("{:?}", v)
}

fn s(x: &str) -> String {
    x.to_string()
}

#[test]
fn transform_is_deterministic() {
    let html = "<div><h2>A</h2><p>b <i>c</i></p><ul><li>x</li></ul></div>";
    assert_eq!(blocks(html), blocks(html));
}

#[test]
fn header_level_two() {
    assert_eq!(blocks("<h2>Title</h2>"), expected(vec![ArticleContent::Header(2, s("Title"))]));
}

#[test]
fn headers_three_and_four_join_trimmed_texts() {
    assert_eq!(blocks("<h3> A <b> B </b></h3>"), expected(vec![ArticleContent::Header(3, s("A B"))]));
    assert_eq!(blocks("<h4>x</h4>"), expected(vec![ArticleContent::Header(4, s("x"))]));
}

#[test]
fn mixed_paragraph_trims_only_first_run() {
    assert_eq!(
        blocks("<p>  Hello <code>x</code> world</p>"),
        expected(vec![ArticleContent::Paragraph(vec![
            TypedText::Common(s("Hello ")),
            TypedText::Code(s("x")),
            TypedText::Common(s(" world")),
        ])])
    );
}

#[test]
fn paragraph_inline_kinds() {
    assert_eq!(
        blocks("<p><em> e</em><strong>s</strong><i>i</i><a href=\"u\">l</a><span>no</span></p>"),
        expected(vec![ArticleContent::Paragraph(vec![
            TypedText::Italic(s("e")),
            TypedText::Strong(s("s")),
            TypedText::Italic(s("i")),
            TypedText::Link { url: s("u"), value: s("l") },
        ])])
    );
}

#[test]
fn paragraph_link_without_text_child_uses_url() {
    assert_eq!(
        blocks("<p>see <a href=\"u\"><b>bold</b></a></p>"),
        expected(vec![ArticleContent::Paragraph(vec![
            TypedText::Common(s("see ")),
            TypedText::Link { url: s("u"), value: s("u") },
        ])])
    );
}

#[test]
fn paragraph_link_without_href_is_skipped() {
    assert_eq!(
        blocks("<p>a<a>b</a></p>"),
        expected(vec![ArticleContent::Paragraph(vec![TypedText::Common(s("a"))])])
    );
}

#[test]
fn code_block_with_class() {
    assert_eq!(
        blocks("<pre class=\"lang-rust\">let x=1;</pre>"),
        expected(vec![ArticleContent::Code { lang: s("lang-rust"), content: s("let x=1;") }])
    );
}

#[test]
fn pre_wrapping_code_recurses() {
    assert_eq!(
        blocks("<pre><code class=\"go\"> a\n b </code></pre>"),
        expected(vec![ArticleContent::Code { lang: s("go"), content: s("a\n b") }])
    );
}

#[test]
fn empty_pre_is_empty_code() {
    assert_eq!(
        blocks("<pre></pre>"),
        expected(vec![ArticleContent::Code { lang: s(""), content: s("") }])
    );
}

#[test]
fn unordered_list() {
    assert_eq!(
        blocks("<ul><li>A</li><li>B</li></ul>"),
        expected(vec![ArticleContent::UnorderedList(vec![
            ArticleContent::Text(TypedText::Common(s("A"))),
            ArticleContent::Text(TypedText::Common(s("B"))),
        ])])
    );
}

#[test]
fn ordered_list_with_element_items_and_first_child_only() {
    assert_eq!(
        blocks("<ol><li><strong>x</strong> rest</li><li></li><li> y <b>z</b></li></ol>"),
        expected(vec![ArticleContent::OrderedList(vec![
            ArticleContent::Paragraph(vec![TypedText::Common(s("x"))]),
            ArticleContent::Text(TypedText::Common(s("y"))),
        ])])
    );
}

#[test]
fn unsupported_tag_yields_nothing() {
    assert_eq!(blocks("<video>clip</video>"), expected(vec![]));
}

#[test]
fn unsupported_sibling_inside_div_keeps_the_others() {
    assert_eq!(
        blocks("<div><h2>A</h2><video>v</video> text <br></div>"),
        expected(vec![
            ArticleContent::Header(2, s("A")),
            ArticleContent::Text(TypedText::Common(s("text"))),
            ArticleContent::BR,
        ])
    );
}

#[test]
fn bare_anchor() {
    assert_eq!(
        blocks("<a href=\"http://x\">click</a>"),
        expected(vec![ArticleContent::Paragraph(vec![TypedText::Link {
            url: s("http://x"),
            value: s("click"),
        }])])
    );
}

#[test]
fn missing_link_text_falls_back_to_url() {
    assert_eq!(
        blocks("<a href=\"http://x\"></a>"),
        expected(vec![ArticleContent::Paragraph(vec![TypedText::Link {
            url: s("http://x"),
            value: s("http://x"),
        }])])
    );
}

#[test]
fn anchor_without_href_at_top_level() {
    assert_eq!(
        blocks("<a>t</a>"),
        expected(vec![ArticleContent::Paragraph(vec![TypedText::Link { url: s(""), value: s("t") }])])
    );
}

#[test]
fn top_level_italic_image_blockquote_code() {
    assert_eq!(
        blocks("<i> it </i>"),
        expected(vec![ArticleContent::Paragraph(vec![TypedText::Italic(s("it"))])])
    );
    assert_eq!(blocks("<img src=\"a.png\">"), expected(vec![ArticleContent::Image(s("a.png"))]));
    assert_eq!(blocks("<img alt=\"a\">"), expected(vec![]));
    assert_eq!(
        blocks("<blockquote> q <i>r</i> </blockquote>"),
        expected(vec![ArticleContent::Blockquote(s("q r "))])
    );
    assert_eq!(
        blocks("<code class=\"c\">k</code>"),
        expected(vec![ArticleContent::Code { lang: s("c"), content: s("k") }])
    );
}

#[test]
fn figure_unwraps_its_image() {
    assert_eq!(
        blocks("<figure><img src=\"p.jpg\"><figcaption>cap</figcaption></figure>"),
        expected(vec![ArticleContent::Image(s("p.jpg"))])
    );
    assert_eq!(blocks("<figure> <img src=\"p.jpg\"></figure>"), expected(vec![]));
}

#[test]
fn several_top_level_nodes_give_nothing() {
    assert_eq!(blocks("<h2>A</h2><h2>B</h2>"), expected(vec![]));
    assert_eq!(blocks(""), expected(vec![]));
    assert_eq!(blocks("plain text"), expected(vec![]));
}

#[test]
fn div_drops_blank_text() {
    assert_eq!(
        blocks("<div>\n  <p>x</p>\n</div>"),
        expected(vec![ArticleContent::Paragraph(vec![TypedText::Common(s("x"))])])
    );
}

#[test]
fn plain_text_of_fragment() {
    assert_eq!(extract_text_from_html("<b> Hello </b> <i>world</i>"), "Hello  world");
    assert_eq!(extract_text_from_html("Rust &amp; C"), "Rust & C");
}

#[test]
fn trimming_helpers() {
    assert_eq!(trim_first(0, "  a b "), "a b ");
    assert_eq!(trim_first(1, "  a b "), "  a b ");
    assert_eq!(trim(" \t a b \n"), "a b");
    assert_eq!(trim("\u{3000}x\u{a0}"), "x");
}

#[test]
fn unsupported_tags_are_reported() {
    let (content, diagnostics) = extract_content_and_diagnostics(s("<video class=\"v\">clip</video>"));
    assert!(content.is_empty());
    assert_eq!(
        format!("{:?}", diagnostics),
        format!(
            "{:?}",
            vec![Diagnostic::UnsupportedTag {
                name: s("video"),
                class: Some(s("v")),
                html: s("<video class=\"v\">clip</video>"),
            }]
        )
    );
    let (content, diagnostics) = extract_content_and_diagnostics(s(
        "<div><table></table><p>x</p><figure><svg></svg></figure><div><audio></audio></div></div>",
    ));
    assert_eq!(
        format!("{:?}", content),
        expected(vec![ArticleContent::Paragraph(vec![TypedText::Common(s("x"))])])
    );
    let names: Vec<String> = diagnostics
        .iter()
        .map(|d| match d {
            Diagnostic::UnsupportedTag { name, class, html } => {
                assert!(class.is_none());
                assert!(html.starts_with(&format!("<{}", name)));
                name.clone()
            }
            Diagnostic::UnknownInlineTag(name) => panic!("unexpected inline warning {}", name),
        })
        .collect();
    assert_eq!(names, vec![s("table"), s("svg"), s("audio")]);
}

#[test]
fn unknown_inline_tags_are_reported() {
    let (content, diagnostics) =
        extract_content_and_diagnostics(s("<p>a <span>b</span><b><i>c</i></b><em>d</em></p>"));
    assert_eq!(
        format!("{:?}", content),
        expected(vec![ArticleContent::Paragraph(vec![
            TypedText::Common(s("a ")),
            TypedText::Italic(s("d")),
        ])])
    );
    assert_eq!(
        format!("{:?}", diagnostics),
        format!("{:?}", vec![Diagnostic::UnknownInlineTag(s("span"))])
    );
    let (_, diagnostics) =
        extract_content_and_diagnostics(s("<ul><li><p><u>x</u></p></li><li>y</li></ul>"));
    assert_eq!(
        format!("{:?}", diagnostics),
        format!("{:?}", vec![Diagnostic::UnknownInlineTag(s("u"))])
    );
}

#[test]
fn childless_anchor_in_paragraph_falls_back_to_url() {
    assert_eq!(
        blocks("<p>see <a href=\"u\"></a></p>"),
        expected(vec![ArticleContent::Paragraph(vec![
            TypedText::Common(s("see ")),
            TypedText::Link { url: s("u"), value: s("u") },
        ])])
    );
}

#[test]
fn list_item_with_childless_anchor_inside() {
    assert_eq!(
        blocks("<ul><li><span><a href=\"i\"></a></span></li></ul>"),
        expected(vec![ArticleContent::UnorderedList(vec![ArticleContent::Paragraph(vec![
            TypedText::Link { url: s("i"), value: s("i") },
        ])])])
    );
}

#[test]
fn cloned_blocks_are_equal() {
    let v = extract_content_from_html(s("<div><ul><li>a</li></ul><p>b <i>c</i></p></div>"));
    let copy: Vec<ArticleContent> = v.iter().map(|b| b.clone()).collect();
    assert_eq!(format!("{:?}", copy), format!("{:?}", v));
}
