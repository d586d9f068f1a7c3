//! The resources that an entity refers to: the addresses of the images and
//! other files that have to be kept with a post, a project or a comment so
//! that it can be shown without the network.
//!
//! Addresses are resolved against a base and collected in the order in
//! which they are found, each once.

use crate::address::{join_url, joined_url};
use crate::comment::CommentFromCohost;
use crate::data::{CommentDataV1, PostDataV1, PostDataV2, ProjectDataV1};
use crate::post::{
    PostBlock, PostBlockAsk, PostBlockAskProject, PostBlockAttachment,
    PostBlockAttachmentWrapper, PostBlockMarkdown, PostFromCohost,
};
use crate::project::ProjectFromCohost;
use crate::resource::contains_text;
use crate::srcset::{srcset_urls, urls_in_srcset};
use crate::text::{has_prefix, is_text, starts_with, string_views, to_chars};
use kuchikiki::traits::TendrilSink;
use vstd::prelude::*;

verus! {

/// What of a token of a style matters here.
#[derive(Debug, Clone, PartialEq, Eq)]
pub enum StyleToken {
    /// `url(...)` with the address written without quotes.
    UnquotedUrl(String),
    /// A function, with the text that stands alone between its brackets
    /// where that is one quoted text.
    Function(String, Option<String>),
    /// Any other token.
    Other,
}

/// A [`StyleToken`] as texts.
pub enum StyleTokenView {
    UnquotedUrl(Seq<char>),
    Function(Seq<char>, Option<Seq<char>>),
    Other,
}

impl View for StyleToken {
    type V = StyleTokenView;

    open spec fn view(&self) -> StyleTokenView {
        match self {
            StyleToken::UnquotedUrl(v) => StyleTokenView::UnquotedUrl(v@),
            StyleToken::Function(name, text) => StyleTokenView::Function(
                name@,
                crate::address::opt_view(*text),
            ),
            StyleToken::Other => StyleTokenView::Other,
        }
    }
}

/// The views of a list of tokens.
pub open spec fn token_views(tokens: Seq<StyleToken>) -> Seq<StyleTokenView> {
    tokens.map_values(|t: StyleToken| t@)
}

/// The views of a list of optional texts.
pub open spec fn opt_views(values: Seq<Option<String>>) -> Seq<Option<Seq<char>>> {
    values.map_values(|v: Option<String>| crate::address::opt_view(v))
}

/// Name of the HTML that a markdown text renders to.
pub uninterp spec fn markdown_html(markdown: Seq<char>) -> Seq<char>;

/// Name of what the elements of a piece of HTML that a selector picks
/// have as the value of an attribute, in the order of the document;
/// nothing for an element without the attribute.
pub uninterp spec fn html_attribute_values(
    html: Seq<char>,
    selector: Seq<char>,
    attribute: Seq<char>,
) -> Seq<Option<Seq<char>>>;

/// Name of the tokens of a style, without white space and comments, and
/// without what stands inside functions and brackets.
pub uninterp spec fn style_tokens(style: Seq<char>) -> Seq<StyleTokenView>;

/// `pulldown_cmark::Parser::new` and `pulldown_cmark::html::push_html`:
/// the HTML that the markdown renders to. The contract only names the
/// result.
#[verifier::external_body]
pub(crate) fn render_markdown_html(markdown: &str) -> (r: String)
    ensures
        r@ == markdown_html(markdown@),
{
    let mut html = String::new();
    pulldown_cmark::html::push_html(&mut html, pulldown_cmark::Parser::new(markdown));
    html
}

/// `kuchikiki::parse_fragment` within a `body`, `select` on the parsed
/// fragment, and `Attributes::get` on each element found: the values of
/// the attribute, and none at all where the selector is no selector. The
/// contract only names the result.
#[verifier::external_body]
pub(crate) fn select_attribute_values(html: &str, selector: &str, attribute: &str) -> (r: Vec<
    Option<String>,
>)
    ensures
        opt_views(r@) == html_attribute_values(html@, selector@, attribute@),
{
    let xhtml = html5ever::Namespace::from("http://www.w3.org/1999/xhtml");
    let body = html5ever::QualName::new(None, xhtml, html5ever::LocalName::from("body"));
    let fragment = kuchikiki::parse_fragment(body, Vec::new()).one(html);
    match fragment.select(selector) {
        Ok(found) => found.map(|e| e.attributes.borrow().get(attribute).map(|v| v.to_string()))
            .collect(),
        Err(()) => Vec::new(),
    }
}

/// `cssparser::Parser::next` until the style ends, with
/// `parse_nested_block` and `expect_string` on what follows a function:
/// the tokens of the style. The contract only names the result.
#[verifier::external_body]
pub(crate) fn tokenize_style(style: &str) -> (r: Vec<StyleToken>)
    ensures
        token_views(r@) == style_tokens(style@),
{
    let mut input = cssparser::ParserInput::new(style);
    let mut parser = cssparser::Parser::new(&mut input);
    let mut tokens = Vec::new();
    while let Ok(token) = parser.next().cloned() {
        tokens.push(match token {
            cssparser::Token::UnquotedUrl(v) => StyleToken::UnquotedUrl(v.to_string()),
            cssparser::Token::Function(f) => StyleToken::Function(f.to_string(), parser
                .parse_nested_block(|p| Ok::<_, cssparser::ParseError<()>>(p.expect_string().cloned()?))
                .ok().map(|s| s.to_string())),
            _ => StyleToken::Other,
        });
    }
    tokens
}

/// Whether an address that written out begins so is of the scheme `data`.
pub open spec fn is_data_address(address: Seq<char>) -> bool {
    has_prefix(address, "data:"@)
}

/// What is kept of a resolved reference: the address, unless the
/// reference did not resolve or resolved to data that the address itself
/// holds.
pub open spec fn kept_address(joined: Option<Seq<char>>) -> Option<Seq<char>> {
    match joined {
        Some(address) => if is_data_address(address) {
            None
        } else {
            Some(address)
        },
        None => None,
    }
}

/// The address that a reference stands for against a base, if it is one
/// to keep. An empty reference is passed over where `skip_empty` says so.
pub open spec fn resolved(base: Seq<char>, reference: Seq<char>, skip_empty: bool) -> Option<
    Seq<char>,
> {
    if skip_empty && reference.len() == 0 {
        None
    } else {
        kept_address(joined_url(base, reference))
    }
}

/// The addresses with one more, unless it is none or among them already.
pub open spec fn with_address(refs: Seq<Seq<char>>, address: Option<Seq<char>>) -> Seq<Seq<char>> {
    match address {
        Some(a) => if refs.contains(a) {
            refs
        } else {
            refs.push(a)
        },
        None => refs,
    }
}

/// The addresses with what a reference stands for.
pub open spec fn with_ref(
    refs: Seq<Seq<char>>,
    base: Seq<char>,
    reference: Seq<char>,
    skip_empty: bool,
) -> Seq<Seq<char>> {
    with_address(refs, resolved(base, reference, skip_empty))
}

/// The addresses with what each of the references stands for, in order.
pub open spec fn with_refs(
    refs: Seq<Seq<char>>,
    base: Seq<char>,
    references: Seq<Seq<char>>,
    skip_empty: bool,
) -> Seq<Seq<char>>
    decreases references.len(),
{
    if references.len() == 0 {
        refs
    } else {
        with_ref(
            with_refs(refs, base, references.drop_last(), skip_empty),
            base,
            references.last(),
            skip_empty,
        )
    }
}

/// The addresses that the tokens of a style name: those written without
/// quotes, and those written as a quoted text that alone fills the
/// brackets of the function `url`.
pub open spec fn style_token_addresses(tokens: Seq<StyleTokenView>) -> Seq<Seq<char>>
    decreases tokens.len(),
{
    if tokens.len() == 0 {
        Seq::empty()
    } else {
        let front = style_token_addresses(tokens.drop_last());
        match tokens.last() {
            StyleTokenView::UnquotedUrl(v) => front.push(v),
            StyleTokenView::Function(name, Some(v)) => if name == "url"@ {
                front.push(v)
            } else {
                front
            },
            _ => front,
        }
    }
}

/// The addresses that the styles name, style by style.
pub open spec fn style_addresses(styles: Seq<Option<Seq<char>>>) -> Seq<Seq<char>>
    decreases styles.len(),
{
    if styles.len() == 0 {
        Seq::empty()
    } else {
        style_addresses(styles.drop_last()) + (match styles.last() {
            Some(style) => style_token_addresses(style_tokens(style)),
            None => Seq::empty(),
        })
    }
}

/// The values that are there.
pub open spec fn present_values(values: Seq<Option<Seq<char>>>) -> Seq<Seq<char>>
    decreases values.len(),
{
    if values.len() == 0 {
        Seq::empty()
    } else {
        present_values(values.drop_last()) + (match values.last() {
            Some(v) => seq![v],
            None => Seq::empty(),
        })
    }
}

/// The addresses in the `srcset` attributes, attribute by attribute.
pub open spec fn srcset_addresses(values: Seq<Option<Seq<char>>>) -> Seq<Seq<char>>
    decreases values.len(),
{
    if values.len() == 0 {
        Seq::empty()
    } else {
        srcset_addresses(values.drop_last()) + (match values.last() {
            Some(v) => srcset_urls(v),
            None => Seq::empty(),
        })
    }
}

/// The references in a piece of HTML: the addresses that `style`
/// attributes name, the `src` of every `img` and `source`, and the
/// addresses in their `srcset`.
pub open spec fn html_references(html: Seq<char>) -> Seq<Seq<char>> {
    style_addresses(html_attribute_values(html, "[style]"@, "style"@)) + present_values(
        html_attribute_values(html, "img, source"@, "src"@),
    ) + srcset_addresses(html_attribute_values(html, "img, source"@, "srcset"@))
}

/// The addresses with those that a markdown text refers to.
pub open spec fn with_markdown_refs(refs: Seq<Seq<char>>, base: Seq<char>, markdown: Seq<char>) -> Seq<
    Seq<char>,
> {
    with_refs(refs, base, html_references(markdown_html(markdown)), true)
}

/// No address occurs twice.
pub open spec fn no_duplicates(refs: Seq<Seq<char>>) -> bool {
    forall|i: int, j: int| 0 <= i < j < refs.len() ==> refs[i] != refs[j]
}

/// Adding an address keeps what was there, in place, and adds nothing
/// twice.
pub proof fn lemma_with_address(refs: Seq<Seq<char>>, address: Option<Seq<char>>)
    requires
        no_duplicates(refs),
    ensures
        no_duplicates(with_address(refs, address)),
        refs.len() <= with_address(refs, address).len(),
        forall|i: int| 0 <= i < refs.len() ==> with_address(refs, address)[i] == refs[i],
        address is Some ==> with_address(refs, address).contains(address.unwrap()),
{
    match address {
        Some(a) => {
            if !refs.contains(a) {
                let more = refs.push(a);
                assert(more[refs.len() as int] == a);
                assert forall|i: int, j: int| 0 <= i < j < more.len() implies more[i]
                    != more[j] by {
                    if j == refs.len() {
                        assert(refs.contains(refs[i]));
                    }
                }
            }
        },
        None => {},
    }
}

/// Adding references keeps what was there, in place, and adds nothing
/// twice.
pub proof fn lemma_with_refs(
    refs: Seq<Seq<char>>,
    base: Seq<char>,
    references: Seq<Seq<char>>,
    skip_empty: bool,
)
    requires
        no_duplicates(refs),
    ensures
        no_duplicates(with_refs(refs, base, references, skip_empty)),
        refs.len() <= with_refs(refs, base, references, skip_empty).len(),
        forall|i: int|
            0 <= i < refs.len() ==> with_refs(refs, base, references, skip_empty)[i] == refs[i],
    decreases references.len(),
{
    if references.len() > 0 {
        let front = with_refs(refs, base, references.drop_last(), skip_empty);
        lemma_with_refs(refs, base, references.drop_last(), skip_empty);
        lemma_with_address(front, resolved(base, references.last(), skip_empty));
    }
}

/// What is kept of a resolved reference.
pub fn keep_address(joined: Option<String>) -> (r: Option<String>)
    ensures
        crate::address::opt_view(r) == kept_address(crate::address::opt_view(joined)),
{
    match joined {
        Some(address) => {
            let chars = to_chars(address.as_str());
            if starts_with(&chars, "data:") {
                None
            } else {
                Some(address)
            }
        },
        None => None,
    }
}

/// Adds an address to the list unless it is none or in the list already.
pub fn add_address(refs: &mut Vec<String>, address: Option<String>)
    ensures
        string_views(final(refs)@) == with_address(
            string_views(old(refs)@),
            crate::address::opt_view(address),
        ),
{
    match address {
        Some(a) => {
            let chars = to_chars(a.as_str());
            if !contains_text(refs, &chars) {
                let ghost before = string_views(refs@);
                refs.push(a);
                assert(string_views(refs@) == before.push(a@));
            }
        },
        None => {},
    }
}

/// Adds what a reference stands for against the base.
pub fn add_ref(refs: &mut Vec<String>, base: &str, reference: &str, skip_empty: bool)
    ensures
        string_views(final(refs)@) == with_ref(
            string_views(old(refs)@),
            base@,
            reference@,
            skip_empty,
        ),
{
    if skip_empty && reference.is_empty() {
        return ;
    }
    let address = keep_address(join_url(base, reference));
    add_address(refs, address);
}

/// Adds what each of the references stands for against the base.
pub fn add_refs(refs: &mut Vec<String>, base: &str, references: &Vec<String>, skip_empty: bool)
    ensures
        string_views(final(refs)@) == with_refs(
            string_views(old(refs)@),
            base@,
            string_views(references@),
            skip_empty,
        ),
{
    let ghost start = string_views(refs@);
    let mut i: usize = 0;
    assert(string_views(references@).take(0) == Seq::<Seq<char>>::empty());
    while i < references.len()
        invariant
            i <= references.len(),
            string_views(refs@) == with_refs(
                start,
                base@,
                string_views(references@).take(i as int),
                skip_empty,
            ),
        decreases references.len() - i,
    {
        let ghost next = string_views(references@).take(i + 1);
        assert(next.drop_last() == string_views(references@).take(i as int));
        assert(next.last() == references@[i as int]@);
        add_ref(refs, base, references[i].as_str(), skip_empty);
        i = i + 1;
    }
    assert(string_views(references@).take(references.len() as int) == string_views(references@));
}

/// The addresses that the tokens of a style name.
pub fn style_token_urls(tokens: &Vec<StyleToken>) -> (r: Vec<String>)
    ensures
        string_views(r@) == style_token_addresses(token_views(tokens@)),
{
    let mut out: Vec<String> = Vec::new();
    let mut i: usize = 0;
    assert(token_views(tokens@).take(0) == Seq::<StyleTokenView>::empty());
    assert(string_views(out@) == Seq::<Seq<char>>::empty());
    while i < tokens.len()
        invariant
            i <= tokens.len(),
            string_views(out@) == style_token_addresses(token_views(tokens@).take(i as int)),
        decreases tokens.len() - i,
    {
        let ghost next = token_views(tokens@).take(i + 1);
        assert(next.drop_last() == token_views(tokens@).take(i as int));
        assert(next.last() == tokens@[i as int]@);
        let ghost before = string_views(out@);
        match &tokens[i] {
            StyleToken::UnquotedUrl(v) => {
                out.push(v.clone());
                assert(string_views(out@) == before.push(v@));
            },
            StyleToken::Function(name, Some(v)) => {
                let chars = to_chars(name.as_str());
                if is_text(&chars, "url") {
                    out.push(v.clone());
                    assert(string_views(out@) == before.push(v@));
                }
            },
            _ => {},
        }
        i = i + 1;
    }
    assert(token_views(tokens@).take(tokens.len() as int) == token_views(tokens@));
    out
}

fn append_texts(out: &mut Vec<String>, more: Vec<String>)
    ensures
        string_views(final(out)@) == string_views(old(out)@) + string_views(more@),
{
    let ghost before = string_views(out@);
    let ghost added = string_views(more@);
    let mut more = more;
    out.append(&mut more);
    assert(string_views(out@) == before + added);
}

/// The addresses that the styles name.
pub fn style_urls(styles: &Vec<Option<String>>) -> (r: Vec<String>)
    ensures
        string_views(r@) == style_addresses(opt_views(styles@)),
{
    let mut out: Vec<String> = Vec::new();
    let mut i: usize = 0;
    assert(opt_views(styles@).take(0) == Seq::<Option<Seq<char>>>::empty());
    assert(string_views(out@) == Seq::<Seq<char>>::empty());
    while i < styles.len()
        invariant
            i <= styles.len(),
            string_views(out@) == style_addresses(opt_views(styles@).take(i as int)),
        decreases styles.len() - i,
    {
        let ghost next = opt_views(styles@).take(i + 1);
        assert(next.drop_last() == opt_views(styles@).take(i as int));
        assert(next.last() == crate::address::opt_view(styles@[i as int]));
        let ghost before = string_views(out@);
        match &styles[i] {
            Some(style) => {
                let tokens = tokenize_style(style.as_str());
                let urls = style_token_urls(&tokens);
                append_texts(&mut out, urls);
            },
            None => {
                assert(before + Seq::<Seq<char>>::empty() == before);
            },
        }
        i = i + 1;
    }
    assert(opt_views(styles@).take(styles.len() as int) == opt_views(styles@));
    out
}

/// The values that are there.
pub fn present(values: &Vec<Option<String>>) -> (r: Vec<String>)
    ensures
        string_views(r@) == present_values(opt_views(values@)),
{
    let mut out: Vec<String> = Vec::new();
    let mut i: usize = 0;
    assert(opt_views(values@).take(0) == Seq::<Option<Seq<char>>>::empty());
    assert(string_views(out@) == Seq::<Seq<char>>::empty());
    while i < values.len()
        invariant
            i <= values.len(),
            string_views(out@) == present_values(opt_views(values@).take(i as int)),
        decreases values.len() - i,
    {
        let ghost next = opt_views(values@).take(i + 1);
        assert(next.drop_last() == opt_views(values@).take(i as int));
        assert(next.last() == crate::address::opt_view(values@[i as int]));
        let ghost before = string_views(out@);
        match &values[i] {
            Some(v) => {
                out.push(v.clone());
                assert(string_views(out@) == before + seq![v@]);
            },
            None => {
                assert(before + Seq::<Seq<char>>::empty() == before);
            },
        }
        i = i + 1;
    }
    assert(opt_views(values@).take(values.len() as int) == opt_views(values@));
    out
}

/// The addresses in the `srcset` attributes.
pub fn srcset_values(values: &Vec<Option<String>>) -> (r: Vec<String>)
    ensures
        string_views(r@) == srcset_addresses(opt_views(values@)),
{
    let mut out: Vec<String> = Vec::new();
    let mut i: usize = 0;
    assert(opt_views(values@).take(0) == Seq::<Option<Seq<char>>>::empty());
    assert(string_views(out@) == Seq::<Seq<char>>::empty());
    while i < values.len()
        invariant
            i <= values.len(),
            string_views(out@) == srcset_addresses(opt_views(values@).take(i as int)),
        decreases values.len() - i,
    {
        let ghost next = opt_views(values@).take(i + 1);
        assert(next.drop_last() == opt_views(values@).take(i as int));
        assert(next.last() == crate::address::opt_view(values@[i as int]));
        let ghost before = string_views(out@);
        match &values[i] {
            Some(v) => {
                let urls = urls_in_srcset(v.as_str());
                append_texts(&mut out, urls);
            },
            None => {
                assert(before + Seq::<Seq<char>>::empty() == before);
            },
        }
        i = i + 1;
    }
    assert(opt_views(values@).take(values.len() as int) == opt_views(values@));
    out
}

/// The references in a piece of HTML, given the values that its elements
/// have for `style`, `src` and `srcset`.
pub fn references_of(
    styles: &Vec<Option<String>>,
    sources: &Vec<Option<String>>,
    source_sets: &Vec<Option<String>>,
) -> (r: Vec<String>)
    ensures
        string_views(r@) == style_addresses(opt_views(styles@)) + present_values(
            opt_views(sources@),
        ) + srcset_addresses(opt_views(source_sets@)),
{
    let mut out = style_urls(styles);
    append_texts(&mut out, present(sources));
    append_texts(&mut out, srcset_values(source_sets));
    out
}

/// Adds the addresses that a markdown text refers to: it is rendered to
/// HTML, and the references in the HTML are resolved against the base.
pub fn add_markdown_refs(refs: &mut Vec<String>, base: &str, markdown: &str)
    ensures
        string_views(final(refs)@) == with_markdown_refs(
            string_views(old(refs)@),
            base@,
            markdown@,
        ),
{
    let html = render_markdown_html(markdown);
    let styles = select_attribute_values(html.as_str(), "[style]", "style");
    let sources = select_attribute_values(html.as_str(), "img, source", "src");
    let source_sets = select_attribute_values(html.as_str(), "img, source", "srcset");
    let references = references_of(&styles, &sources, &source_sets);
    add_refs(refs, base, &references, true);
}

/// What refers to resources.
pub trait ResourceRefs {
    /// The addresses with those that the item refers to, resolved against
    /// the base, each added once and in the order in which the item names
    /// them.
    spec fn with_refs_of(&self, refs: Seq<Seq<char>>, base: Seq<char>) -> Seq<Seq<char>>;

    /// Adds the addresses that the item refers to.
    fn add_refs_to(&self, refs: &mut Vec<String>, base: &str)
        ensures
            string_views(final(refs)@) == self.with_refs_of(string_views(old(refs)@), base@),
    ;

    /// The addresses that the item refers to.
    fn collect_refs(&self, base: &str) -> (r: Vec<String>)
        ensures
            string_views(r@) == self.with_refs_of(Seq::empty(), base@),
    {
        let mut refs: Vec<String> = Vec::new();
        assert(string_views(refs@) == Seq::<Seq<char>>::empty());
        self.add_refs_to(&mut refs, base);
        refs
    }
}

/// The addresses with what an optional reference stands for, where there
/// is one.
pub open spec fn with_opt_ref(refs: Seq<Seq<char>>, base: Seq<char>, reference: Option<String>) -> Seq<
    Seq<char>,
> {
    match reference {
        Some(r) => with_ref(refs, base, r@, false),
        None => refs,
    }
}

fn add_opt_ref(refs: &mut Vec<String>, base: &str, reference: &Option<String>)
    ensures
        string_views(final(refs)@) == with_opt_ref(string_views(old(refs)@), base@, *reference),
{
    match reference {
        Some(r) => add_ref(refs, base, r.as_str(), false),
        None => {},
    }
}

impl ResourceRefs for PostBlockMarkdown {
    /// A block of markdown refers to what its text refers to.
    open spec fn with_refs_of(&self, refs: Seq<Seq<char>>, base: Seq<char>) -> Seq<Seq<char>> {
        with_markdown_refs(refs, base, self.content@)
    }

    fn add_refs_to(&self, refs: &mut Vec<String>, base: &str) {
        add_markdown_refs(refs, base, self.content.as_str());
    }
}

/// The addresses with those of the file and of the preview of an
/// attachment, where they are given.
pub open spec fn with_attachment_refs(
    refs: Seq<Seq<char>>,
    base: Seq<char>,
    file_url: Seq<char>,
    preview_url: Seq<char>,
) -> Seq<Seq<char>> {
    with_ref(with_ref(refs, base, file_url, true), base, preview_url, true)
}

impl ResourceRefs for PostBlockAttachment {
    /// An attachment refers to its file and to its preview.
    open spec fn with_refs_of(&self, refs: Seq<Seq<char>>, base: Seq<char>) -> Seq<Seq<char>> {
        match self {
            PostBlockAttachment::Image { file_url, preview_url, .. } => with_attachment_refs(
                refs,
                base,
                file_url@,
                preview_url@,
            ),
            PostBlockAttachment::Audio { file_url, preview_url, .. } => with_attachment_refs(
                refs,
                base,
                file_url@,
                preview_url@,
            ),
        }
    }

    fn add_refs_to(&self, refs: &mut Vec<String>, base: &str) {
        match self {
            PostBlockAttachment::Image { file_url, preview_url, .. } => {
                add_ref(refs, base, file_url.as_str(), true);
                add_ref(refs, base, preview_url.as_str(), true);
            },
            PostBlockAttachment::Audio { file_url, preview_url, .. } => {
                add_ref(refs, base, file_url.as_str(), true);
                add_ref(refs, base, preview_url.as_str(), true);
            },
        }
    }
}

impl ResourceRefs for PostBlockAskProject {
    /// The project that asks refers to its avatar and to the preview of
    /// it.
    open spec fn with_refs_of(&self, refs: Seq<Seq<char>>, base: Seq<char>) -> Seq<Seq<char>> {
        with_ref(
            with_ref(refs, base, self.avatar_url@, false),
            base,
            self.avatar_preview_url@,
            false,
        )
    }

    fn add_refs_to(&self, refs: &mut Vec<String>, base: &str) {
        add_ref(refs, base, self.avatar_url.as_str(), false);
        add_ref(refs, base, self.avatar_preview_url.as_str(), false);
    }
}

impl ResourceRefs for PostBlockAsk {
    /// An ask refers to what the project that asks refers to, where it is
    /// known, and to what the text of the ask refers to.
    open spec fn with_refs_of(&self, refs: Seq<Seq<char>>, base: Seq<char>) -> Seq<Seq<char>> {
        with_markdown_refs(
            match self.asking_project {
                Some(project) => project.with_refs_of(refs, base),
                None => refs,
            },
            base,
            self.content@,
        )
    }

    fn add_refs_to(&self, refs: &mut Vec<String>, base: &str) {
        match &self.asking_project {
            Some(project) => project.add_refs_to(refs, base),
            None => {},
        }
        add_markdown_refs(refs, base, self.content.as_str());
    }
}

/// The addresses with those that the attachments of a row refer to.
pub open spec fn with_row_refs(
    refs: Seq<Seq<char>>,
    base: Seq<char>,
    attachments: Seq<PostBlockAttachmentWrapper>,
) -> Seq<Seq<char>>
    decreases attachments.len(),
{
    if attachments.len() == 0 {
        refs
    } else {
        attachments.last().attachment.with_refs_of(
            with_row_refs(refs, base, attachments.drop_last()),
            base,
        )
    }
}

fn add_row_refs(refs: &mut Vec<String>, base: &str, attachments: &Vec<PostBlockAttachmentWrapper>)
    ensures
        string_views(final(refs)@) == with_row_refs(string_views(old(refs)@), base@, attachments@),
{
    let ghost start = string_views(refs@);
    let mut i: usize = 0;
    assert(attachments@.take(0) == Seq::<PostBlockAttachmentWrapper>::empty());
    while i < attachments.len()
        invariant
            i <= attachments.len(),
            string_views(refs@) == with_row_refs(start, base@, attachments@.take(i as int)),
        decreases attachments.len() - i,
    {
        assert(attachments@.take(i + 1).drop_last() == attachments@.take(i as int));
        attachments[i].attachment.add_refs_to(refs, base);
        i = i + 1;
    }
    assert(attachments@.take(attachments.len() as int) == attachments@);
}

impl ResourceRefs for PostBlock {
    /// A block refers to what the ask, the attachment, the attachments or
    /// the markdown in it refers to.
    open spec fn with_refs_of(&self, refs: Seq<Seq<char>>, base: Seq<char>) -> Seq<Seq<char>> {
        match self {
            PostBlock::Ask { ask } => ask.with_refs_of(refs, base),
            PostBlock::Attachment { attachment } => attachment.with_refs_of(refs, base),
            PostBlock::AttachmentRow { attachments } => with_row_refs(refs, base, attachments@),
            PostBlock::Markdown { markdown } => markdown.with_refs_of(refs, base),
        }
    }

    fn add_refs_to(&self, refs: &mut Vec<String>, base: &str) {
        match self {
            PostBlock::Ask { ask } => ask.add_refs_to(refs, base),
            PostBlock::Attachment { attachment } => attachment.add_refs_to(refs, base),
            PostBlock::AttachmentRow { attachments } => add_row_refs(refs, base, attachments),
            PostBlock::Markdown { markdown } => markdown.add_refs_to(refs, base),
        }
    }
}

/// The addresses with those that the blocks refer to, block by block.
pub open spec fn with_block_refs(refs: Seq<Seq<char>>, base: Seq<char>, blocks: Seq<PostBlock>) -> Seq<
    Seq<char>,
>
    decreases blocks.len(),
{
    if blocks.len() == 0 {
        refs
    } else {
        blocks.last().with_refs_of(with_block_refs(refs, base, blocks.drop_last()), base)
    }
}

/// Adds the addresses that the blocks refer to.
pub fn add_block_refs(refs: &mut Vec<String>, base: &str, blocks: &Vec<PostBlock>)
    ensures
        string_views(final(refs)@) == with_block_refs(string_views(old(refs)@), base@, blocks@),
{
    let ghost start = string_views(refs@);
    let mut i: usize = 0;
    assert(blocks@.take(0) == Seq::<PostBlock>::empty());
    while i < blocks.len()
        invariant
            i <= blocks.len(),
            string_views(refs@) == with_block_refs(start, base@, blocks@.take(i as int)),
        decreases blocks.len() - i,
    {
        assert(blocks@.take(i + 1).drop_last() == blocks@.take(i as int));
        blocks[i].add_refs_to(refs, base);
        i = i + 1;
    }
    assert(blocks@.take(blocks.len() as int) == blocks@);
}

impl ResourceRefs for PostDataV2 {
    /// The data of a post refers to what its blocks refer to.
    open spec fn with_refs_of(&self, refs: Seq<Seq<char>>, base: Seq<char>) -> Seq<Seq<char>> {
        with_block_refs(refs, base, self.blocks@)
    }

    fn add_refs_to(&self, refs: &mut Vec<String>, base: &str) {
        add_block_refs(refs, base, &self.blocks);
    }
}

impl ResourceRefs for PostDataV1 {
    /// The data of a post refers to what its blocks refer to.
    open spec fn with_refs_of(&self, refs: Seq<Seq<char>>, base: Seq<char>) -> Seq<Seq<char>> {
        with_block_refs(refs, base, self.blocks@)
    }

    fn add_refs_to(&self, refs: &mut Vec<String>, base: &str) {
        add_block_refs(refs, base, &self.blocks);
    }
}

impl ResourceRefs for PostFromCohost {
    /// A post refers to what its blocks refer to. The posts of its share
    /// tree are posts of their own.
    open spec fn with_refs_of(&self, refs: Seq<Seq<char>>, base: Seq<char>) -> Seq<Seq<char>> {
        with_block_refs(refs, base, self.blocks@)
    }

    fn add_refs_to(&self, refs: &mut Vec<String>, base: &str) {
        add_block_refs(refs, base, &self.blocks);
    }
}

/// The addresses with those that a project refers to: its avatar and the
/// preview of it, its header and the preview of it where it has them, and
/// what its description refers to.
pub open spec fn with_project_refs(
    refs: Seq<Seq<char>>,
    base: Seq<char>,
    avatar_url: Seq<char>,
    avatar_preview_url: Seq<char>,
    header_url: Option<String>,
    header_preview_url: Option<String>,
    description: Seq<char>,
) -> Seq<Seq<char>> {
    with_markdown_refs(
        with_opt_ref(
            with_opt_ref(
                with_ref(with_ref(refs, base, avatar_url, false), base, avatar_preview_url, false),
                base,
                header_url,
            ),
            base,
            header_preview_url,
        ),
        base,
        description,
    )
}

fn add_project_refs(
    refs: &mut Vec<String>,
    base: &str,
    avatar_url: &str,
    avatar_preview_url: &str,
    header_url: &Option<String>,
    header_preview_url: &Option<String>,
    description: &str,
)
    ensures
        string_views(final(refs)@) == with_project_refs(
            string_views(old(refs)@),
            base@,
            avatar_url@,
            avatar_preview_url@,
            *header_url,
            *header_preview_url,
            description@,
        ),
{
    add_ref(refs, base, avatar_url, false);
    add_ref(refs, base, avatar_preview_url, false);
    add_opt_ref(refs, base, header_url);
    add_opt_ref(refs, base, header_preview_url);
    add_markdown_refs(refs, base, description);
}

impl ResourceRefs for ProjectDataV1 {
    open spec fn with_refs_of(&self, refs: Seq<Seq<char>>, base: Seq<char>) -> Seq<Seq<char>> {
        with_project_refs(
            refs,
            base,
            self.avatar_url@,
            self.avatar_preview_url@,
            self.header_url,
            self.header_preview_url,
            self.description@,
        )
    }

    fn add_refs_to(&self, refs: &mut Vec<String>, base: &str) {
        add_project_refs(
            refs,
            base,
            self.avatar_url.as_str(),
            self.avatar_preview_url.as_str(),
            &self.header_url,
            &self.header_preview_url,
            self.description.as_str(),
        );
    }
}

impl ResourceRefs for ProjectFromCohost {
    open spec fn with_refs_of(&self, refs: Seq<Seq<char>>, base: Seq<char>) -> Seq<Seq<char>> {
        with_project_refs(
            refs,
            base,
            self.avatar_url@,
            self.avatar_preview_url@,
            self.header_url,
            self.header_preview_url,
            self.description@,
        )
    }

    fn add_refs_to(&self, refs: &mut Vec<String>, base: &str) {
        add_project_refs(
            refs,
            base,
            self.avatar_url.as_str(),
            self.avatar_preview_url.as_str(),
            &self.header_url,
            &self.header_preview_url,
            self.description.as_str(),
        );
    }
}

impl ResourceRefs for CommentDataV1 {
    /// The data of a comment refers to what its text refers to.
    open spec fn with_refs_of(&self, refs: Seq<Seq<char>>, base: Seq<char>) -> Seq<Seq<char>> {
        with_markdown_refs(refs, base, self.body@)
    }

    fn add_refs_to(&self, refs: &mut Vec<String>, base: &str) {
        add_markdown_refs(refs, base, self.body.as_str());
    }
}

impl ResourceRefs for CommentFromCohost {
    /// A comment refers to what its text refers to. The replies to it are
    /// comments of their own.
    open spec fn with_refs_of(&self, refs: Seq<Seq<char>>, base: Seq<char>) -> Seq<Seq<char>> {
        with_markdown_refs(refs, base, self.comment.body@)
    }

    fn add_refs_to(&self, refs: &mut Vec<String>, base: &str) {
        add_markdown_refs(refs, base, self.comment.body.as_str());
    }
}

/// However many references are added to a list in which nothing occurs
/// twice, nothing occurs twice in the result, and what was in the list
/// stays where it was.
pub proof fn lemma_markdown_refs_distinct(refs: Seq<Seq<char>>, base: Seq<char>, markdown: Seq<char>)
    requires
        no_duplicates(refs),
    ensures
        no_duplicates(with_markdown_refs(refs, base, markdown)),
        refs.len() <= with_markdown_refs(refs, base, markdown).len(),
        forall|i: int| 0 <= i < refs.len() ==> with_markdown_refs(refs, base, markdown)[i] == refs[i],
{
    lemma_with_refs(refs, base, html_references(markdown_html(markdown)), true);
}

} // verus!
