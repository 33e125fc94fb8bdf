//! Articles: title extraction, navigation between neighbours, and the HTML
//! of a page and of its footer.

use crate::markdown::{markdown_html, to_html};
use crate::text::{chars_of, join, lines, lemma_lines_split, trim, trim_range};
use vstd::prelude::*;

verus! {

/// The title of a page whose article has none.
pub const DEFAULT_TITLE: &'static str = "Untitled";

/// The page up to its title.
pub const PAGE_OPEN: &'static str =
    "\n            <!doctype html>\n            <html>\n                <head>\n                    <title>";

/// The page between its title and the name of its stylesheet.
pub const PAGE_AFTER_TITLE: &'static str =
    "</title>\n                    <link rel=\"stylesheet\" href=\"/";

/// The page between the name of its stylesheet and its body.
pub const PAGE_AFTER_CSS: &'static str =
    "\">\n                    <meta charset=\"utf-8\">\n                    <meta name=\"viewport\" content=\"user-scalable=no, width=device-width, initial-scale=1\">\n                </head>\n                <body>\n                    <main>\n                        <div class=\"article\">\n                            ";

/// The page between its body and its footer.
pub const PAGE_AFTER_BODY: &'static str = "\n                            ";

/// The page behind its footer.
pub const PAGE_CLOSE: &'static str =
    "\n                        </div>\n                    </main>\n                </body>\n            </html>\n            ";

/// The footer up to the control that leads to the previous article; it
/// holds the home link.
pub const FOOTER_OPEN: &'static str =
    "\n        <footer>\n            <div class=\"nav\">\n                <a href=\"/\">&uarr;</a>\n            </div>\n            <div class=\"nav\">\n                ";

/// The footer between that control and the article index list.
pub const FOOTER_AFTER_PREVIOUS: &'static str =
    "\n                <span class=\"article-list\">\n                    ";

/// The footer between the article index list and the control that leads to
/// the next article.
pub const FOOTER_AFTER_LINKS: &'static str = "\n                </span>\n                ";

/// The footer between that control and the contact block.
pub const FOOTER_AFTER_NEXT: &'static str = "\n            </div>\n            ";

/// The footer behind the contact block.
pub const FOOTER_CLOSE: &'static str = "\n        </footer>\n        ";

/// The contact block up to the address.
pub const CONTACT_OPEN: &'static str =
    "\n                        <div class=\"contact\">\n                            <a id=\"contact\" href=\"mailto:";

/// The contact block behind the address.
pub const CONTACT_CLOSE: &'static str =
    "\">&#9993;</a>\n                        </div>\n            ";

/// A link to an article page up to the slug.
pub const LINK_OPEN: &'static str = "<a href=\"/articles/";

/// A link to an article page between the slug and the text.
pub const LINK_AFTER_SLUG: &'static str = ".html\">";

/// A link to an article page behind the text.
pub const LINK_CLOSE: &'static str = "</a>";

/// A disabled control up to its arrow.
pub const DISABLED_OPEN: &'static str = "<span class=\"disabled\">";

/// A disabled control behind its arrow.
pub const DISABLED_CLOSE: &'static str = "</span>";

/// The arrow that leads to the previous article.
pub const ARROW_PREVIOUS: &'static str = "&larr;";

/// The arrow that leads to the next article.
pub const ARROW_NEXT: &'static str = "&rarr;";

/// What stands between two entries of the article index list.
pub const LINK_SEPARATOR: &'static str = "\n";

/// Data container for a single article.
#[derive(Debug, Clone, PartialEq, Eq)]
pub struct Article {
    /// Raw markdown of the article.
    pub markdown: String,
    /// Short name of the article, fit for hyperlinks, like `1-my-first-post`.
    pub slug: String,
    /// Title of the article, fit for display, like `My First Post`.
    pub title: String,
}

/// What an article is, as text.
pub struct ArticleView {
    pub markdown: Seq<char>,
    pub slug: Seq<char>,
    pub title: Seq<char>,
}

impl View for Article {
    type V = ArticleView;

    open spec fn view(&self) -> ArticleView {
        ArticleView { markdown: self.markdown@, slug: self.slug@, title: self.title@ }
    }
}

/// The articles of a list, each as text.
pub open spec fn models(articles: Seq<Article>) -> Seq<ArticleView> {
    articles.map_values(|a: Article| a@)
}

/// What an optional string slice holds.
pub open spec fn opt_view(s: Option<&str>) -> Option<Seq<char>> {
    match s {
        Some(s) => Some(s@),
        None => None,
    }
}

/// Whether `line` opens with the title marker, `#` and one space.
pub open spec fn is_title_line(line: Seq<char>) -> bool {
    line.len() >= 2 && line[0] == '#' && line[1] == ' '
}

/// The first of `ls` that is a title line.
pub open spec fn first_title_line(ls: Seq<Seq<char>>) -> Option<Seq<char>>
    decreases ls.len(),
{
    if ls.len() == 0 {
        None
    } else if is_title_line(ls.first()) {
        Some(ls.first())
    } else {
        first_title_line(ls.drop_first())
    }
}

/// The title that a markdown text declares: what follows the marker on its
/// first title line, trimmed. `None` when no line is a title line.
pub open spec fn title_of(markdown: Seq<char>) -> Option<Seq<char>> {
    match first_title_line(lines(markdown)) {
        Some(line) => Some(trim(line.skip(2))),
        None => None,
    }
}

/// The title that an article gets from its markdown: the declared one, or
/// the empty text.
pub open spec fn title_or_empty(markdown: Seq<char>) -> Seq<char> {
    match title_of(markdown) {
        Some(title) => title,
        None => Seq::empty(),
    }
}

/// The title in the head of a page.
pub open spec fn display_title(title: Seq<char>) -> Seq<char> {
    if title.len() == 0 {
        DEFAULT_TITLE@
    } else {
        title
    }
}

/// Only the first title line counts: `first_title_line` gives a title line
/// before which there is no other, and gives none only where no line is a
/// title line.
pub proof fn lemma_first_title_line(ls: Seq<Seq<char>>) -> (k: int)
    ensures
        first_title_line(ls) is None ==> forall|j: int|
            0 <= j < ls.len() ==> !is_title_line(#[trigger] ls[j]),
        first_title_line(ls) is Some ==> 0 <= k < ls.len() && first_title_line(ls) == Some(ls[k])
            && is_title_line(ls[k]) && forall|j: int| 0 <= j < k ==> !is_title_line(#[trigger] ls[j]),
    decreases ls.len(),
{
    if ls.len() == 0 {
        0
    } else if is_title_line(ls.first()) {
        0
    } else {
        let rest = ls.drop_first();
        let k = lemma_first_title_line(rest);
        assert forall|j: int| 0 < j < ls.len() implies rest[j - 1] == ls[j] by {}
        if first_title_line(ls) is None {
            assert forall|j: int| 0 <= j < ls.len() implies !is_title_line(#[trigger] ls[j]) by {
                if j > 0 {
                    assert(rest[j - 1] == ls[j]);
                }
            }
        } else {
            assert(rest[k] == ls[k + 1]);
            assert forall|j: int| 0 <= j < k + 1 implies !is_title_line(#[trigger] ls[j]) by {
                if j > 0 {
                    assert(rest[j - 1] == ls[j]);
                }
            }
        }
        k + 1
    }
}

/// A hyperlink to the page of the article `slug`, with `text` to click on.
pub open spec fn article_link(slug: Seq<char>, text: Seq<char>) -> Seq<char> {
    LINK_OPEN@ + slug + LINK_AFTER_SLUG@ + text + LINK_CLOSE@
}

/// A navigation control: a link to `target` where there is one, else a
/// disabled marker.
pub open spec fn nav_control(target: Option<Seq<char>>, arrow: Seq<char>) -> Seq<char> {
    match target {
        Some(slug) => article_link(slug, arrow),
        None => DISABLED_OPEN@ + arrow + DISABLED_CLOSE@,
    }
}

/// The slug of the article before position `i`, if there is one.
pub open spec fn previous_slug(articles: Seq<ArticleView>, i: int) -> Option<Seq<char>> {
    if 0 < i <= articles.len() {
        Some(articles[i - 1].slug)
    } else {
        None
    }
}

/// The slug of the article after position `i`, if there is one.
pub open spec fn next_slug(articles: Seq<ArticleView>, i: int) -> Option<Seq<char>> {
    if 0 <= i && i + 1 < articles.len() {
        Some(articles[i + 1].slug)
    } else {
        None
    }
}

/// One link per article, titled, from the last article to the first.
pub open spec fn index_entries(articles: Seq<ArticleView>) -> Seq<Seq<char>> {
    Seq::new(
        articles.len(),
        |k: int|
            article_link(
                articles[articles.len() - 1 - k].slug,
                articles[articles.len() - 1 - k].title,
            ),
    )
}

/// The article index list: the entries, one per line.
pub open spec fn index_links(articles: Seq<ArticleView>) -> Seq<char> {
    join(index_entries(articles), LINK_SEPARATOR@)
}

/// The contact block, present only with an address.
pub open spec fn contact_block(email: Option<Seq<char>>) -> Seq<char> {
    match email {
        Some(address) => CONTACT_OPEN@ + address + CONTACT_CLOSE@,
        None => Seq::empty(),
    }
}

/// The footer of the page at position `i` of `articles`.
pub open spec fn footer_html(articles: Seq<ArticleView>, i: int, email: Option<Seq<char>>) -> Seq<
    char,
> {
    FOOTER_OPEN@ + nav_control(previous_slug(articles, i), ARROW_PREVIOUS@)
        + FOOTER_AFTER_PREVIOUS@ + index_links(articles) + FOOTER_AFTER_LINKS@ + nav_control(
        next_slug(articles, i),
        ARROW_NEXT@,
    ) + FOOTER_AFTER_NEXT@ + contact_block(email) + FOOTER_CLOSE@
}

/// A whole page: the shell around `body` and `footer`, with `title` in its
/// head and a link to the stylesheet `/css`.
pub open spec fn page_html(title: Seq<char>, css: Seq<char>, body: Seq<char>, footer: Seq<char>) -> Seq<
    char,
> {
    PAGE_OPEN@ + title + PAGE_AFTER_TITLE@ + css + PAGE_AFTER_CSS@ + body + PAGE_AFTER_BODY@
        + footer + PAGE_CLOSE@
}

/// The page of `article` as `Article::render` gives it.
pub open spec fn article_page(article: ArticleView, css: Seq<char>, footer: Seq<char>) -> Seq<
    char,
> {
    page_html(display_title(article.title), css, markdown_html(article.markdown), footer)
}

/// Writes a hyperlink to the page of the article `slug` onto `out`.
fn push_link(out: &mut String, slug: &str, text: &str)
    ensures
        final(out)@ == old(out)@ + article_link(slug@, text@),
{
    out.append(LINK_OPEN);
    out.append(slug);
    out.append(LINK_AFTER_SLUG);
    out.append(text);
    out.append(LINK_CLOSE);
}

/// Writes a navigation control onto `out`.
fn push_nav_control(out: &mut String, target: Option<&str>, arrow: &str)
    ensures
        final(out)@ == old(out)@ + nav_control(opt_view(target), arrow@),
{
    match target {
        Some(slug) => {
            push_link(out, slug, arrow);
        },
        None => {
            out.append(DISABLED_OPEN);
            out.append(arrow);
            out.append(DISABLED_CLOSE);
        },
    }
}

/// Assembles a page from its four parts.
pub fn render_page(title: &str, css: &str, body: &str, footer: &str) -> (html: String)
    ensures
        html@ == page_html(title@, css@, body@, footer@),
{
    let mut html = String::new();
    html.append(PAGE_OPEN);
    html.append(title);
    html.append(PAGE_AFTER_TITLE);
    html.append(css);
    html.append(PAGE_AFTER_CSS);
    html.append(body);
    html.append(PAGE_AFTER_BODY);
    html.append(footer);
    html.append(PAGE_CLOSE);
    html
}

impl Article {
    /// Whether the title is the one that the markdown declares.
    pub open spec fn wf(&self) -> bool {
        self.title@ == title_or_empty(self.markdown@)
    }

    /// Makes an article of a markdown text and a slug. Its title is the one
    /// that the markdown declares, or empty.
    pub fn new(markdown: String, slug: String) -> (article: Article)
        ensures
            article@ == (ArticleView {
                markdown: markdown@,
                slug: slug@,
                title: title_or_empty(markdown@),
            }),
            article.wf(),
    {
        let title = match Article::get_title(markdown.as_str()) {
            Some(title) => title.to_owned(),
            None => String::new(),
        };
        Article { markdown, slug, title }
    }

    /// Renders the page of the article: its markdown as HTML, then `footer`,
    /// in a shell that links the stylesheet `/css`.
    pub fn render(&self, css: &str, footer: &str) -> (html: String)
        ensures
            html@ == article_page(self@, css@, footer@),
    {
        let body = self.as_html();
        if self.title.as_str().is_empty() {
            render_page(DEFAULT_TITLE, css, body.as_str(), footer)
        } else {
            render_page(self.title.as_str(), css, body.as_str(), footer)
        }
    }

    /// Renders the footer of the page at position `index` of `articles`:
    /// a home link, the controls to the neighbours, the article index list
    /// and, with an address, the contact block.
    pub fn render_footer(index: usize, articles: &[Article], email: Option<&str>) -> (footer:
        String)
        ensures
            footer@ == footer_html(models(articles@), index as int, opt_view(email)),
    {
        let (previous, next) = Article::get_slugs(index, articles);
        let links = Article::render_article_links(articles);
        let mut footer = String::new();
        footer.append(FOOTER_OPEN);
        push_nav_control(&mut footer, previous, ARROW_PREVIOUS);
        footer.append(FOOTER_AFTER_PREVIOUS);
        footer.append(links.as_str());
        footer.append(FOOTER_AFTER_LINKS);
        push_nav_control(&mut footer, next, ARROW_NEXT);
        footer.append(FOOTER_AFTER_NEXT);
        match email {
            Some(address) => {
                footer.append(CONTACT_OPEN);
                footer.append(address);
                footer.append(CONTACT_CLOSE);
            },
            None => {},
        }
        footer.append(FOOTER_CLOSE);
        footer
    }

    /// Parses the title from markdown: the text of the first line that opens
    /// with `# `, trimmed, or `None` where no line does.
    pub fn get_title(markdown: &str) -> (title: Option<&str>)
        ensures
            opt_view(title) == title_of(markdown@),
    {
        let chars = chars_of(markdown);
        let n = chars.len();
        let mut start: usize = 0;
        assert(chars@.skip(0) == chars@);
        loop
            invariant
                chars@ == markdown@,
                n == chars.len(),
                start <= n,
                first_title_line(lines(chars@)) == first_title_line(lines(chars@.skip(start as int))),
            decreases n - start,
        {
            let mut end: usize = start;
            while end < n && chars[end] != '\n'
                invariant
                    n == chars.len(),
                    start <= end <= n,
                    forall|i: int| start <= i < end ==> chars@[i] != '\n',
                decreases n - end,
            {
                end += 1;
            }
            proof {
                lemma_lines_split(chars@, start as int, end as int);
                let line = chars@.subrange(start as int, end as int);
                if end < n {
                    let rest = lines(chars@.skip(end + 1));
                    assert((seq![line] + rest).drop_first() == rest);
                } else {
                    assert(seq![line].drop_first() == Seq::<Seq<char>>::empty());
                    assert(first_title_line(Seq::<Seq<char>>::empty()) is None);
                }
                if end - start >= 2 {
                    assert(line.skip(2) == chars@.subrange(start + 2, end as int));
                }
            }
            if end - start >= 2 && chars[start] == '#' && chars[start + 1] == ' ' {
                let (a, b) = trim_range(&chars, start + 2, end);
                return Some(markdown.substring_char(a, b));
            }
            if end >= n {
                return None;
            }
            start = end + 1;
        }
    }

    /// The markdown of the article as HTML.
    fn as_html(&self) -> (html: String)
        ensures
            html@ == markdown_html(self.markdown@),
    {
        to_html(self.markdown.as_str())
    }

    /// The slugs of the neighbours of position `i`: the article before it
    /// and the article after it, where there is one.
    pub fn get_slugs(i: usize, articles: &[Article]) -> (slugs: (Option<&str>, Option<&str>))
        ensures
            opt_view(slugs.0) == previous_slug(models(articles@), i as int),
            opt_view(slugs.1) == next_slug(models(articles@), i as int),
    {
        let n = articles.len();
        let previous: Option<&str> = if 0 < i && i <= n {
            Some(articles[i - 1].slug.as_str())
        } else {
            None
        };
        let next: Option<&str> = if n > 0 && i < n - 1 {
            Some(articles[i + 1].slug.as_str())
        } else {
            None
        };
        (previous, next)
    }

    /// Renders the article index list: one titled link per article, one per
    /// line, from the last article to the first.
    pub fn render_article_links(articles: &[Article]) -> (links: String)
        ensures
            links@ == index_links(models(articles@)),
    {
        let n = articles.len();
        let ghost entries = index_entries(models(articles@));
        let mut links = String::new();
        let mut k: usize = 0;
        while k < n
            invariant
                n == articles.len(),
                entries == index_entries(models(articles@)),
                k <= n,
                links@ == join(entries.take(k as int), LINK_SEPARATOR@),
            decreases n - k,
        {
            if k > 0 {
                links.append(LINK_SEPARATOR);
            }
            let article = &articles[n - 1 - k];
            push_link(&mut links, article.slug.as_str(), article.title.as_str());
            proof {
                assert(entries.take(k + 1).drop_last() == entries.take(k as int));
                assert(entries.take(k + 1).last() == article_link(article.slug@, article.title@));
            }
            k += 1;
        }
        assert(entries.take(n as int) == entries);
        links
    }
}

} // verus!
