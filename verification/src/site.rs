//! The files of a site: one page per article and the home page.

use crate::article::{article_page, footer_html, models, opt_view, Article, ArticleView};
use crate::order::{
    distinct_slugs, lemma_bytes_le_reflexive, lemma_distinct_slugs_permuted,
    lemma_sort_ignores_load_order, lemma_sort_permutes, lemma_sort_sorts, slug_le, sort_by_slug,
    sort_spec,
};
use vstd::prelude::*;
use vstd::seq_lib::to_multiset_contains;
use vstd::utf8::encode_utf8;

verus! {

/// The directory of the article pages, in the site.
pub const PAGES_DIR: &'static str = "articles";

/// What stands before the slug in the path of an article page.
pub const PAGE_PATH_OPEN: &'static str = "articles/";

/// What stands behind the slug in the path of an article page.
pub const PAGE_PATH_CLOSE: &'static str = ".html";

/// The path of the home page.
pub const HOME_PAGE: &'static str = "index.html";

/// A file of the site: its path below the root of the site, and what it
/// holds.
#[derive(Debug, Clone, PartialEq, Eq)]
pub struct SiteFile {
    pub path: String,
    pub contents: String,
}

/// What a file of the site is, as text.
pub struct SiteFileView {
    pub path: Seq<char>,
    pub contents: Seq<char>,
}

impl View for SiteFile {
    type V = SiteFileView;

    open spec fn view(&self) -> SiteFileView {
        SiteFileView { path: self.path@, contents: self.contents@ }
    }
}

/// The files of a list, each as text.
pub open spec fn file_models(files: Seq<SiteFile>) -> Seq<SiteFileView> {
    files.map_values(|f: SiteFile| f@)
}

/// The path of the page of the article `slug`.
pub open spec fn page_path(slug: Seq<char>) -> Seq<char> {
    PAGE_PATH_OPEN@ + slug + PAGE_PATH_CLOSE@
}

/// The page at position `i` of `articles`, with its footer.
pub open spec fn page_at(
    articles: Seq<ArticleView>,
    i: int,
    email: Option<Seq<char>>,
    css: Seq<char>,
) -> Seq<char> {
    article_page(articles[i], css, footer_html(articles, i, email))
}

/// The file of the page at position `i` of `articles`.
pub open spec fn page_file(
    articles: Seq<ArticleView>,
    i: int,
    email: Option<Seq<char>>,
    css: Seq<char>,
) -> SiteFileView {
    SiteFileView { path: page_path(articles[i].slug), contents: page_at(articles, i, email, css) }
}

/// The files of the site of `articles`, taken in the order given: the page
/// of each article, then the home page, which holds what the page of the
/// last article holds. Without articles there is no file.
pub open spec fn site_spec(articles: Seq<ArticleView>, email: Option<Seq<char>>, css: Seq<char>) -> Seq<
    SiteFileView,
> {
    if articles.len() == 0 {
        Seq::empty()
    } else {
        Seq::new(articles.len(), |i: int| page_file(articles, i, email, css)).push(
            SiteFileView {
                path: HOME_PAGE@,
                contents: page_at(articles, articles.len() - 1, email, css),
            },
        )
    }
}

/// Pages of different slugs have different paths.
pub proof fn lemma_page_path_injective(a: Seq<char>, b: Seq<char>)
    requires
        page_path(a) == page_path(b),
    ensures
        a == b,
{
    let open = PAGE_PATH_OPEN@;
    let close = PAGE_PATH_CLOSE@;
    assert(page_path(a).len() == open.len() + a.len() + close.len());
    assert(page_path(b).len() == open.len() + b.len() + close.len());
    assert forall|k: int| 0 <= k < a.len() implies a[k] == b[k] by {
        assert(page_path(a)[open.len() + k] == a[k]);
        assert(page_path(b)[open.len() + k] == b[k]);
    }
    assert(a =~= b);
}

/// No article page takes the path of the home page.
pub proof fn lemma_page_path_is_not_home(slug: Seq<char>)
    ensures
        page_path(slug) != HOME_PAGE@,
        page_path(slug).len() >= PAGE_PATH_OPEN@.len(),
        page_path(slug).take(PAGE_PATH_OPEN@.len() as int) == PAGE_PATH_OPEN@,
{
    reveal_strlit("articles/");
    reveal_strlit("index.html");
    assert(page_path(slug)[0] == 'a');
    assert(HOME_PAGE@[0] == 'i');
    assert(page_path(slug).take(PAGE_PATH_OPEN@.len() as int) =~= PAGE_PATH_OPEN@);
}

/// The files of one or more articles, none of which share a slug, taken in
/// any order: one file below `articles/` for each article, each at a path
/// of its own, and the home page beside them; the home page holds what the
/// file of the last article holds.
pub proof fn lemma_site_has_a_file_per_article(
    articles: Seq<ArticleView>,
    email: Option<Seq<char>>,
    css: Seq<char>,
)
    requires
        articles.len() >= 1,
        distinct_slugs(articles),
    ensures
        site_spec(articles, email, css).len() == articles.len() + 1,
        forall|i: int|
            0 <= i < articles.len() ==> (#[trigger] site_spec(articles, email, css)[i]).path
                == page_path(articles[i].slug),
        forall|i: int|
            0 <= i < articles.len() ==> (#[trigger] site_spec(articles, email, css)[i]).path.take(
                PAGE_PATH_OPEN@.len() as int,
            ) == PAGE_PATH_OPEN@,
        forall|i: int, j: int|
            0 <= i < j <= articles.len() ==> (#[trigger] site_spec(articles, email, css)[i]).path
                != (#[trigger] site_spec(articles, email, css)[j]).path,
        site_spec(articles, email, css).last().path == HOME_PAGE@,
        site_spec(articles, email, css).last().contents == site_spec(
            articles,
            email,
            css,
        )[articles.len() - 1].contents,
{
    let site = site_spec(articles, email, css);
    let n = articles.len() as int;
    assert forall|i: int| 0 <= i < n implies (#[trigger] site[i]).path.take(
        PAGE_PATH_OPEN@.len() as int,
    ) == PAGE_PATH_OPEN@ by {
        lemma_page_path_is_not_home(articles[i].slug);
    }
    assert forall|i: int, j: int| 0 <= i < j <= n implies (#[trigger] site[i]).path != (
    #[trigger] site[j]).path by {
        if j == n {
            lemma_page_path_is_not_home(articles[i].slug);
        } else {
            assert(articles[i].slug != articles[j].slug);
            if site[i].path == site[j].path {
                lemma_page_path_injective(articles[i].slug, articles[j].slug);
            }
        }
    }
}

/// The site that is built of one or more articles, none of which share a
/// slug: one file below `articles/` for each article, each at a path of its
/// own, and the home page beside them; the home page holds what the file of
/// the article with the greatest slug holds. Returns the position of that
/// article.
pub proof fn lemma_built_site(
    articles: Seq<ArticleView>,
    email: Option<Seq<char>>,
    css: Seq<char>,
) -> (last: int)
    requires
        articles.len() >= 1,
        distinct_slugs(articles),
    ensures
        site_spec(sort_spec(articles), email, css).len() == articles.len() + 1,
        forall|i: int|
            0 <= i < articles.len() ==> (#[trigger] site_spec(
                sort_spec(articles),
                email,
                css,
            )[i]).path.take(PAGE_PATH_OPEN@.len() as int) == PAGE_PATH_OPEN@,
        forall|i: int, j: int|
            0 <= i < j <= articles.len() ==> (#[trigger] site_spec(
                sort_spec(articles),
                email,
                css,
            )[i]).path != (#[trigger] site_spec(sort_spec(articles), email, css)[j]).path,
        forall|k: int|
            #![trigger articles[k]]
            0 <= k < articles.len() ==> exists|i: int|
                0 <= i < articles.len() && (#[trigger] site_spec(
                    sort_spec(articles),
                    email,
                    css,
                )[i]).path == page_path(articles[k].slug),
        site_spec(sort_spec(articles), email, css).last().path == HOME_PAGE@,
        0 <= last < articles.len(),
        forall|k: int|
            0 <= k < articles.len() ==> slug_le(
                (#[trigger] articles[k]).slug,
                articles[last].slug,
            ),
        site_spec(sort_spec(articles), email, css)[articles.len() - 1].path == page_path(
            articles[last].slug,
        ),
        site_spec(sort_spec(articles), email, css).last().contents == site_spec(
            sort_spec(articles),
            email,
            css,
        )[articles.len() - 1].contents,
{
    let sorted = sort_spec(articles);
    let site = site_spec(sorted, email, css);
    let n = articles.len() as int;
    lemma_sort_sorts(articles);
    lemma_sort_permutes(articles);
    lemma_distinct_slugs_permuted(articles, sorted);
    lemma_site_has_a_file_per_article(sorted, email, css);
    to_multiset_contains(sorted, sorted.last());
    to_multiset_contains(articles, sorted.last());
    assert(sorted.contains(sorted[n - 1]));
    let last = choose|last: int| 0 <= last < n && articles[last] == sorted[n - 1];
    assert forall|k: int| 0 <= k < n implies slug_le((#[trigger] articles[k]).slug, articles[last].slug)
        && exists|i: int| 0 <= i < n && (#[trigger] site[i]).path == page_path(articles[k].slug) by {
        to_multiset_contains(sorted, articles[k]);
        to_multiset_contains(articles, articles[k]);
        assert(articles.contains(articles[k]));
        let m = choose|m: int| 0 <= m < sorted.len() && sorted[m] == articles[k];
        if m < n - 1 {
            assert(slug_le(sorted[m].slug, sorted[n - 1].slug));
        } else {
            lemma_bytes_le_reflexive(encode_utf8(sorted[m].slug));
        }
        assert(site[m].path == page_path(articles[k].slug));
    }
    last
}

/// The site does not depend on the order in which the articles were
/// loaded: two lists that hold the same articles, none of which share a
/// slug, give the same files.
pub proof fn lemma_site_ignores_load_order(
    a: Seq<ArticleView>,
    b: Seq<ArticleView>,
    email: Option<Seq<char>>,
    css: Seq<char>,
)
    requires
        distinct_slugs(a),
        a.to_multiset() == b.to_multiset(),
    ensures
        site_spec(sort_spec(a), email, css) == site_spec(sort_spec(b), email, css),
{
    lemma_sort_ignores_load_order(a, b);
}

/// Renders the files of the site of `articles`, taken in the order given:
/// the page of each, then the home page as a copy of the last page.
pub fn site_pages(articles: &[Article], email: Option<&str>, css: &str) -> (files: Vec<SiteFile>)
    ensures
        file_models(files@) == site_spec(models(articles@), opt_view(email), css@),
{
    let n = articles.len();
    let ghost all = models(articles@);
    let mut files: Vec<SiteFile> = Vec::new();
    let mut i: usize = 0;
    while i < n
        invariant
            n == articles.len(),
            all == models(articles@),
            i <= n,
            files@.len() == i,
            forall|k: int|
                0 <= k < i ==> (#[trigger] files@[k])@ == page_file(all, k, opt_view(email), css@),
        decreases n - i,
    {
        let article = &articles[i];
        let footer = Article::render_footer(i, articles, email);
        let contents = article.render(css, footer.as_str());
        let mut path = String::new();
        path.append(PAGE_PATH_OPEN);
        path.append(article.slug.as_str());
        path.append(PAGE_PATH_CLOSE);
        assert(all[i as int] == article@);
        files.push(SiteFile { path, contents });
        i += 1;
    }
    if n > 0 {
        let home = SiteFile { path: HOME_PAGE.to_owned(), contents: files[n - 1].contents.clone() };
        files.push(home);
    }
    assert(file_models(files@) == site_spec(all, opt_view(email), css@));
    files
}

/// Builds the files of the site of `articles`, whatever order they come in:
/// sorts them by slug, then renders the page of each and the home page.
pub fn build_site(articles: Vec<Article>, email: Option<&str>, css: &str) -> (files: Vec<SiteFile>)
    ensures
        file_models(files@) == site_spec(sort_spec(models(articles@)), opt_view(email), css@),
{
    let sorted = sort_by_slug(articles);
    site_pages(sorted.as_slice(), email, css)
}

} // verus!
