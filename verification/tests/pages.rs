use blarf::article::{render_page, Article};

fn article(slug: &str, markdown: &str) -> Article {
    Article::new(String::from(markdown), String::from(slug))
}

fn three() -> Vec<Article> {
    vec![
        article("a", "# Alpha\nfirst"),
        article("b", "# Beta\nsecond"),
        article("c", "# Gamma\nthird"),
    ]
}

#[test]
fn page_is_the_shell_around_its_parts() {
    let html = render_page("T", "s.css", "<p>B</p>", "<footer>F</footer>");
    let expected = "
            <!doctype html>
            <html>
                <head>
                    <title>T</title>
                    <link rel=\"stylesheet\" href=\"/s.css\">
                    <meta charset=\"utf-8\">
                    <meta name=\"viewport\" content=\"user-scalable=no, width=device-width, initial-scale=1\">
                </head>
                <body>
                    <main>
                        <div class=\"article\">
                            <p>B</p>
                            <footer>F</footer>
                        </div>
                    </main>
                </body>
            </html>
            ";
    assert_eq!(html, expected);
}

#[test]
fn page_of_empty_parts() {
    let html = render_page("", "", "", "");
    assert!(html.contains("<title></title>"));
    assert!(html.contains("<link rel=\"stylesheet\" href=\"/\">"));
    assert!(html.starts_with("\n            <!doctype html>\n"));
    assert!(html.ends_with("</html>\n            "));
}

#[test]
fn render_converts_the_markdown() {
    let a = article("1-a", "# Hello\n\nSome *emphasis* and a [link](http://example.com).\n\n* one\n* two\n\nthen\n\n    code\n");
    let html = a.render("styles.css", "FOOTER");
    assert!(html.contains("<h1>Hello</h1>"));
    assert!(html.contains("<p>Some <em>emphasis</em> and a <a href=\"http://example.com\">link</a>.</p>"));
    assert!(html.contains("<ul>\n<li>one</li>\n<li>two</li>\n</ul>"));
    assert!(html.contains("<pre><code>code\n</code></pre>"));
    assert!(!html.contains("# Hello"));
}

#[test]
fn render_is_the_page_of_the_converted_markdown() {
    let a = article("1-a", "# First\nbody");
    let html = a.render("my.css", "<p>copyright</p>");
    let expected = render_page("First", "my.css", "<h1>First</h1>\n<p>body</p>\n", "<p>copyright</p>");
    assert_eq!(html, expected);
}

#[test]
fn render_puts_title_and_stylesheet_in_the_head() {
    let a = article("1-a", "# First\nbody");
    let html = a.render("my.css", "");
    assert!(html.contains("<title>First</title>"));
    assert!(html.contains("<link rel=\"stylesheet\" href=\"/my.css\">"));
    assert!(html.contains("<meta charset=\"utf-8\">"));
    assert!(html.contains("<meta name=\"viewport\""));
}

#[test]
fn render_falls_back_to_the_default_title() {
    let a = article("1-a", "no heading here");
    assert_eq!(a.title, "");
    let html = a.render("my.css", "");
    assert!(html.contains("<title>Untitled</title>"));
    assert_eq!(html, render_page("Untitled", "my.css", "<p>no heading here</p>\n", ""));
}

#[test]
fn render_puts_the_footer_behind_the_body() {
    let a = article("1-a", "body");
    let html = a.render("my.css", "<!--footer-->");
    let body = html.find("<p>body</p>").unwrap();
    let footer = html.find("<!--footer-->").unwrap();
    assert!(body < footer);
}

#[test]
fn footer_in_the_middle_links_both_neighbours() {
    let articles = three();
    let footer = Article::render_footer(1, &articles, None);
    assert!(footer.contains("<a href=\"/articles/a.html\">&larr;</a>"));
    assert!(footer.contains("<a href=\"/articles/c.html\">&rarr;</a>"));
    assert!(!footer.contains("class=\"disabled\""));
}

#[test]
fn footer_of_the_first_has_no_previous() {
    let articles = three();
    let footer = Article::render_footer(0, &articles, None);
    assert!(footer.contains("<span class=\"disabled\">&larr;</span>"));
    assert!(footer.contains("<a href=\"/articles/b.html\">&rarr;</a>"));
    assert!(!footer.contains("&larr;</a>"));
}

#[test]
fn footer_of_the_last_has_no_next() {
    let articles = three();
    let footer = Article::render_footer(2, &articles, None);
    assert!(footer.contains("<a href=\"/articles/b.html\">&larr;</a>"));
    assert!(footer.contains("<span class=\"disabled\">&rarr;</span>"));
    assert!(!footer.contains("&rarr;</a>"));
}

#[test]
fn footer_of_a_single_article_has_no_neighbours() {
    let articles = vec![article("only", "# Only")];
    let footer = Article::render_footer(0, &articles, None);
    assert!(footer.contains("<span class=\"disabled\">&larr;</span>"));
    assert!(footer.contains("<span class=\"disabled\">&rarr;</span>"));
}

#[test]
fn footer_text_is_exact() {
    let articles = vec![article("a", "# Alpha"), article("b", "# Beta")];
    let footer = Article::render_footer(0, &articles, Some("x@y.com"));
    let expected = "
        <footer>
            <div class=\"nav\">
                <a href=\"/\">&uarr;</a>
            </div>
            <div class=\"nav\">
                <span class=\"disabled\">&larr;</span>
                <span class=\"article-list\">
                    <a href=\"/articles/b.html\">Beta</a>
<a href=\"/articles/a.html\">Alpha</a>
                </span>
                <a href=\"/articles/b.html\">&rarr;</a>
            </div>
            
                        <div class=\"contact\">
                            <a id=\"contact\" href=\"mailto:x@y.com\">&#9993;</a>
                        </div>
            
        </footer>
        ";
    assert_eq!(footer, expected);
}

#[test]
fn footer_without_email_has_no_contact_block() {
    let articles = vec![article("a", "# Alpha"), article("b", "# Beta")];
    let footer = Article::render_footer(1, &articles, None);
    let expected = "
        <footer>
            <div class=\"nav\">
                <a href=\"/\">&uarr;</a>
            </div>
            <div class=\"nav\">
                <a href=\"/articles/a.html\">&larr;</a>
                <span class=\"article-list\">
                    <a href=\"/articles/b.html\">Beta</a>
<a href=\"/articles/a.html\">Alpha</a>
                </span>
                <span class=\"disabled\">&rarr;</span>
            </div>
            
        </footer>
        ";
    assert_eq!(footer, expected);
    assert!(!footer.contains("mailto:"));
    assert!(!footer.contains("contact"));
}

#[test]
fn footer_has_the_home_link() {
    let footer = Article::render_footer(0, &three(), None);
    assert!(footer.contains("<a href=\"/\">&uarr;</a>"));
}

#[test]
fn index_list_is_the_same_on_every_page() {
    let articles = three();
    let list = Article::render_article_links(&articles);
    for i in 0..articles.len() {
        let footer = Article::render_footer(i, &articles, Some("me@example.com"));
        assert!(footer.contains(&list));
    }
}

#[test]
fn index_list_runs_from_the_last_article_to_the_first() {
    let list = Article::render_article_links(&three());
    assert_eq!(
        list,
        "<a href=\"/articles/c.html\">Gamma</a>\n<a href=\"/articles/b.html\">Beta</a>\n<a href=\"/articles/a.html\">Alpha</a>"
    );
}

#[test]
fn index_list_of_one_and_of_none() {
    assert_eq!(Article::render_article_links(&[]), "");
    assert_eq!(
        Article::render_article_links(&[article("solo", "# Solo")]),
        "<a href=\"/articles/solo.html\">Solo</a>"
    );
}

#[test]
fn index_list_shows_an_empty_title_as_it_is() {
    assert_eq!(
        Article::render_article_links(&[article("plain", "no heading")]),
        "<a href=\"/articles/plain.html\"></a>"
    );
}

#[test]
fn neighbours_of_each_position() {
    let articles = three();
    assert_eq!(Article::get_slugs(0, &articles), (None, Some("b")));
    assert_eq!(Article::get_slugs(1, &articles), (Some("a"), Some("c")));
    assert_eq!(Article::get_slugs(2, &articles), (Some("b"), None));
}

#[test]
fn neighbours_beyond_the_list() {
    let articles = three();
    assert_eq!(Article::get_slugs(3, &articles), (Some("c"), None));
    assert_eq!(Article::get_slugs(4, &articles), (None, None));
    assert_eq!(Article::get_slugs(usize::MAX, &articles), (None, None));
    assert_eq!(Article::get_slugs(0, &[]), (None, None));
    assert_eq!(Article::get_slugs(1, &[]), (None, None));
}
