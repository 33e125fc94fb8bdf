use blarf::article::Article;
use blarf::order::{slug_precedes, sort_by_slug};

fn article(slug: &str, markdown: &str) -> Article {
    Article::new(String::from(markdown), String::from(slug))
}

fn slugs(articles: &[Article]) -> Vec<&str> {
    articles.iter().map(|a| a.slug.as_str()).collect()
}

#[test]
fn sorts_ascending_by_slug() {
    let sorted = sort_by_slug(vec![article("3-c", "c"), article("1-a", "a"), article("2-b", "b")]);
    assert_eq!(slugs(&sorted), vec!["1-a", "2-b", "3-c"]);
    assert_eq!(sorted[0].markdown, "a");
    assert_eq!(sorted[1].markdown, "b");
    assert_eq!(sorted[2].markdown, "c");
}

#[test]
fn sorting_nothing_and_one() {
    assert_eq!(sort_by_slug(vec![]), vec![]);
    assert_eq!(sort_by_slug(vec![article("x", "# X")]), vec![article("x", "# X")]);
}

#[test]
fn order_is_by_bytes_not_by_number_or_locale() {
    let sorted = sort_by_slug(vec![
        article("10-ten", ""),
        article("2-two", ""),
        article("a", ""),
        article("B", ""),
        article("é", ""),
        article("z", ""),
        article("", ""),
        article("ab", ""),
    ]);
    assert_eq!(slugs(&sorted), vec!["", "10-ten", "2-two", "B", "a", "ab", "z", "é"]);
}

#[test]
fn order_agrees_with_the_standard_library() {
    let names = ["", "a", "A", "ab", "b", "aa", "1", "10", "2", "é", "e", "z", "日本", "~", "-", "a-b", "a_b", "\u{10ffff}", "\u{7f}", "\u{80}"];
    for x in names {
        for y in names {
            assert_eq!(slug_precedes(x, y), x <= y, "for {:?} and {:?}", x, y);
        }
    }
    let mut by_std: Vec<&str> = names.to_vec();
    by_std.sort();
    let sorted = sort_by_slug(names.iter().rev().map(|n| article(n, "")).collect());
    assert_eq!(slugs(&sorted), by_std);
}

#[test]
fn every_slug_precedes_itself() {
    assert!(slug_precedes("same", "same"));
    assert!(slug_precedes("", ""));
}

#[test]
fn a_text_precedes_what_it_begins() {
    assert!(slug_precedes("post", "post-2"));
    assert!(!slug_precedes("post-2", "post"));
    assert!(slug_precedes("", "a"));
    assert!(!slug_precedes("a", ""));
}

#[test]
fn articles_with_one_slug_keep_their_order() {
    let sorted = sort_by_slug(vec![
        article("b", "first b"),
        article("a", "first a"),
        article("b", "second b"),
        article("a", "second a"),
        article("b", "third b"),
    ]);
    let texts: Vec<&str> = sorted.iter().map(|a| a.markdown.as_str()).collect();
    assert_eq!(texts, vec!["first a", "second a", "first b", "second b", "third b"]);
}

#[test]
fn sorting_keeps_every_article() {
    let input = vec![article("q", "# Q"), article("m", "# M"), article("q", "# Q"), article("a", "body")];
    let sorted = sort_by_slug(input.clone());
    assert_eq!(sorted.len(), input.len());
    for a in &input {
        let before = input.iter().filter(|b| *b == a).count();
        let after = sorted.iter().filter(|b| *b == a).count();
        assert_eq!(before, after);
    }
}

#[test]
fn sorted_order_does_not_depend_on_load_order() {
    let orders: [[usize; 3]; 6] = [[0, 1, 2], [0, 2, 1], [1, 0, 2], [1, 2, 0], [2, 0, 1], [2, 1, 0]];
    let base = [article("1-a", "# A"), article("2-b", "# B"), article("3-c", "# C")];
    for order in orders {
        let input: Vec<Article> = order.iter().map(|&i| base[i].clone()).collect();
        assert_eq!(sort_by_slug(input), base.to_vec());
    }
}

#[test]
fn sorting_what_is_sorted_changes_nothing() {
    let once = sort_by_slug(vec![article("c", ""), article("a", ""), article("b", "")]);
    let twice = sort_by_slug(once.clone());
    assert_eq!(once, twice);
}
