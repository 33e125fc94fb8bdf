//! The order of articles: ascending by slug, byte by byte, whatever order
//! they were loaded in.

use crate::article::{models, Article, ArticleView};
use vstd::prelude::*;
use vstd::seq_lib::{to_multiset_contains, to_multiset_insert, to_multiset_len, to_multiset_remove};
use vstd::utf8::{encode_utf8, encode_utf8_decode_utf8};

verus! {

/// `a` is `b` or comes before it in the order of the dictionary, where a
/// byte comes before every greater byte and a text before every text that
/// it begins.
pub open spec fn bytes_le(a: Seq<u8>, b: Seq<u8>) -> bool
    decreases a.len(),
{
    if a.len() == 0 {
        true
    } else if b.len() == 0 {
        false
    } else if a.first() != b.first() {
        a.first() < b.first()
    } else {
        bytes_le(a.drop_first(), b.drop_first())
    }
}

/// The slug `a` is `b` or comes before it: their UTF-8 bytes are compared.
pub open spec fn slug_le(a: Seq<char>, b: Seq<char>) -> bool {
    bytes_le(encode_utf8(a), encode_utf8(b))
}

/// Every article of `s` comes before those behind it.
pub open spec fn sorted_by_slug(s: Seq<ArticleView>) -> bool {
    forall|i: int, j: int| 0 <= i < j < s.len() ==> slug_le(#[trigger] s[i].slug, #[trigger] s[j].slug)
}

/// No two articles of `s` share a slug.
pub open spec fn distinct_slugs(s: Seq<ArticleView>) -> bool {
    forall|i: int, j: int| 0 <= i < j < s.len() ==> #[trigger] s[i].slug != #[trigger] s[j].slug
}

/// The sorted list `s` with `x` put in: before the first article whose slug
/// does not come before that of `x`.
pub open spec fn insert_sorted(s: Seq<ArticleView>, x: ArticleView) -> Seq<ArticleView>
    decreases s.len(),
{
    if s.len() == 0 || slug_le(x.slug, s.first().slug) {
        seq![x] + s
    } else {
        seq![s.first()] + insert_sorted(s.drop_first(), x)
    }
}

/// The articles of `s` in ascending order of their slugs. Articles that
/// share a slug keep the order that they have in `s`.
pub open spec fn sort_spec(s: Seq<ArticleView>) -> Seq<ArticleView>
    decreases s.len(),
{
    if s.len() == 0 {
        Seq::empty()
    } else {
        insert_sorted(sort_spec(s.drop_first()), s.first())
    }
}

/// Every text is at most itself.
pub proof fn lemma_bytes_le_reflexive(a: Seq<u8>)
    ensures
        bytes_le(a, a),
    decreases a.len(),
{
    if a.len() > 0 {
        lemma_bytes_le_reflexive(a.drop_first());
    }
}

/// Of two texts one is at most the other.
pub proof fn lemma_bytes_le_total(a: Seq<u8>, b: Seq<u8>)
    ensures
        bytes_le(a, b) || bytes_le(b, a),
    decreases a.len(),
{
    if a.len() > 0 && b.len() > 0 && a.first() == b.first() {
        lemma_bytes_le_total(a.drop_first(), b.drop_first());
    }
}

/// The order passes on: from `a` to `b` and from `b` to `c` gives from `a`
/// to `c`.
pub proof fn lemma_bytes_le_transitive(a: Seq<u8>, b: Seq<u8>, c: Seq<u8>)
    requires
        bytes_le(a, b),
        bytes_le(b, c),
    ensures
        bytes_le(a, c),
    decreases a.len(),
{
    if a.len() > 0 && a.first() == b.first() && b.first() == c.first() {
        lemma_bytes_le_transitive(a.drop_first(), b.drop_first(), c.drop_first());
    }
}

/// Two texts that are each at most the other are one text.
pub proof fn lemma_bytes_le_antisymmetric(a: Seq<u8>, b: Seq<u8>)
    requires
        bytes_le(a, b),
        bytes_le(b, a),
    ensures
        a == b,
    decreases a.len(),
{
    if a.len() > 0 {
        lemma_bytes_le_antisymmetric(a.drop_first(), b.drop_first());
        assert(a == seq![a.first()] + a.drop_first());
        assert(b == seq![b.first()] + b.drop_first());
    } else {
        assert(a == b);
    }
}

/// The order is decided where two texts first differ: up to there they
/// agree, and the text that ends there, or has the smaller byte there,
/// comes first.
pub proof fn lemma_bytes_le_at_first_difference(a: Seq<u8>, b: Seq<u8>, k: int)
    requires
        0 <= k <= a.len(),
        k <= b.len(),
        a.take(k) == b.take(k),
        k == a.len() || k == b.len() || a[k] != b[k],
    ensures
        bytes_le(a, b) <==> k == a.len() || (k < b.len() && a[k] < b[k]),
    decreases k,
{
    if k > 0 {
        assert(a.first() == a.take(k)[0]);
        assert(b.first() == b.take(k)[0]);
        assert(a.drop_first().take(k - 1) == a.take(k).drop_first());
        assert(b.drop_first().take(k - 1) == b.take(k).drop_first());
        lemma_bytes_le_at_first_difference(a.drop_first(), b.drop_first(), k - 1);
    }
}

/// Two slugs that are each at most the other are one slug.
pub proof fn lemma_slug_le_antisymmetric(a: Seq<char>, b: Seq<char>)
    requires
        slug_le(a, b),
        slug_le(b, a),
    ensures
        a == b,
{
    lemma_bytes_le_antisymmetric(encode_utf8(a), encode_utf8(b));
    encode_utf8_decode_utf8(a);
    encode_utf8_decode_utf8(b);
}

/// Putting `x` into a sorted list with `insert_sorted` gives a sorted list
/// that holds `x` and what the list held, and nothing else.
pub proof fn lemma_insert_sorted(s: Seq<ArticleView>, x: ArticleView)
    requires
        sorted_by_slug(s),
    ensures
        sorted_by_slug(insert_sorted(s, x)),
        insert_sorted(s, x).len() == s.len() + 1,
        insert_sorted(s, x).to_multiset() == s.to_multiset().insert(x),
        forall|k: int|
            0 <= k < insert_sorted(s, x).len() ==> #[trigger] insert_sorted(s, x)[k] == x
                || s.contains(insert_sorted(s, x)[k]),
    decreases s.len(),
{
    let r = insert_sorted(s, x);
    if s.len() == 0 || slug_le(x.slug, s.first().slug) {
        assert(r == s.insert(0, x));
        to_multiset_insert(s, 0, x);
        assert forall|i: int, j: int| 0 <= i < j < r.len() implies slug_le(
            #[trigger] r[i].slug,
            #[trigger] r[j].slug,
        ) by {
            if i == 0 {
                if j > 1 {
                    assert(slug_le(s[0].slug, s[j - 1].slug));
                    lemma_bytes_le_transitive(
                        encode_utf8(x.slug),
                        encode_utf8(s[0].slug),
                        encode_utf8(s[j - 1].slug),
                    );
                }
            } else {
                assert(slug_le(s[i - 1].slug, s[j - 1].slug));
            }
        }
        assert forall|k: int| 0 <= k < r.len() implies #[trigger] r[k] == x || s.contains(
            r[k],
        ) by {
            if k > 0 {
                assert(s[k - 1] == r[k]);
            }
        }
    } else {
        let head = s.first();
        let tail = s.drop_first();
        let rest = insert_sorted(tail, x);
        assert(sorted_by_slug(tail)) by {
            assert forall|i: int, j: int| 0 <= i < j < tail.len() implies slug_le(
                #[trigger] tail[i].slug,
                #[trigger] tail[j].slug,
            ) by {
                assert(slug_le(s[i + 1].slug, s[j + 1].slug));
            }
        }
        lemma_insert_sorted(tail, x);
        lemma_bytes_le_total(encode_utf8(x.slug), encode_utf8(head.slug));
        assert forall|i: int, j: int| 0 <= i < j < r.len() implies slug_le(
            #[trigger] r[i].slug,
            #[trigger] r[j].slug,
        ) by {
            if i == 0 {
                let y = rest[j - 1];
                if y != x {
                    let k = choose|k: int| 0 <= k < tail.len() && tail[k] == y;
                    assert(slug_le(s[0].slug, s[k + 1].slug));
                }
            } else {
                assert(slug_le(rest[i - 1].slug, rest[j - 1].slug));
            }
        }
        assert(r == rest.insert(0, head));
        to_multiset_insert(rest, 0, head);
        assert(s == tail.insert(0, head));
        to_multiset_insert(tail, 0, head);
        assert(r.to_multiset() =~= s.to_multiset().insert(x));
        assert forall|k: int| 0 <= k < r.len() implies #[trigger] r[k] == x || s.contains(
            r[k],
        ) by {
            if k == 0 {
                assert(s[0] == r[0]);
            } else {
                let y = rest[k - 1];
                if y != x {
                    let m = choose|m: int| 0 <= m < tail.len() && tail[m] == y;
                    assert(s[m + 1] == y);
                }
            }
        }
    }
}

/// What `sort_spec` gives is sorted.
pub proof fn lemma_sort_sorts(s: Seq<ArticleView>)
    ensures
        sorted_by_slug(sort_spec(s)),
        sort_spec(s).len() == s.len(),
    decreases s.len(),
{
    if s.len() > 0 {
        lemma_sort_sorts(s.drop_first());
        lemma_insert_sorted(sort_spec(s.drop_first()), s.first());
    }
}

/// What `sort_spec` gives holds the articles that it was given, each as
/// often as it was given.
pub proof fn lemma_sort_permutes(s: Seq<ArticleView>)
    ensures
        sort_spec(s).to_multiset() == s.to_multiset(),
    decreases s.len(),
{
    if s.len() > 0 {
        lemma_sort_sorts(s.drop_first());
        lemma_sort_permutes(s.drop_first());
        lemma_insert_sorted(sort_spec(s.drop_first()), s.first());
        assert(s == s.drop_first().insert(0, s.first()));
        to_multiset_insert(s.drop_first(), 0, s.first());
    } else {
        assert(sort_spec(s) == s);
    }
}

/// A list that holds the articles of a list without shared slugs, each as
/// often, has no shared slugs either.
pub proof fn lemma_distinct_slugs_permuted(a: Seq<ArticleView>, c: Seq<ArticleView>)
    requires
        distinct_slugs(a),
        a.to_multiset() == c.to_multiset(),
    ensures
        distinct_slugs(c),
{
    assert(a.no_duplicates()) by {
        assert forall|i: int, j: int|
            (0 <= i < a.len() && 0 <= j < a.len() && i != j) implies a[i] != a[j] by {
            if i < j {
                assert(a[i].slug != a[j].slug);
            } else {
                assert(a[j].slug != a[i].slug);
            }
        }
    }
    a.lemma_multiset_has_no_duplicates();
    c.lemma_multiset_has_no_duplicates_conv();
    assert forall|i: int, j: int| 0 <= i < j < c.len() implies #[trigger] c[i].slug
        != #[trigger] c[j].slug by {
        to_multiset_contains(c, c[i]);
        to_multiset_contains(c, c[j]);
        to_multiset_contains(a, c[i]);
        to_multiset_contains(a, c[j]);
        assert(c.contains(c[i]));
        assert(c.contains(c[j]));
        let p = choose|p: int| 0 <= p < a.len() && a[p] == c[i];
        let q = choose|q: int| 0 <= q < a.len() && a[q] == c[j];
        if p < q {
            assert(a[p].slug != a[q].slug);
        } else if q < p {
            assert(a[q].slug != a[p].slug);
        }
    }
}

/// Two sorted lists that hold the same articles, none of which share a
/// slug, are one list: a set of articles has one sorted arrangement.
pub proof fn lemma_sorted_arrangement_is_unique(a: Seq<ArticleView>, b: Seq<ArticleView>)
    requires
        sorted_by_slug(a),
        sorted_by_slug(b),
        distinct_slugs(a),
        a.to_multiset() == b.to_multiset(),
    ensures
        a == b,
    decreases a.len(),
{
    to_multiset_len(a);
    to_multiset_len(b);
    if a.len() == 0 {
        assert(a == b);
    } else {
        let x = a[0];
        let y = b[0];
        to_multiset_contains(a, y);
        to_multiset_contains(b, y);
        to_multiset_contains(a, x);
        to_multiset_contains(b, x);
        assert(b.contains(y));
        assert(a.contains(x));
        let j = choose|j: int| 0 <= j < a.len() && a[j] == y;
        let i = choose|i: int| 0 <= i < b.len() && b[i] == x;
        lemma_bytes_le_reflexive(encode_utf8(x.slug));
        assert(slug_le(x.slug, y.slug)) by {
            if j > 0 {
                assert(slug_le(a[0].slug, a[j].slug));
            }
        }
        assert(slug_le(y.slug, x.slug)) by {
            if i > 0 {
                assert(slug_le(b[0].slug, b[i].slug));
            }
        }
        lemma_slug_le_antisymmetric(x.slug, y.slug);
        if j > 0 {
            assert(a[0].slug != a[j].slug);
        }
        assert(x == y);
        let ta = a.drop_first();
        let tb = b.drop_first();
        assert(ta == a.remove(0));
        assert(tb == b.remove(0));
        to_multiset_remove(a, 0);
        to_multiset_remove(b, 0);
        assert forall|i: int, j: int| 0 <= i < j < ta.len() implies slug_le(
            #[trigger] ta[i].slug,
            #[trigger] ta[j].slug,
        ) by {
            assert(slug_le(a[i + 1].slug, a[j + 1].slug));
        }
        assert forall|i: int, j: int| 0 <= i < j < tb.len() implies slug_le(
            #[trigger] tb[i].slug,
            #[trigger] tb[j].slug,
        ) by {
            assert(slug_le(b[i + 1].slug, b[j + 1].slug));
        }
        assert forall|i: int, j: int| 0 <= i < j < ta.len() implies #[trigger] ta[i].slug
            != #[trigger] ta[j].slug by {
            assert(a[i + 1].slug != a[j + 1].slug);
        }
        lemma_sorted_arrangement_is_unique(ta, tb);
        assert(a == seq![x] + ta);
        assert(b == seq![y] + tb);
    }
}

/// The sorted order does not depend on the order in which the articles
/// came: two lists that hold the same articles, none of which share a slug,
/// are sorted into one list.
pub proof fn lemma_sort_ignores_load_order(a: Seq<ArticleView>, b: Seq<ArticleView>)
    requires
        distinct_slugs(a),
        a.to_multiset() == b.to_multiset(),
    ensures
        sort_spec(a) == sort_spec(b),
{
    lemma_sort_sorts(a);
    lemma_sort_sorts(b);
    lemma_sort_permutes(a);
    lemma_sort_permutes(b);
    lemma_distinct_slugs_permuted(a, sort_spec(a));
    lemma_sorted_arrangement_is_unique(sort_spec(a), sort_spec(b));
}

/// Whether the slug `a` is `b` or comes before it, byte by byte.
pub fn slug_precedes(a: &str, b: &str) -> (r: bool)
    ensures
        r == slug_le(a@, b@),
{
    let x = a.as_bytes();
    let y = b.as_bytes();
    let mut i: usize = 0;
    assert(x@.skip(0) == x@);
    assert(y@.skip(0) == y@);
    while i < x.len() && i < y.len() && x[i] == y[i]
        invariant
            i <= x.len(),
            i <= y.len(),
            bytes_le(x@, y@) == bytes_le(x@.skip(i as int), y@.skip(i as int)),
        decreases x.len() - i,
    {
        assert(x@.skip(i as int).drop_first() == x@.skip(i + 1));
        assert(y@.skip(i as int).drop_first() == y@.skip(i + 1));
        i += 1;
    }
    if i == x.len() {
        true
    } else if i == y.len() {
        false
    } else {
        x[i] < y[i]
    }
}

/// Sorts articles by slug, ascending, byte by byte. Articles that share a
/// slug keep their order.
pub fn sort_by_slug(articles: Vec<Article>) -> (sorted: Vec<Article>)
    ensures
        models(sorted@) == sort_spec(models(articles@)),
        sorted_by_slug(models(sorted@)),
        models(sorted@).to_multiset() == models(articles@).to_multiset(),
        sorted@.len() == articles@.len(),
{
    let ghost input = models(articles@);
    let mut rest = articles;
    let mut sorted: Vec<Article> = Vec::new();
    assert(input.skip(input.len() as int) == Seq::<ArticleView>::empty());
    while rest.len() > 0
        invariant
            rest@.len() <= input.len(),
            models(rest@) == input.take(rest@.len() as int),
            models(sorted@) == sort_spec(input.skip(rest@.len() as int)),
        decreases rest.len(),
    {
        let ghost k = rest@.len() as int;
        let ghost loaded = rest@;
        let article = rest.pop().unwrap();
        let ghost before = models(sorted@);
        let mut p: usize = 0;
        assert(before.skip(0) == before);
        assert(before.take(0) + insert_sorted(before, article@) == insert_sorted(before, article@));
        while p < sorted.len() && !slug_precedes(article.slug.as_str(), sorted[p].slug.as_str())
            invariant
                p <= sorted.len(),
                before == models(sorted@),
                insert_sorted(before, article@) == before.take(p as int) + insert_sorted(
                    before.skip(p as int),
                    article@,
                ),
            decreases sorted.len() - p,
        {
            assert(before.skip(p as int).drop_first() == before.skip(p + 1));
            assert(before.take(p as int) + seq![before[p as int]] == before.take(p + 1));
            assert(before.take(p as int) + (seq![before[p as int]] + insert_sorted(
                before.skip(p + 1),
                article@,
            )) == before.take(p + 1) + insert_sorted(before.skip(p + 1), article@));
            p += 1;
        }
        sorted.insert(p, article);
        proof {
            assert(models(sorted@) == before.insert(p as int, article@));
            assert(before.insert(p as int, article@) == before.take(p as int) + (seq![article@]
                + before.skip(p as int)));
            assert(article@ == models(loaded)[k - 1]);
            assert(article@ == input[k - 1]);
            assert(input.skip(k - 1).drop_first() == input.skip(k));
            assert(input.skip(k - 1).first() == input[k - 1]);
            assert(rest@ == loaded.take(k - 1));
            assert(models(rest@) == input.take(k - 1));
        }
    }
    proof {
        assert(input.skip(0) == input);
        lemma_sort_sorts(input);
        lemma_sort_permutes(input);
    }
    sorted
}

} // verus!
