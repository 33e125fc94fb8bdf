//! From the markdown files of a directory to articles.

use crate::article::{models, title_or_empty, Article, ArticleView};
use crate::path::{file_stem, file_stem_of};
use vstd::prelude::*;

verus! {

/// A markdown file as it was read: its file name and its text.
#[derive(Debug, Clone, PartialEq, Eq)]
pub struct SourceFile {
    pub name: String,
    pub text: String,
}

/// What a markdown file is, as text.
pub struct SourceFileView {
    pub name: Seq<char>,
    pub text: Seq<char>,
}

impl View for SourceFile {
    type V = SourceFileView;

    open spec fn view(&self) -> SourceFileView {
        SourceFileView { name: self.name@, text: self.text@ }
    }
}

/// The files of a list, each as text.
pub open spec fn source_models(files: Seq<SourceFile>) -> Seq<SourceFileView> {
    files.map_values(|f: SourceFile| f@)
}

/// The article that a markdown file holds: its slug is the stem of the file
/// name, its title the one that the text declares.
pub open spec fn article_of(file: SourceFileView) -> ArticleView {
    ArticleView { markdown: file.text, slug: file_stem(file.name), title: title_or_empty(file.text) }
}

/// The articles of the files, in the order of the files.
pub open spec fn articles_of(files: Seq<SourceFileView>) -> Seq<ArticleView> {
    files.map_values(|f: SourceFileView| article_of(f))
}

/// Makes an article of each file, in the order of the files.
pub fn load_articles(files: Vec<SourceFile>) -> (articles: Vec<Article>)
    ensures
        models(articles@) == articles_of(source_models(files@)),
{
    let ghost wanted = articles_of(source_models(files@));
    let mut articles: Vec<Article> = Vec::new();
    for file in it: files
        invariant
            wanted == articles_of(source_models(it.seq())),
            articles@.len() == it.index(),
            forall|k: int| 0 <= k < articles@.len() ==> (#[trigger] articles@[k])@ == wanted[k],
    {
        let slug = file_stem_of(file.name.as_str()).to_owned();
        articles.push(Article::new(file.text, slug));
    }
    assert(models(articles@) == wanted);
    articles
}

} // verus!
