//! A static site generator: a directory of markdown articles becomes a site
//! of HTML pages, with an index of the articles on every page and the
//! article of the greatest slug as the home page.
//!
//! The library holds the rules: titles, order, pages, the steps of a run and
//! of a tree copy. It reads and writes nothing itself; a caller performs
//! each step that it names and reports how the step ended.

pub mod article;
pub mod error;
pub mod history;
pub mod loader;
pub mod markdown;
pub mod mirror;
pub mod order;
pub mod path;
pub mod pipeline;
pub mod site;
pub mod text;
pub mod util;

use vstd::prelude::*;

verus! {

/// Where the articles are read from when no directory is given.
pub const DEFAULT_ARTICLES_DIR: &'static str = "articles";

/// Where the site is published when no directory is given.
pub const DEFAULT_DESTINATION_DIR: &'static str = "site";

/// Where the site is built before it is published.
pub const DEFAULT_STAGING_DIR: &'static str = "tmp";

/// Where the built-in stylesheet is kept while a run needs it.
pub const DEFAULT_STYLESHEET: &'static str = "styles.css";

/// Configuration values for a run.
#[derive(Debug, Clone, PartialEq, Eq)]
pub struct Config {
    /// Directory that holds the markdown documents.
    pub articles_dir: String,
    /// Directory that holds static assets to be copied.
    pub static_dir: Option<String>,
    /// Output directory.
    pub destination_dir: String,
    /// Email address for the contact link.
    pub email: Option<String>,
    /// Stylesheet; a default one is supplied where none is given.
    pub css_path: Option<String>,
}

/// What a configuration is, as text.
pub struct ConfigView {
    pub articles_dir: Seq<char>,
    pub static_dir: Option<Seq<char>>,
    pub destination_dir: Seq<char>,
    pub email: Option<Seq<char>>,
    pub css_path: Option<Seq<char>>,
}

/// What an optional string holds.
pub open spec fn opt_text(s: Option<String>) -> Option<Seq<char>> {
    match s {
        Some(s) => Some(s@),
        None => None,
    }
}

/// `given`, or `default` where nothing is given.
pub open spec fn text_or(given: Option<Seq<char>>, default: Seq<char>) -> Seq<char> {
    match given {
        Some(text) => text,
        None => default,
    }
}

impl View for Config {
    type V = ConfigView;

    open spec fn view(&self) -> ConfigView {
        ConfigView {
            articles_dir: self.articles_dir@,
            static_dir: opt_text(self.static_dir),
            destination_dir: self.destination_dir@,
            email: opt_text(self.email),
            css_path: opt_text(self.css_path),
        }
    }
}

impl Config {
    /// The configuration for the options that were given: the articles are
    /// read from `articles` and the site goes to `site` where these are
    /// not.
    pub fn with_defaults(
        articles_dir: Option<String>,
        static_dir: Option<String>,
        destination_dir: Option<String>,
        email: Option<String>,
        css_path: Option<String>,
    ) -> (config: Config)
        ensures
            config@ == (ConfigView {
                articles_dir: text_or(opt_text(articles_dir), DEFAULT_ARTICLES_DIR@),
                static_dir: opt_text(static_dir),
                destination_dir: text_or(opt_text(destination_dir), DEFAULT_DESTINATION_DIR@),
                email: opt_text(email),
                css_path: opt_text(css_path),
            }),
    {
        let articles_dir = match articles_dir {
            Some(dir) => dir,
            None => DEFAULT_ARTICLES_DIR.to_owned(),
        };
        let destination_dir = match destination_dir {
            Some(dir) => dir,
            None => DEFAULT_DESTINATION_DIR.to_owned(),
        };
        Config { articles_dir, static_dir, destination_dir, email, css_path }
    }
}

} // verus!
