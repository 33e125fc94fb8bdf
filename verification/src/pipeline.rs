//! The steps of a run, as a machine. The machine names one action at a
//! time; the caller performs it and reports its outcome, and the machine
//! names the next one, or ends the run.
//!
//! The site is built in a staging directory. Only when every step of the
//! preparation has succeeded does an action name the destination.

use crate::article::opt_view;
use crate::error::{SiteError, SiteErrorView};
use crate::loader::{articles_of, load_articles, source_models, SourceFile, SourceFileView};
use crate::order::sort_spec;
use crate::path::{file_name, file_name_of, join_path, join_paths};
use crate::site::{build_site, file_models, site_spec, SiteFile, SiteFileView, PAGES_DIR};
use crate::{opt_text, text_or, Config, ConfigView};
use vstd::prelude::*;

verus! {

/// The name of the setting that says where the articles are.
pub const SETTING_ARTICLES: &'static str = "articles directory";

/// The name of the setting that says where the site goes.
pub const SETTING_DESTINATION: &'static str = "destination directory";

/// The name of the setting that says where the site is built.
pub const SETTING_STAGING: &'static str = "staging directory";

/// The name of the setting that says where the stylesheet is.
pub const SETTING_STYLESHEET: &'static str = "stylesheet path";

/// The operation that removes a directory.
pub const OP_REMOVE_DIR: &'static str = "remove directory";

/// The operation that creates a directory.
pub const OP_CREATE_DIR: &'static str = "create directory";

/// The operation that writes the built-in stylesheet.
pub const OP_WRITE_STYLESHEET: &'static str = "write stylesheet";

/// The operation that writes the pages.
pub const OP_WRITE_PAGES: &'static str = "write pages";

/// The operation that copies the stylesheet.
pub const OP_COPY_STYLESHEET: &'static str = "copy stylesheet";

/// The operation that renames the staging directory to the destination.
pub const OP_PUBLISH: &'static str = "publish";

/// The operation that removes the built-in stylesheet.
pub const OP_REMOVE_STYLESHEET: &'static str = "remove stylesheet";

/// The step whose outcome a run waits for.
#[derive(Debug, Clone, PartialEq, Eq)]
pub enum Phase {
    /// The staging directory of an earlier run is being removed.
    ClearingStaging,
    /// The staging directory is being created.
    CreatingStaging,
    /// The directory of the article pages is being created in it.
    CreatingPagesDir,
    /// The built-in stylesheet is being written to its temporary path.
    WritingStylesheet,
    /// The markdown files are being read.
    Loading,
    /// The pages are being written to the staging directory.
    WritingPages,
    /// The static assets are being mirrored into the staging directory.
    CopyingAssets,
    /// The stylesheet is being copied into the staging directory.
    CopyingStylesheet,
    /// The destination of an earlier run is being removed.
    ClearingDestination,
    /// The staging directory is being renamed to the destination.
    Publishing,
    /// The built-in stylesheet is being removed from its temporary path.
    CleaningUp,
}

/// What the caller is to do next.
#[derive(Debug, Clone, PartialEq, Eq)]
pub enum Action {
    /// Remove the staging directory and what it holds, if it is there.
    ClearStaging { path: String },
    /// Create the directory `path`.
    CreateDir { path: String },
    /// Write the built-in stylesheet to `path`.
    WriteDefaultStylesheet { path: String },
    /// Read every markdown file of `dir`.
    LoadArticles { dir: String },
    /// Write each of `files` at its path below `root`, in order.
    WritePages { root: String, files: Vec<SiteFile> },
    /// Mirror the tree `from` into the directory `to`.
    CopyAssets { from: String, to: String },
    /// Copy the file `from` to `to`.
    CopyStylesheet { from: String, to: String },
    /// Remove the destination directory and what it holds, if it is there.
    ClearDestination { path: String },
    /// Rename the staging directory `from` to the destination `to`.
    Publish { from: String, to: String },
    /// Remove the built-in stylesheet that was written to `path`.
    RemoveDefaultStylesheet { path: String },
}

/// What an action is, as text.
pub enum ActionView {
    ClearStaging { path: Seq<char> },
    CreateDir { path: Seq<char> },
    WriteDefaultStylesheet { path: Seq<char> },
    LoadArticles { dir: Seq<char> },
    WritePages { root: Seq<char>, files: Seq<SiteFileView> },
    CopyAssets { from: Seq<char>, to: Seq<char> },
    CopyStylesheet { from: Seq<char>, to: Seq<char> },
    ClearDestination { path: Seq<char> },
    Publish { from: Seq<char>, to: Seq<char> },
    RemoveDefaultStylesheet { path: Seq<char> },
}

impl View for Action {
    type V = ActionView;

    open spec fn view(&self) -> ActionView {
        match self {
            Action::ClearStaging { path } => ActionView::ClearStaging { path: path@ },
            Action::CreateDir { path } => ActionView::CreateDir { path: path@ },
            Action::WriteDefaultStylesheet { path } => ActionView::WriteDefaultStylesheet {
                path: path@,
            },
            Action::LoadArticles { dir } => ActionView::LoadArticles { dir: dir@ },
            Action::WritePages { root, files } => ActionView::WritePages {
                root: root@,
                files: file_models(files@),
            },
            Action::CopyAssets { from, to } => ActionView::CopyAssets { from: from@, to: to@ },
            Action::CopyStylesheet { from, to } => ActionView::CopyStylesheet {
                from: from@,
                to: to@,
            },
            Action::ClearDestination { path } => ActionView::ClearDestination { path: path@ },
            Action::Publish { from, to } => ActionView::Publish { from: from@, to: to@ },
            Action::RemoveDefaultStylesheet { path } => ActionView::RemoveDefaultStylesheet {
                path: path@,
            },
        }
    }
}

/// How an action ended.
#[derive(Debug, Clone, PartialEq, Eq)]
pub enum Outcome {
    /// It was done.
    Done,
    /// What was to be removed was not there.
    Missing,
    /// It failed.
    Failed,
    /// The copy of a tree failed at `source`, on its way to `destination`.
    CopyFailed { source: String, destination: String },
    /// The markdown files were read: these are they.
    Read(Vec<SourceFile>),
}

/// What an outcome is, as text.
pub enum OutcomeView {
    Done,
    Missing,
    Failed,
    CopyFailed { source: Seq<char>, destination: Seq<char> },
    Read(Seq<SourceFileView>),
}

impl View for Outcome {
    type V = OutcomeView;

    open spec fn view(&self) -> OutcomeView {
        match self {
            Outcome::Done => OutcomeView::Done,
            Outcome::Missing => OutcomeView::Missing,
            Outcome::Failed => OutcomeView::Failed,
            Outcome::CopyFailed { source, destination } => OutcomeView::CopyFailed {
                source: source@,
                destination: destination@,
            },
            Outcome::Read(files) => OutcomeView::Read(source_models(files@)),
        }
    }
}

/// A run between two steps: what it was configured with, and the step
/// whose outcome it waits for.
pub struct Assembler {
    config: Config,
    staging_dir: String,
    default_css: String,
    phase: Phase,
}

/// What a run is, as text.
pub struct AssemblerView {
    pub config: ConfigView,
    pub staging_dir: Seq<char>,
    pub default_css: Seq<char>,
    pub phase: Phase,
}

impl View for Assembler {
    type V = AssemblerView;

    closed spec fn view(&self) -> AssemblerView {
        AssemblerView {
            config: self.config@,
            staging_dir: self.staging_dir@,
            default_css: self.default_css@,
            phase: self.phase,
        }
    }
}

/// Where a run stands after a step.
pub enum Progress {
    /// The run goes on: the caller performs the action and reports its
    /// outcome to the assembler.
    Next(Assembler, Action),
    /// The site is published.
    Finished,
    /// The run is over and failed.
    Failed(SiteError),
}

/// Where a run stands, as text.
pub enum ProgressView {
    Next(AssemblerView, ActionView),
    Finished,
    Failed(SiteErrorView),
}

impl View for Progress {
    type V = ProgressView;

    open spec fn view(&self) -> ProgressView {
        match self {
            Progress::Next(assembler, action) => ProgressView::Next(assembler@, action@),
            Progress::Finished => ProgressView::Finished,
            Progress::Failed(error) => ProgressView::Failed(error@),
        }
    }
}

/// The stylesheet of the site: the one that was configured, or the built-in
/// one at its temporary path.
pub open spec fn stylesheet(s: AssemblerView) -> Seq<char> {
    text_or(s.config.css_path, s.default_css)
}

/// The directory of the article pages, in the staging directory.
pub open spec fn staged_pages_dir(s: AssemblerView) -> Seq<char> {
    join_path(s.staging_dir, PAGES_DIR@)
}

/// Where the stylesheet goes in the staging directory: it keeps its name.
pub open spec fn staged_stylesheet(s: AssemblerView) -> Seq<char> {
    join_path(s.staging_dir, file_name(stylesheet(s)))
}

/// Whether the step counts among the preparation: the steps that build the
/// site in the staging directory, before anything is published.
pub open spec fn preparing(phase: Phase) -> bool {
    match phase {
        Phase::ClearingDestination | Phase::Publishing | Phase::CleaningUp => false,
        _ => true,
    }
}

/// Whether the outcome `o` lets the step `phase` count as done. A removal
/// is done where its target was missing; the load is done when the files
/// came; nothing else is done but by `Done`.
pub open spec fn accepted(phase: Phase, o: OutcomeView) -> bool {
    match o {
        OutcomeView::Done => !(phase is Loading),
        OutcomeView::Missing => phase is ClearingStaging || phase is ClearingDestination
            || phase is CleaningUp,
        OutcomeView::Read(_) => phase is Loading,
        OutcomeView::Failed => false,
        OutcomeView::CopyFailed { .. } => false,
    }
}

/// The error with which a run ends when the step that it waits for fails
/// with `o`.
pub open spec fn failure_of(s: AssemblerView, o: OutcomeView) -> SiteErrorView {
    match s.phase {
        Phase::ClearingStaging => SiteErrorView::Io {
            operation: OP_REMOVE_DIR@,
            path: s.staging_dir,
        },
        Phase::CreatingStaging => SiteErrorView::Io {
            operation: OP_CREATE_DIR@,
            path: s.staging_dir,
        },
        Phase::CreatingPagesDir => SiteErrorView::Io {
            operation: OP_CREATE_DIR@,
            path: staged_pages_dir(s),
        },
        Phase::WritingStylesheet => SiteErrorView::Io {
            operation: OP_WRITE_STYLESHEET@,
            path: s.default_css,
        },
        Phase::Loading => SiteErrorView::Load { path: s.config.articles_dir },
        Phase::WritingPages => SiteErrorView::Io {
            operation: OP_WRITE_PAGES@,
            path: s.staging_dir,
        },
        Phase::CopyingAssets => match o {
            OutcomeView::CopyFailed { source, destination } => SiteErrorView::Copy {
                source,
                destination,
            },
            _ => SiteErrorView::Copy {
                source: text_or(s.config.static_dir, Seq::empty()),
                destination: s.staging_dir,
            },
        },
        Phase::CopyingStylesheet => SiteErrorView::Io {
            operation: OP_COPY_STYLESHEET@,
            path: stylesheet(s),
        },
        Phase::ClearingDestination => SiteErrorView::Io {
            operation: OP_REMOVE_DIR@,
            path: s.config.destination_dir,
        },
        Phase::Publishing => SiteErrorView::Io {
            operation: OP_PUBLISH@,
            path: s.config.destination_dir,
        },
        Phase::CleaningUp => SiteErrorView::Io {
            operation: OP_REMOVE_STYLESHEET@,
            path: s.default_css,
        },
    }
}

/// The run `s`, waiting for the step `phase`.
pub open spec fn at(s: AssemblerView, phase: Phase) -> AssemblerView {
    AssemblerView { phase, ..s }
}

/// The run that waits for the articles, and the action that loads them.
pub open spec fn load_step(s: AssemblerView) -> ProgressView {
    ProgressView::Next(
        at(s, Phase::Loading),
        ActionView::LoadArticles { dir: s.config.articles_dir },
    )
}

/// The run that waits for the stylesheet to be copied, and the action that
/// copies it.
pub open spec fn stylesheet_step(s: AssemblerView) -> ProgressView {
    ProgressView::Next(
        at(s, Phase::CopyingStylesheet),
        ActionView::CopyStylesheet { from: stylesheet(s), to: staged_stylesheet(s) },
    )
}

/// The files of the site that the markdown files give: their articles,
/// sorted by slug, each as a page, and the home page.
pub open spec fn pages_of(s: AssemblerView, files: Seq<SourceFileView>) -> Seq<SiteFileView> {
    site_spec(sort_spec(articles_of(files)), s.config.email, file_name(stylesheet(s)))
}

/// Where the run `s` stands once the step that it waits for has ended with
/// `o`. A step that is not done ends the run with its error. Else the next
/// step follows, in this order: clear the staging directory, create it,
/// create its directory of pages, write the built-in stylesheet where none
/// is configured, load the articles, write the pages, mirror the static
/// assets where a directory of them is configured, copy the stylesheet,
/// clear the destination, publish, remove the built-in stylesheet where it
/// was written.
pub open spec fn step(s: AssemblerView, o: OutcomeView) -> ProgressView {
    if !accepted(s.phase, o) {
        ProgressView::Failed(failure_of(s, o))
    } else {
        match s.phase {
            Phase::ClearingStaging => ProgressView::Next(
                at(s, Phase::CreatingStaging),
                ActionView::CreateDir { path: s.staging_dir },
            ),
            Phase::CreatingStaging => ProgressView::Next(
                at(s, Phase::CreatingPagesDir),
                ActionView::CreateDir { path: staged_pages_dir(s) },
            ),
            Phase::CreatingPagesDir => if s.config.css_path is None {
                ProgressView::Next(
                    at(s, Phase::WritingStylesheet),
                    ActionView::WriteDefaultStylesheet { path: s.default_css },
                )
            } else {
                load_step(s)
            },
            Phase::WritingStylesheet => load_step(s),
            Phase::Loading => match o {
                OutcomeView::Read(files) => ProgressView::Next(
                    at(s, Phase::WritingPages),
                    ActionView::WritePages { root: s.staging_dir, files: pages_of(s, files) },
                ),
                _ => ProgressView::Failed(failure_of(s, o)),
            },
            Phase::WritingPages => match s.config.static_dir {
                Some(dir) => ProgressView::Next(
                    at(s, Phase::CopyingAssets),
                    ActionView::CopyAssets { from: dir, to: s.staging_dir },
                ),
                None => stylesheet_step(s),
            },
            Phase::CopyingAssets => stylesheet_step(s),
            Phase::CopyingStylesheet => ProgressView::Next(
                at(s, Phase::ClearingDestination),
                ActionView::ClearDestination { path: s.config.destination_dir },
            ),
            Phase::ClearingDestination => ProgressView::Next(
                at(s, Phase::Publishing),
                ActionView::Publish { from: s.staging_dir, to: s.config.destination_dir },
            ),
            Phase::Publishing => if s.config.css_path is None {
                ProgressView::Next(
                    at(s, Phase::CleaningUp),
                    ActionView::RemoveDefaultStylesheet { path: s.default_css },
                )
            } else {
                ProgressView::Finished
            },
            Phase::CleaningUp => ProgressView::Finished,
        }
    }
}

/// The setting that keeps a run from starting, if there is one: a
/// directory without a name, a staging directory that is the destination,
/// or a stylesheet path that names no file.
pub open spec fn unusable_setting(
    config: ConfigView,
    staging_dir: Seq<char>,
    default_css: Seq<char>,
) -> Option<Seq<char>> {
    if config.articles_dir.len() == 0 {
        Some(SETTING_ARTICLES@)
    } else if config.destination_dir.len() == 0 {
        Some(SETTING_DESTINATION@)
    } else if staging_dir.len() == 0 || staging_dir == config.destination_dir {
        Some(SETTING_STAGING@)
    } else if file_name(text_or(config.css_path, default_css)).len() == 0 {
        Some(SETTING_STYLESHEET@)
    } else {
        None
    }
}

/// Where a run starts: with the action that clears the staging directory,
/// or, with an unusable setting, at its end.
pub open spec fn start_spec(config: ConfigView, staging_dir: Seq<char>, default_css: Seq<char>) -> ProgressView {
    match unusable_setting(config, staging_dir, default_css) {
        Some(setting) => ProgressView::Failed(SiteErrorView::Configuration { setting }),
        None => ProgressView::Next(
            AssemblerView { config, staging_dir, default_css, phase: Phase::ClearingStaging },
            ActionView::ClearStaging { path: staging_dir },
        ),
    }
}

/// What an optional string holds, as a slice.
fn as_opt_str(s: &Option<String>) -> (slice: Option<&str>)
    ensures
        opt_view(slice) == opt_text(*s),
{
    match s {
        Some(s) => Some(s.as_str()),
        None => None,
    }
}

/// An error of the file system.
fn io_error(operation: &str, path: String) -> (error: SiteError)
    ensures
        error@ == (SiteErrorView::Io { operation: operation@, path: path@ }),
{
    SiteError::Io { operation: operation.to_owned(), path }
}

impl Assembler {
    /// Starts a run that builds the site in `staging_dir` and keeps the
    /// built-in stylesheet, where it needs one, at `default_css`: hands out
    /// the first action, or the error of the configuration.
    pub fn start(config: Config, staging_dir: String, default_css: String) -> (progress: Progress)
        ensures
            progress@ == start_spec(config@, staging_dir@, default_css@),
    {
        if config.articles_dir.as_str().is_empty() {
            return Progress::Failed(
                SiteError::Configuration { setting: SETTING_ARTICLES.to_owned() },
            );
        }
        if config.destination_dir.as_str().is_empty() {
            return Progress::Failed(
                SiteError::Configuration { setting: SETTING_DESTINATION.to_owned() },
            );
        }
        if staging_dir.as_str().is_empty() || staging_dir == config.destination_dir {
            return Progress::Failed(
                SiteError::Configuration { setting: SETTING_STAGING.to_owned() },
            );
        }
        let names_a_file = match &config.css_path {
            Some(path) => !file_name_of(path.as_str()).is_empty(),
            None => !file_name_of(default_css.as_str()).is_empty(),
        };
        if !names_a_file {
            return Progress::Failed(
                SiteError::Configuration { setting: SETTING_STYLESHEET.to_owned() },
            );
        }
        let action = Action::ClearStaging { path: staging_dir.clone() };
        Progress::Next(
            Assembler { config, staging_dir, default_css, phase: Phase::ClearingStaging },
            action,
        )
    }

    /// The step that the run waits for.
    pub fn phase(&self) -> (phase: &Phase)
        ensures
            *phase == self@.phase,
    {
        &self.phase
    }

    /// Whether `outcome` lets the step that the run waits for count as done.
    fn accepts(&self, outcome: &Outcome) -> (done: bool)
        ensures
            done == accepted(self@.phase, outcome@),
    {
        match outcome {
            Outcome::Done => match self.phase {
                Phase::Loading => false,
                _ => true,
            },
            Outcome::Missing => match self.phase {
                Phase::ClearingStaging => true,
                Phase::ClearingDestination => true,
                Phase::CleaningUp => true,
                _ => false,
            },
            Outcome::Read(_) => match self.phase {
                Phase::Loading => true,
                _ => false,
            },
            Outcome::Failed => false,
            Outcome::CopyFailed { .. } => false,
        }
    }

    /// The stylesheet of the site.
    fn stylesheet(&self) -> (path: &str)
        ensures
            path@ == stylesheet(self@),
    {
        match &self.config.css_path {
            Some(path) => path.as_str(),
            None => self.default_css.as_str(),
        }
    }

    /// The error with which the run ends on `outcome`.
    fn failure(self, outcome: Outcome) -> (error: SiteError)
        ensures
            error@ == failure_of(self@, outcome@),
    {
        match self.phase {
            Phase::ClearingStaging => io_error(OP_REMOVE_DIR, self.staging_dir),
            Phase::CreatingStaging => io_error(OP_CREATE_DIR, self.staging_dir),
            Phase::CreatingPagesDir => io_error(
                OP_CREATE_DIR,
                join_paths(self.staging_dir.as_str(), PAGES_DIR),
            ),
            Phase::WritingStylesheet => io_error(OP_WRITE_STYLESHEET, self.default_css),
            Phase::Loading => SiteError::Load { path: self.config.articles_dir },
            Phase::WritingPages => io_error(OP_WRITE_PAGES, self.staging_dir),
            Phase::CopyingAssets => match outcome {
                Outcome::CopyFailed { source, destination } => SiteError::Copy {
                    source,
                    destination,
                },
                _ => {
                    let source = match self.config.static_dir {
                        Some(dir) => dir,
                        None => String::new(),
                    };
                    SiteError::Copy { source, destination: self.staging_dir }
                },
            },
            Phase::CopyingStylesheet => {
                let path = self.stylesheet().to_owned();
                io_error(OP_COPY_STYLESHEET, path)
            },
            Phase::ClearingDestination => io_error(OP_REMOVE_DIR, self.config.destination_dir),
            Phase::Publishing => io_error(OP_PUBLISH, self.config.destination_dir),
            Phase::CleaningUp => io_error(OP_REMOVE_STYLESHEET, self.default_css),
        }
    }

    /// The same run, waiting for the step `phase`.
    fn at(self, phase: Phase) -> (next: Assembler)
        ensures
            next@ == at(self@, phase),
    {
        Assembler {
            config: self.config,
            staging_dir: self.staging_dir,
            default_css: self.default_css,
            phase,
        }
    }

    /// Goes on to loading the articles.
    fn load_step(self) -> (progress: Progress)
        ensures
            progress@ == load_step(self@),
    {
        let action = Action::LoadArticles { dir: self.config.articles_dir.clone() };
        Progress::Next(self.at(Phase::Loading), action)
    }

    /// Goes on to copying the stylesheet.
    fn stylesheet_step(self) -> (progress: Progress)
        ensures
            progress@ == stylesheet_step(self@),
    {
        let from = self.stylesheet().to_owned();
        let to = join_paths(self.staging_dir.as_str(), file_name_of(from.as_str()));
        Progress::Next(self.at(Phase::CopyingStylesheet), Action::CopyStylesheet { from, to })
    }

    /// Takes the outcome of the action that was handed out last, and hands
    /// out the next one, or ends the run.
    pub fn advance(self, outcome: Outcome) -> (progress: Progress)
        ensures
            progress@ == step(self@, outcome@),
    {
        if !self.accepts(&outcome) {
            return Progress::Failed(self.failure(outcome));
        }
        match self.phase {
            Phase::ClearingStaging => {
                let action = Action::CreateDir { path: self.staging_dir.clone() };
                Progress::Next(self.at(Phase::CreatingStaging), action)
            },
            Phase::CreatingStaging => {
                let action = Action::CreateDir {
                    path: join_paths(self.staging_dir.as_str(), PAGES_DIR),
                };
                Progress::Next(self.at(Phase::CreatingPagesDir), action)
            },
            Phase::CreatingPagesDir => {
                if self.config.css_path.is_none() {
                    let action = Action::WriteDefaultStylesheet { path: self.default_css.clone() };
                    Progress::Next(self.at(Phase::WritingStylesheet), action)
                } else {
                    self.load_step()
                }
            },
            Phase::WritingStylesheet => self.load_step(),
            Phase::Loading => match outcome {
                Outcome::Read(files) => {
                    let articles = load_articles(files);
                    let pages = build_site(
                        articles,
                        as_opt_str(&self.config.email),
                        file_name_of(self.stylesheet()),
                    );
                    let action = Action::WritePages {
                        root: self.staging_dir.clone(),
                        files: pages,
                    };
                    Progress::Next(self.at(Phase::WritingPages), action)
                },
                other => Progress::Failed(self.failure(other)),
            },
            Phase::WritingPages => {
                if self.config.static_dir.is_some() {
                    let from = match &self.config.static_dir {
                        Some(dir) => dir.clone(),
                        None => String::new(),
                    };
                    let action = Action::CopyAssets { from, to: self.staging_dir.clone() };
                    Progress::Next(self.at(Phase::CopyingAssets), action)
                } else {
                    self.stylesheet_step()
                }
            },
            Phase::CopyingAssets => self.stylesheet_step(),
            Phase::CopyingStylesheet => {
                let action = Action::ClearDestination {
                    path: self.config.destination_dir.clone(),
                };
                Progress::Next(self.at(Phase::ClearingDestination), action)
            },
            Phase::ClearingDestination => {
                let action = Action::Publish {
                    from: self.staging_dir.clone(),
                    to: self.config.destination_dir.clone(),
                };
                Progress::Next(self.at(Phase::Publishing), action)
            },
            Phase::Publishing => {
                if self.config.css_path.is_none() {
                    let action = Action::RemoveDefaultStylesheet {
                        path: self.default_css.clone(),
                    };
                    Progress::Next(self.at(Phase::CleaningUp), action)
                } else {
                    Progress::Finished
                }
            },
            Phase::CleaningUp => Progress::Finished,
        }
    }
}

} // verus!
