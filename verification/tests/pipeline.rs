use blarf::error::SiteError;
use blarf::loader::{load_articles, SourceFile};
use blarf::pipeline::{Action, Assembler, Outcome, Phase, Progress};
use blarf::site::build_site;
use blarf::Config;

fn config(static_dir: Option<&str>, email: Option<&str>, css: Option<&str>) -> Config {
    Config {
        articles_dir: String::from("posts"),
        static_dir: static_dir.map(String::from),
        destination_dir: String::from("out"),
        email: email.map(String::from),
        css_path: css.map(String::from),
    }
}

fn sources() -> Vec<SourceFile> {
    vec![
        SourceFile { name: String::from("2-b.md"), text: String::from("# Second\nbody") },
        SourceFile { name: String::from("1-a.md"), text: String::from("# First\nbody") },
    ]
}

fn start(config: Config) -> Progress {
    Assembler::start(config, String::from("tmp"), String::from("styles.css"))
}

/// Runs to the end, answering each action with `answer`; gives the actions
/// that were handed out and how the run ended.
fn run(config: Config, answer: &dyn Fn(&Action) -> Outcome) -> (Vec<Action>, Result<(), SiteError>) {
    let mut actions = Vec::new();
    let mut progress = start(config);
    loop {
        match progress {
            Progress::Next(assembler, action) => {
                let outcome = answer(&action);
                actions.push(action);
                progress = assembler.advance(outcome);
            }
            Progress::Finished => return (actions, Ok(())),
            Progress::Failed(error) => return (actions, Err(error)),
        }
    }
}

fn all_well(action: &Action) -> Outcome {
    match action {
        Action::LoadArticles { .. } => Outcome::Read(sources()),
        _ => Outcome::Done,
    }
}

fn touches_destination(action: &Action) -> bool {
    matches!(action, Action::ClearDestination { .. } | Action::Publish { .. })
}

#[test]
fn full_run_with_default_stylesheet_and_assets() {
    let (actions, end) = run(config(Some("public"), Some("x@y.com"), None), &all_well);
    assert_eq!(end, Ok(()));
    let pages = build_site(load_articles(sources()), Some("x@y.com"), "styles.css");
    let expected = vec![
        Action::ClearStaging { path: String::from("tmp") },
        Action::CreateDir { path: String::from("tmp") },
        Action::CreateDir { path: String::from("tmp/articles") },
        Action::WriteDefaultStylesheet { path: String::from("styles.css") },
        Action::LoadArticles { dir: String::from("posts") },
        Action::WritePages { root: String::from("tmp"), files: pages },
        Action::CopyAssets { from: String::from("public"), to: String::from("tmp") },
        Action::CopyStylesheet { from: String::from("styles.css"), to: String::from("tmp/styles.css") },
        Action::ClearDestination { path: String::from("out") },
        Action::Publish { from: String::from("tmp"), to: String::from("out") },
        Action::RemoveDefaultStylesheet { path: String::from("styles.css") },
    ];
    assert_eq!(actions, expected);
}

#[test]
fn full_run_with_own_stylesheet_and_no_assets() {
    let (actions, end) = run(config(None, None, Some("theme/dark.css")), &all_well);
    assert_eq!(end, Ok(()));
    let pages = build_site(load_articles(sources()), None, "dark.css");
    let expected = vec![
        Action::ClearStaging { path: String::from("tmp") },
        Action::CreateDir { path: String::from("tmp") },
        Action::CreateDir { path: String::from("tmp/articles") },
        Action::LoadArticles { dir: String::from("posts") },
        Action::WritePages { root: String::from("tmp"), files: pages },
        Action::CopyStylesheet { from: String::from("theme/dark.css"), to: String::from("tmp/dark.css") },
        Action::ClearDestination { path: String::from("out") },
        Action::Publish { from: String::from("tmp"), to: String::from("out") },
    ];
    assert_eq!(actions, expected);
}

#[test]
fn pages_link_the_stylesheet_by_its_file_name() {
    let (actions, _) = run(config(None, None, Some("theme/dark.css")), &all_well);
    let pages = actions.iter().find_map(|a| match a {
        Action::WritePages { files, .. } => Some(files),
        _ => None,
    });
    let pages = pages.unwrap();
    assert_eq!(pages.len(), 3);
    for page in pages {
        assert!(page.contents.contains("<link rel=\"stylesheet\" href=\"/dark.css\">"));
    }
    assert_eq!(pages[0].path, "articles/1-a.html");
    assert_eq!(pages[1].path, "articles/2-b.html");
    assert_eq!(pages[2].path, "index.html");
    assert_eq!(pages[2].contents, pages[1].contents);
}

#[test]
fn missing_target_of_a_removal_is_no_failure() {
    let (actions, end) = run(config(None, None, None), &|action| match action {
        Action::ClearStaging { .. } => Outcome::Missing,
        Action::ClearDestination { .. } => Outcome::Missing,
        Action::RemoveDefaultStylesheet { .. } => Outcome::Missing,
        other => all_well(other),
    });
    assert_eq!(end, Ok(()));
    assert_eq!(actions.len(), 10);
    assert!(matches!(actions.last(), Some(Action::RemoveDefaultStylesheet { .. })));
}

#[test]
fn missing_is_a_failure_where_nothing_is_removed() {
    let (actions, end) = run(config(None, None, None), &|action| match action {
        Action::CreateDir { .. } => Outcome::Missing,
        other => all_well(other),
    });
    assert_eq!(end, Err(SiteError::Io { operation: String::from("create directory"), path: String::from("tmp") }));
    assert_eq!(actions.len(), 2);
}

#[test]
fn missing_assets_abort_before_the_destination_is_touched() {
    let (actions, end) = run(config(Some("public"), None, None), &|action| match action {
        Action::CopyAssets { .. } => Outcome::Failed,
        other => all_well(other),
    });
    assert_eq!(end, Err(SiteError::Copy { source: String::from("public"), destination: String::from("tmp") }));
    assert!(matches!(actions.last(), Some(Action::CopyAssets { .. })));
    assert!(!actions.iter().any(touches_destination));
}

#[test]
fn assets_reported_missing_abort_the_run_too() {
    let (actions, end) = run(config(Some("public"), None, None), &|action| match action {
        Action::CopyAssets { .. } => Outcome::Missing,
        other => all_well(other),
    });
    assert_eq!(end, Err(SiteError::Copy { source: String::from("public"), destination: String::from("tmp") }));
    assert!(!actions.iter().any(touches_destination));
}

#[test]
fn copy_failure_names_the_entry_that_failed() {
    let (actions, end) = run(config(Some("public"), None, None), &|action| match action {
        Action::CopyAssets { .. } => Outcome::CopyFailed {
            source: String::from("public/img/a.png"),
            destination: String::from("tmp/img/a.png"),
        },
        other => all_well(other),
    });
    assert_eq!(
        end,
        Err(SiteError::Copy { source: String::from("public/img/a.png"), destination: String::from("tmp/img/a.png") })
    );
    assert!(!actions.iter().any(touches_destination));
}

#[test]
fn a_failure_in_any_step_of_the_preparation_spares_the_destination() {
    for failing in 0..8usize {
        let (actions, end) = {
            let mut actions = Vec::new();
            let mut progress = start(config(Some("public"), None, None));
            let end = loop {
                match progress {
                    Progress::Next(assembler, action) => {
                        let outcome = if actions.len() == failing { Outcome::Failed } else { all_well(&action) };
                        actions.push(action);
                        progress = assembler.advance(outcome);
                    }
                    Progress::Finished => break Ok(()),
                    Progress::Failed(error) => break Err(error),
                }
            };
            (actions, end)
        };
        assert!(end.is_err(), "step {}", failing);
        assert_eq!(actions.len(), failing + 1);
        assert!(!actions.iter().any(touches_destination), "step {}", failing);
    }
}

#[test]
fn errors_of_each_step() {
    let failing_at = |index: usize| {
        let mut seen = 0usize;
        let mut progress = start(config(Some("public"), None, None));
        loop {
            match progress {
                Progress::Next(assembler, action) => {
                    let outcome = if seen == index { Outcome::Failed } else { all_well(&action) };
                    seen += 1;
                    progress = assembler.advance(outcome);
                }
                Progress::Finished => panic!("the run should have failed"),
                Progress::Failed(error) => return error,
            }
        }
    };
    let io = |operation: &str, path: &str| SiteError::Io { operation: String::from(operation), path: String::from(path) };
    assert_eq!(failing_at(0), io("remove directory", "tmp"));
    assert_eq!(failing_at(1), io("create directory", "tmp"));
    assert_eq!(failing_at(2), io("create directory", "tmp/articles"));
    assert_eq!(failing_at(3), io("write stylesheet", "styles.css"));
    assert_eq!(failing_at(4), SiteError::Load { path: String::from("posts") });
    assert_eq!(failing_at(5), io("write pages", "tmp"));
    assert_eq!(failing_at(6), SiteError::Copy { source: String::from("public"), destination: String::from("tmp") });
    assert_eq!(failing_at(7), io("copy stylesheet", "styles.css"));
    assert_eq!(failing_at(8), io("remove directory", "out"));
    assert_eq!(failing_at(9), io("publish", "out"));
    assert_eq!(failing_at(10), io("remove stylesheet", "styles.css"));
}

#[test]
fn load_needs_the_files() {
    let (actions, end) = run(config(None, None, None), &|_| Outcome::Done);
    assert_eq!(end, Err(SiteError::Load { path: String::from("posts") }));
    assert!(matches!(actions.last(), Some(Action::LoadArticles { .. })));
}

#[test]
fn files_are_no_answer_to_another_step() {
    let (actions, end) = run(config(None, None, None), &|_| Outcome::Read(sources()));
    assert_eq!(end, Err(SiteError::Io { operation: String::from("remove directory"), path: String::from("tmp") }));
    assert_eq!(actions.len(), 1);
}

#[test]
fn run_without_articles_publishes_an_empty_site() {
    let (actions, end) = run(config(None, None, Some("s.css")), &|action| match action {
        Action::LoadArticles { .. } => Outcome::Read(vec![]),
        _ => Outcome::Done,
    });
    assert_eq!(end, Ok(()));
    assert!(actions.contains(&Action::WritePages { root: String::from("tmp"), files: vec![] }));
    assert!(matches!(actions.last(), Some(Action::Publish { .. })));
}

#[test]
fn configuration_errors() {
    let setting = |name: &str| SiteError::Configuration { setting: String::from(name) };
    let failed = |progress: Progress| match progress {
        Progress::Failed(error) => error,
        _ => panic!("the run should not start"),
    };
    let mut no_articles = config(None, None, None);
    no_articles.articles_dir = String::new();
    assert_eq!(failed(start(no_articles)), setting("articles directory"));
    let mut no_destination = config(None, None, None);
    no_destination.destination_dir = String::new();
    assert_eq!(failed(start(no_destination)), setting("destination directory"));
    assert_eq!(
        failed(Assembler::start(config(None, None, None), String::new(), String::from("styles.css"))),
        setting("staging directory")
    );
    assert_eq!(
        failed(Assembler::start(config(None, None, None), String::from("out"), String::from("styles.css"))),
        setting("staging directory")
    );
    assert_eq!(failed(start(config(None, None, Some("themes/")))), setting("stylesheet path"));
    assert_eq!(failed(start(config(None, None, Some("")))), setting("stylesheet path"));
    assert_eq!(
        failed(Assembler::start(config(None, None, None), String::from("tmp"), String::from("dir/"))),
        setting("stylesheet path")
    );
}

#[test]
fn an_own_stylesheet_makes_up_for_an_unusable_default() {
    let progress = Assembler::start(config(None, None, Some("a.css")), String::from("tmp"), String::new());
    assert!(matches!(progress, Progress::Next(_, Action::ClearStaging { .. })));
}

#[test]
fn phase_follows_the_actions() {
    let progress = start(config(None, None, None));
    let assembler = match progress {
        Progress::Next(assembler, _) => assembler,
        _ => panic!("the run should start"),
    };
    assert_eq!(*assembler.phase(), Phase::ClearingStaging);
    let assembler = match assembler.advance(Outcome::Done) {
        Progress::Next(assembler, _) => assembler,
        _ => panic!("the run should go on"),
    };
    assert_eq!(*assembler.phase(), Phase::CreatingStaging);
}

#[test]
fn messages_name_operation_and_path() {
    assert_eq!(
        SiteError::Configuration { setting: String::from("stylesheet path") }.message(),
        "configuration: missing or unusable stylesheet path"
    );
    assert_eq!(SiteError::Load { path: String::from("posts") }.message(), "cannot load articles from posts");
    assert_eq!(
        SiteError::Io { operation: String::from("publish"), path: String::from("out") }.message(),
        "cannot publish at out"
    );
    assert_eq!(
        SiteError::Copy { source: String::from("public/a"), destination: String::from("tmp/a") }.message(),
        "cannot copy public/a to tmp/a"
    );
}

#[test]
fn articles_are_loaded_in_the_order_of_the_files() {
    let articles = load_articles(vec![
        SourceFile { name: String::from("2-b.md"), text: String::from("# Second\nbody") },
        SourceFile { name: String::from("1-a.markdown"), text: String::from("no heading") },
        SourceFile { name: String::from("notes"), text: String::from("x\n# Notes ") },
    ]);
    assert_eq!(articles.len(), 3);
    assert_eq!(articles[0].slug, "2-b");
    assert_eq!(articles[0].title, "Second");
    assert_eq!(articles[0].markdown, "# Second\nbody");
    assert_eq!(articles[1].slug, "1-a");
    assert_eq!(articles[1].title, "");
    assert_eq!(articles[2].slug, "notes");
    assert_eq!(articles[2].title, "Notes");
    assert_eq!(load_articles(vec![]), vec![]);
}

#[test]
fn defaults_fill_in_for_missing_options() {
    let c = Config::with_defaults(None, None, None, None, None);
    assert_eq!(
        c,
        Config {
            articles_dir: String::from("articles"),
            static_dir: None,
            destination_dir: String::from("site"),
            email: None,
            css_path: None,
        }
    );
    let c = Config::with_defaults(
        Some(String::from("posts")),
        Some(String::from("public")),
        Some(String::from("out")),
        Some(String::from("me@example.com")),
        Some(String::from("my.css")),
    );
    assert_eq!(
        c,
        Config {
            articles_dir: String::from("posts"),
            static_dir: Some(String::from("public")),
            destination_dir: String::from("out"),
            email: Some(String::from("me@example.com")),
            css_path: Some(String::from("my.css")),
        }
    );
}

#[test]
fn pages_do_not_depend_on_the_listing_order() {
    let pages_for = |files: Vec<SourceFile>| {
        let (actions, end) = run(config(None, Some("x@y.com"), None), &|action| match action {
            Action::LoadArticles { .. } => Outcome::Read(files.clone()),
            _ => Outcome::Done,
        });
        assert_eq!(end, Ok(()));
        actions
            .into_iter()
            .find_map(|a| match a {
                Action::WritePages { files, .. } => Some(files),
                _ => None,
            })
            .unwrap()
    };
    let a = SourceFile { name: String::from("1-a.md"), text: String::from("# First\nbody") };
    let b = SourceFile { name: String::from("2-b.md"), text: String::from("# Second\nbody") };
    let c = SourceFile { name: String::from("3-c.md"), text: String::from("# Third\nbody") };
    let one = pages_for(vec![a.clone(), b.clone(), c.clone()]);
    assert_eq!(one.len(), 4);
    assert_eq!(pages_for(vec![c.clone(), a.clone(), b.clone()]), one);
    assert_eq!(pages_for(vec![b, c, a]), one);
}

#[test]
fn every_run_ends_within_eleven_steps() {
    let answers: [&dyn Fn(&Action) -> Outcome; 3] = [&all_well, &|_| Outcome::Missing, &|_| Outcome::Failed];
    for answer in answers {
        for static_dir in [None, Some("public")] {
            for css in [None, Some("my.css")] {
                let (actions, _) = run(config(static_dir, None, css), answer);
                assert!(actions.len() <= 11);
            }
        }
    }
}

#[test]
fn a_finished_run_has_published() {
    for static_dir in [None, Some("public")] {
        for css in [None, Some("my.css")] {
            let (actions, end) = run(config(static_dir, None, css), &all_well);
            assert_eq!(end, Ok(()));
            let publish = Action::Publish { from: String::from("tmp"), to: String::from("out") };
            assert_eq!(actions.iter().filter(|a| **a == publish).count(), 1);
            let clear = actions.iter().position(|a| matches!(a, Action::ClearDestination { .. })).unwrap();
            let rename = actions.iter().position(|a| *a == publish).unwrap();
            assert_eq!(clear + 1, rename);
            assert!(!actions[..clear].iter().any(touches_destination));
        }
    }
}
