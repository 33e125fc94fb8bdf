use blarf::error::SiteError;
use blarf::util::{CopyOutcome, CopyProgress, CopyStep, Entry, TreeCopy};

/// A tree in memory: a file, or a directory of named trees.
enum Node {
    File,
    Dir(Vec<(&'static str, Node)>),
}

fn lookup<'a>(root: &'a Node, root_path: &str, path: &str) -> &'a Node {
    let rest = path.strip_prefix(root_path).unwrap();
    let mut node = root;
    for part in rest.split('/').filter(|p| !p.is_empty()) {
        node = match node {
            Node::Dir(children) => &children.iter().find(|(name, _)| *name == part).unwrap().1,
            Node::File => panic!("a file has no entries"),
        };
    }
    node
}

fn listing(node: &Node) -> Vec<Entry> {
    match node {
        Node::Dir(children) => children
            .iter()
            .map(|(name, child)| Entry { name: String::from(*name), is_dir: matches!(child, Node::Dir(_)) })
            .collect(),
        Node::File => panic!("a file has no entries"),
    }
}

/// Mirrors `tree`, which lies at `from`, into `to`; fails the step whose
/// number is `failing`. Gives the steps and the end.
fn mirror(tree: &Node, from: &str, to: &str, failing: Option<usize>) -> (Vec<CopyStep>, Result<(), SiteError>) {
    let mut steps = Vec::new();
    let mut progress = TreeCopy::start(String::from(from), String::from(to));
    loop {
        match progress {
            CopyProgress::Next(copy, step) => {
                let outcome = if failing == Some(steps.len()) {
                    CopyOutcome::Failed
                } else {
                    match &step {
                        CopyStep::List { dir } => CopyOutcome::Listed(listing(lookup(tree, from, dir))),
                        _ => CopyOutcome::Done,
                    }
                };
                steps.push(step);
                progress = copy.advance(outcome);
            }
            CopyProgress::Finished => return (steps, Ok(())),
            CopyProgress::Failed(error) => return (steps, Err(error)),
        }
    }
}

fn list(dir: &str) -> CopyStep {
    CopyStep::List { dir: String::from(dir) }
}

fn create(path: &str) -> CopyStep {
    CopyStep::CreateDir { path: String::from(path) }
}

fn copy(from: &str, to: &str) -> CopyStep {
    CopyStep::CopyFile { from: String::from(from), to: String::from(to) }
}

fn sample() -> Node {
    Node::Dir(vec![
        ("a.txt", Node::File),
        (
            "img",
            Node::Dir(vec![
                ("deep", Node::Dir(vec![("x.png", Node::File)])),
                ("logo.png", Node::File),
                ("empty", Node::Dir(vec![])),
            ]),
        ),
        ("z.txt", Node::File),
    ])
}

#[test]
fn mirrors_a_nested_tree() {
    let (steps, end) = mirror(&sample(), "public", "tmp", None);
    assert_eq!(end, Ok(()));
    let expected = vec![
        list("public"),
        copy("public/a.txt", "tmp/a.txt"),
        create("tmp/img"),
        list("public/img"),
        create("tmp/img/deep"),
        list("public/img/deep"),
        copy("public/img/deep/x.png", "tmp/img/deep/x.png"),
        copy("public/img/logo.png", "tmp/img/logo.png"),
        create("tmp/img/empty"),
        list("public/img/empty"),
        copy("public/z.txt", "tmp/z.txt"),
    ];
    assert_eq!(steps, expected);
}

#[test]
fn every_entry_keeps_its_relative_path() {
    let (steps, _) = mirror(&sample(), "src/root", "dest/root", None);
    let mut files = 0;
    let mut dirs = 0;
    for step in &steps {
        match step {
            CopyStep::CopyFile { from, to } => {
                files += 1;
                assert_eq!(from.strip_prefix("src/root"), to.strip_prefix("dest/root"));
            }
            CopyStep::CreateDir { .. } => dirs += 1,
            CopyStep::List { .. } => {}
        }
    }
    assert_eq!(files, 4);
    assert_eq!(dirs, 3);
}

#[test]
fn a_directory_is_created_before_it_is_filled() {
    let (steps, _) = mirror(&sample(), "public", "tmp", None);
    for (i, step) in steps.iter().enumerate() {
        let target = match step {
            CopyStep::CopyFile { to, .. } => to,
            CopyStep::CreateDir { path } => path,
            CopyStep::List { .. } => continue,
        };
        let parent = &target[..target.rfind('/').unwrap()];
        if parent != "tmp" {
            let made = steps[..i].iter().any(|s| *s == create(parent));
            assert!(made, "{} before {}", parent, target);
        }
    }
}

#[test]
fn empty_tree_needs_only_its_listing() {
    let (steps, end) = mirror(&Node::Dir(vec![]), "public", "tmp", None);
    assert_eq!(end, Ok(()));
    assert_eq!(steps, vec![list("public")]);
}

#[test]
fn flat_tree_copies_each_file() {
    let tree = Node::Dir(vec![("one", Node::File), ("two", Node::File)]);
    let (steps, end) = mirror(&tree, "s", "d", None);
    assert_eq!(end, Ok(()));
    assert_eq!(steps, vec![list("s"), copy("s/one", "d/one"), copy("s/two", "d/two")]);
}

#[test]
fn first_failure_ends_the_copy_and_names_the_paths() {
    let copy_error = |source: &str, destination: &str| {
        Err(SiteError::Copy { source: String::from(source), destination: String::from(destination) })
    };
    let (steps, end) = mirror(&sample(), "public", "tmp", Some(0));
    assert_eq!(steps.len(), 1);
    assert_eq!(end, copy_error("public", "tmp"));
    let (steps, end) = mirror(&sample(), "public", "tmp", Some(1));
    assert_eq!(steps.len(), 2);
    assert_eq!(end, copy_error("public/a.txt", "tmp/a.txt"));
    let (steps, end) = mirror(&sample(), "public", "tmp", Some(2));
    assert_eq!(steps.len(), 3);
    assert_eq!(end, copy_error("public/img", "tmp/img"));
    let (steps, end) = mirror(&sample(), "public", "tmp", Some(3));
    assert_eq!(steps.len(), 4);
    assert_eq!(end, copy_error("public/img", "tmp/img"));
    let (steps, end) = mirror(&sample(), "public", "tmp", Some(6));
    assert_eq!(steps.len(), 7);
    assert_eq!(end, copy_error("public/img/deep/x.png", "tmp/img/deep/x.png"));
}

#[test]
fn an_answer_of_the_wrong_kind_ends_the_copy() {
    let start = || match TreeCopy::start(String::from("s"), String::from("d")) {
        CopyProgress::Next(copy, step) => {
            assert_eq!(step, list("s"));
            copy
        }
        _ => panic!("the copy should start"),
    };
    let failed = |progress: CopyProgress| match progress {
        CopyProgress::Failed(error) => error,
        _ => panic!("the copy should have failed"),
    };
    let error = SiteError::Copy { source: String::from("s"), destination: String::from("d") };
    assert_eq!(failed(start().advance(CopyOutcome::Done)), error);
    assert_eq!(failed(start().advance(CopyOutcome::Failed)), error);
    let entries = vec![Entry { name: String::from("f"), is_dir: false }];
    match start().advance(CopyOutcome::Listed(entries)) {
        CopyProgress::Next(copy, step) => {
            assert_eq!(step, CopyStep::CopyFile { from: String::from("s/f"), to: String::from("d/f") });
            let wrong = copy.advance(CopyOutcome::Listed(vec![]));
            assert_eq!(failed(wrong), SiteError::Copy { source: String::from("s/f"), destination: String::from("d/f") });
        }
        _ => panic!("the copy should go on"),
    }
}
