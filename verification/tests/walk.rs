use std::collections::HashMap;
use swf_packer::dispatch::{Argument, Invocation, Outcome};
use swf_packer::export_type::ExportType;
use swf_packer::path::RelPath;
use swf_packer::walk::{
    input_root_name, output_root_name, Entry, EntryKind, Event, Request, Walker,
};

fn path(parts: &[&str]) -> RelPath {
    RelPath { parts: parts.iter().map(|part| part.to_string()).collect() }
}

fn dir(name: &str) -> Entry {
    Entry { name: name.to_string(), kind: EntryKind::Directory }
}

fn file(name: &str) -> Entry {
    Entry { name: name.to_string(), kind: EntryKind::File }
}

fn other(name: &str) -> Entry {
    Entry { name: name.to_string(), kind: EntryKind::Other }
}

fn run(category: &str, dir: &[&str], name: &str, exported: &str) -> Request {
    let mut output: Vec<&str> = dir.to_vec();
    output.push(exported);
    let mut input: Vec<&str> = dir.to_vec();
    input.push(name);
    Request::Run(Invocation {
        category: category.to_string(),
        output: path(&output),
        input: path(&input),
    })
}

/// Directories by their path; one that is missing cannot be listed.
struct Tree {
    listings: HashMap<Vec<String>, Vec<Entry>>,
    unmakeable: Vec<Vec<String>>,
    failing: Vec<Vec<String>>,
    missing_command: bool,
}

fn tree(listings: Vec<(&[&str], Vec<Entry>)>) -> Tree {
    let mut map = HashMap::new();
    for (at, entries) in listings {
        map.insert(at.iter().map(|part| part.to_string()).collect(), entries);
    }
    Tree { listings: map, unmakeable: Vec::new(), failing: Vec::new(), missing_command: false }
}

/// Drives a walk to its end and gives every request it made, the first included.
fn drive(tree: &Tree, category: ExportType) -> Vec<Request> {
    let (mut walker, first) = Walker::start(category);
    let mut requests = vec![first];
    let mut steps = 0;
    loop {
        let event = match requests.last().unwrap() {
            Request::Mirror(at) => {
                if tree.unmakeable.contains(&at.parts) {
                    Event::Failed
                } else {
                    Event::Mirrored
                }
            }
            Request::List(at) => match tree.listings.get(&at.parts) {
                Some(entries) => Event::Listed(entries.clone()),
                None => Event::Failed,
            },
            Request::Run(run) => {
                if tree.missing_command {
                    Event::Ran(Outcome::NotStarted)
                } else if tree.failing.contains(&run.input.parts) {
                    Event::Ran(Outcome::Failed)
                } else {
                    Event::Ran(Outcome::Succeeded)
                }
            }
            Request::Finished | Request::Aborted => break,
        };
        requests.push(walker.step(event));
        steps += 1;
        assert!(steps < 1000);
    }
    assert!(walker.is_over());
    requests
}

fn example() -> Tree {
    tree(vec![
        (&[], vec![dir("a")]),
        (&["a"], vec![file("x.swf"), dir("b"), file("notes.txt")]),
        (&["a", "b"], vec![file("y.swf")]),
    ])
}

#[test]
fn roots_have_fixed_names() {
    assert_eq!(input_root_name(), "original");
    assert_eq!(output_root_name(), "assets");
}

#[test]
fn walk_begins_by_mirroring_the_root() {
    let (walker, first) = Walker::start(ExportType::Image);
    assert_eq!(first, Request::Mirror(RelPath::root()));
    assert!(!walker.is_over());
}

#[test]
fn root_is_listed_once_it_is_mirrored() {
    let (mut walker, _) = Walker::start(ExportType::Image);
    assert_eq!(walker.step(Event::Mirrored), Request::List(RelPath::root()));
}

#[test]
fn empty_tree_is_finished_at_once() {
    let requests = drive(&tree(vec![(&[], vec![])]), ExportType::All);
    assert_eq!(
        requests,
        vec![Request::Mirror(path(&[])), Request::List(path(&[])), Request::Finished]
    );
}

#[test]
fn example_tree_is_mirrored_and_exported() {
    let requests = drive(&example(), ExportType::from_str("image").unwrap());
    assert_eq!(
        requests,
        vec![
            Request::Mirror(path(&[])),
            Request::List(path(&[])),
            Request::Mirror(path(&["a"])),
            Request::List(path(&["a"])),
            run("image", &["a"], "x.swf", "x_swf"),
            Request::Mirror(path(&["a", "b"])),
            Request::List(path(&["a", "b"])),
            run("image", &["a", "b"], "y.swf", "y_swf"),
            Request::Finished,
        ]
    );
}

#[test]
fn example_tree_gives_two_invocations() {
    let requests = drive(&example(), ExportType::Image);
    let runs: Vec<&Invocation> = requests
        .iter()
        .filter_map(|request| match request {
            Request::Run(run) => Some(run),
            _ => None,
        })
        .collect();
    assert_eq!(runs.len(), 2);
    assert_eq!(
        runs[0].arguments(),
        vec![
            Argument::Word("-export".to_string()),
            Argument::Word("image".to_string()),
            Argument::UnderOutputRoot(path(&["a", "x_swf"])),
            Argument::UnderInputRoot(path(&["a", "x.swf"])),
        ]
    );
    assert_eq!(
        runs[1].arguments(),
        vec![
            Argument::Word("-export".to_string()),
            Argument::Word("image".to_string()),
            Argument::UnderOutputRoot(path(&["a", "b", "y_swf"])),
            Argument::UnderInputRoot(path(&["a", "b", "y.swf"])),
        ]
    );
    assert!(runs.iter().all(|run| run.input.parts.last().unwrap() != "notes.txt"));
}

#[test]
fn every_directory_is_mirrored_under_the_same_path() {
    let tree = tree(vec![
        (&[], vec![dir("a"), file("readme"), dir("c")]),
        (&["a"], vec![dir("b")]),
        (&["a", "b"], vec![]),
        (&["c"], vec![dir("d"), dir("e")]),
        (&["c", "d"], vec![]),
        (&["c", "e"], vec![]),
    ]);
    let requests = drive(&tree, ExportType::Script);
    for at in tree.listings.keys() {
        let parts: Vec<&str> = at.iter().map(|part| part.as_str()).collect();
        assert!(requests.contains(&Request::Mirror(path(&parts))));
        assert!(requests.contains(&Request::List(path(&parts))));
    }
    assert_eq!(requests.last(), Some(&Request::Finished));
    assert!(!requests.iter().any(|request| matches!(request, Request::Run(_))));
}

#[test]
fn directory_is_mirrored_before_anything_inside_it() {
    let requests = drive(&example(), ExportType::Image);
    for (at, request) in requests.iter().enumerate() {
        let needed = match request {
            Request::Run(run) => {
                let mut parts = run.output.parts.clone();
                parts.pop();
                parts
            }
            Request::List(at) => at.parts.clone(),
            _ => continue,
        };
        let mirror = Request::Mirror(RelPath { parts: needed });
        assert!(requests[..at].contains(&mirror));
    }
}

#[test]
fn files_with_other_extensions_are_not_exported() {
    let tree = tree(vec![(
        &[],
        vec![
            file("notes.txt"),
            file("x.SWF"),
            file("swf"),
            file(".swf"),
            file("x.swf.bak"),
            file("plain"),
            file("ok.swf"),
        ],
    )]);
    let requests = drive(&tree, ExportType::Sound);
    assert_eq!(
        requests,
        vec![
            Request::Mirror(path(&[])),
            Request::List(path(&[])),
            run("sound", &[], "ok.swf", "ok_swf"),
            Request::Finished,
        ]
    );
}

#[test]
fn entries_that_are_neither_file_nor_directory_are_skipped() {
    let tree = tree(vec![(&[], vec![other("link.swf"), other("socket"), file("x.swf")])]);
    let requests = drive(&tree, ExportType::Text);
    assert_eq!(
        requests,
        vec![
            Request::Mirror(path(&[])),
            Request::List(path(&[])),
            run("text", &[], "x.swf", "x_swf"),
            Request::Finished,
        ]
    );
}

#[test]
fn directory_with_container_name_is_walked_not_exported() {
    let tree = tree(vec![(&[], vec![dir("d.swf")]), (&["d.swf"], vec![file("x.swf")])]);
    let requests = drive(&tree, ExportType::Font);
    assert_eq!(
        requests,
        vec![
            Request::Mirror(path(&[])),
            Request::List(path(&[])),
            Request::Mirror(path(&["d.swf"])),
            Request::List(path(&["d.swf"])),
            run("font", &["d.swf"], "x.swf", "x_swf"),
            Request::Finished,
        ]
    );
}

#[test]
fn failed_export_does_not_stop_the_walk() {
    let mut failing = example();
    failing.failing.push(vec!["a".to_string(), "x.swf".to_string()]);
    assert_eq!(drive(&failing, ExportType::Image), drive(&example(), ExportType::Image));
}

#[test]
fn missing_command_does_not_stop_the_walk() {
    let mut missing = example();
    missing.missing_command = true;
    let requests = drive(&missing, ExportType::Image);
    assert_eq!(requests, drive(&example(), ExportType::Image));
    assert_eq!(requests.last(), Some(&Request::Finished));
}

#[test]
fn next_request_is_the_same_for_every_outcome() {
    for outcome in [Outcome::NotStarted, Outcome::Failed, Outcome::Succeeded] {
        let (mut walker, _) = Walker::start(ExportType::Movie);
        walker.step(Event::Mirrored);
        let asked = walker.step(Event::Listed(vec![file("a.swf"), file("b.swf"), dir("c")]));
        assert_eq!(asked, run("movie", &[], "a.swf", "a_swf"));
        assert_eq!(walker.step(Event::Ran(outcome)), run("movie", &[], "b.swf", "b_swf"));
        assert_eq!(walker.step(Event::Ran(outcome)), Request::Mirror(path(&["c"])));
    }
}

#[test]
fn directory_that_cannot_be_listed_ends_the_walk() {
    let tree = tree(vec![(&[], vec![file("x.swf"), dir("locked"), file("y.swf")])]);
    let requests = drive(&tree, ExportType::Image);
    assert_eq!(
        requests,
        vec![
            Request::Mirror(path(&[])),
            Request::List(path(&[])),
            run("image", &[], "x.swf", "x_swf"),
            Request::Mirror(path(&["locked"])),
            Request::List(path(&["locked"])),
            Request::Aborted,
        ]
    );
}

#[test]
fn root_that_cannot_be_listed_ends_the_walk() {
    let requests = drive(&tree(vec![]), ExportType::Image);
    assert_eq!(
        requests,
        vec![Request::Mirror(path(&[])), Request::List(path(&[])), Request::Aborted]
    );
}

#[test]
fn directory_that_cannot_be_made_ends_the_walk() {
    let mut tree = example();
    tree.unmakeable.push(vec!["a".to_string(), "b".to_string()]);
    let requests = drive(&tree, ExportType::Image);
    assert_eq!(
        requests,
        vec![
            Request::Mirror(path(&[])),
            Request::List(path(&[])),
            Request::Mirror(path(&["a"])),
            Request::List(path(&["a"])),
            run("image", &["a"], "x.swf", "x_swf"),
            Request::Mirror(path(&["a", "b"])),
            Request::Aborted,
        ]
    );
}

#[test]
fn event_that_answers_nothing_ends_the_walk() {
    let (mut walker, _) = Walker::start(ExportType::Image);
    assert_eq!(walker.step(Event::Ran(Outcome::Succeeded)), Request::Aborted);
    assert!(walker.is_over());

    let (mut walker, _) = Walker::start(ExportType::Image);
    assert_eq!(walker.step(Event::Listed(vec![file("x.swf")])), Request::Aborted);

    let (mut walker, _) = Walker::start(ExportType::Image);
    walker.step(Event::Mirrored);
    assert_eq!(walker.step(Event::Mirrored), Request::Aborted);

    let (mut walker, _) = Walker::start(ExportType::Image);
    walker.step(Event::Mirrored);
    walker.step(Event::Listed(vec![file("x.swf")]));
    assert_eq!(walker.step(Event::Failed), Request::Aborted);
}

#[test]
fn ended_walk_stays_ended() {
    let (mut walker, _) = Walker::start(ExportType::Image);
    walker.step(Event::Mirrored);
    assert_eq!(walker.step(Event::Listed(vec![])), Request::Finished);
    assert!(walker.is_over());
    assert_eq!(walker.step(Event::Mirrored), Request::Finished);
    assert_eq!(walker.step(Event::Failed), Request::Finished);
    assert_eq!(walker.step(Event::Listed(vec![file("x.swf")])), Request::Finished);

    let (mut walker, _) = Walker::start(ExportType::Image);
    assert_eq!(walker.step(Event::Failed), Request::Aborted);
    assert_eq!(walker.step(Event::Mirrored), Request::Aborted);
    assert_eq!(walker.step(Event::Listed(vec![])), Request::Aborted);
    assert!(walker.is_over());
}

#[test]
fn siblings_after_a_directory_are_still_processed() {
    let tree = tree(vec![
        (&[], vec![dir("a"), file("z.swf"), dir("b")]),
        (&["a"], vec![file("x.swf")]),
        (&["b"], vec![file("y.swf")]),
    ]);
    let mut failing = tree;
    failing.failing.push(vec!["a".to_string(), "x.swf".to_string()]);
    let requests = drive(&failing, ExportType::Other("custom".to_string()));
    assert_eq!(
        requests,
        vec![
            Request::Mirror(path(&[])),
            Request::List(path(&[])),
            Request::Mirror(path(&["a"])),
            Request::List(path(&["a"])),
            run("custom", &["a"], "x.swf", "x_swf"),
            run("custom", &[], "z.swf", "z_swf"),
            Request::Mirror(path(&["b"])),
            Request::List(path(&["b"])),
            run("custom", &["b"], "y.swf", "y_swf"),
            Request::Finished,
        ]
    );
}
