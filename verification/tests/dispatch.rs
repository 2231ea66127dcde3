use swf_packer::dispatch::{Argument, Channel, Invocation, Notice, Outcome};
use swf_packer::export_type::ExportType;
use swf_packer::path::RelPath;

fn path(parts: &[&str]) -> RelPath {
    RelPath { parts: parts.iter().map(|part| part.to_string()).collect() }
}

#[test]
fn plan_for_container_in_root() {
    let planned = Invocation::plan(&ExportType::Image, &RelPath::root(), "x.swf");
    assert_eq!(
        planned,
        Some(Invocation {
            category: "image".to_string(),
            output: path(&["x_swf"]),
            input: path(&["x.swf"]),
        })
    );
}

#[test]
fn plan_for_container_in_nested_directory() {
    let planned = Invocation::plan(&ExportType::BinaryData, &path(&["a", "b"]), "y.swf");
    assert_eq!(
        planned,
        Some(Invocation {
            category: "binaryData".to_string(),
            output: path(&["a", "b", "y_swf"]),
            input: path(&["a", "b", "y.swf"]),
        })
    );
}

#[test]
fn plan_passes_unknown_category_through() {
    let category = ExportType::from_str("NewKind").unwrap();
    let planned = Invocation::plan(&category, &path(&["d"]), "m.swf").unwrap();
    assert_eq!(planned.category, "newkind");
}

#[test]
fn no_plan_for_other_files() {
    for name in ["notes.txt", "x.SWF", "swf", ".swf", "", "x.swf.bak", "x"] {
        assert_eq!(Invocation::plan(&ExportType::All, &path(&["a"]), name), None);
    }
}

#[test]
fn program_is_the_decompiler_command() {
    assert_eq!(Invocation::program(), "ffdec-cli");
}

#[test]
fn arguments_come_in_fixed_order() {
    let run = Invocation {
        category: "image".to_string(),
        output: path(&["a", "x_swf"]),
        input: path(&["a", "x.swf"]),
    };
    assert_eq!(
        run.arguments(),
        vec![
            Argument::Word("-export".to_string()),
            Argument::Word("image".to_string()),
            Argument::UnderOutputRoot(path(&["a", "x_swf"])),
            Argument::UnderInputRoot(path(&["a", "x.swf"])),
        ]
    );
}

#[test]
fn outcome_of_a_run_that_did_not_start() {
    assert_eq!(Outcome::from_status(false, None), Outcome::NotStarted);
    assert_eq!(Outcome::from_status(false, Some(0)), Outcome::NotStarted);
    assert_eq!(Outcome::from_status(false, Some(3)), Outcome::NotStarted);
}

#[test]
fn outcome_of_exit_status_zero_is_success() {
    assert_eq!(Outcome::from_status(true, Some(0)), Outcome::Succeeded);
}

#[test]
fn outcome_of_any_other_status_is_failure() {
    assert_eq!(Outcome::from_status(true, Some(1)), Outcome::Failed);
    assert_eq!(Outcome::from_status(true, Some(-1)), Outcome::Failed);
    assert_eq!(Outcome::from_status(true, Some(255)), Outcome::Failed);
    assert_eq!(Outcome::from_status(true, Some(i32::MIN)), Outcome::Failed);
    assert_eq!(Outcome::from_status(true, None), Outcome::Failed);
}

#[test]
fn success_is_written_to_standard_output() {
    assert_eq!(Outcome::Succeeded.channel(), Channel::Output);
}

#[test]
fn failures_are_written_to_standard_error() {
    assert_eq!(Outcome::Failed.channel(), Channel::Error);
    assert_eq!(Outcome::NotStarted.channel(), Channel::Error);
}

#[test]
fn notice_names_what_the_outcome_is_about() {
    let run = Invocation {
        category: "sound".to_string(),
        output: path(&["a", "x_swf"]),
        input: path(&["a", "x.swf"]),
    };
    assert_eq!(
        Outcome::NotStarted.notice(&run),
        Notice::MissingCommand("ffdec-cli".to_string())
    );
    assert_eq!(Outcome::Failed.notice(&run), Notice::ExportFailed(path(&["a", "x.swf"])));
    assert_eq!(Outcome::Succeeded.notice(&run), Notice::Exported(path(&["a", "x_swf"])));
}

#[test]
fn root_path_is_empty() {
    assert_eq!(RelPath::root().parts, Vec::<String>::new());
    assert_eq!(RelPath::root().depth(), 0);
}

#[test]
fn child_appends_one_name() {
    let dir = path(&["a", "b"]);
    let entry = dir.child("c.swf");
    assert_eq!(entry, path(&["a", "b", "c.swf"]));
    assert_eq!(entry.depth(), 3);
    assert_eq!(dir, path(&["a", "b"]));
    assert_eq!(RelPath::root().child("a"), path(&["a"]));
}

#[test]
fn clone_keeps_every_name() {
    let original = path(&["a", "ü", ""]);
    assert_eq!(original.clone(), original);
}
