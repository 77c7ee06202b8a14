use aiken::export_ast::{
    exec, has_source_extension, module_kind, output_file_name, Args, PathAction, PathFacts,
};
use aiken::ast::ModuleKind;
use aiken::file_search::{Entry, FileSearch, SearchStep};

fn file(id: usize, extension: &str) -> Entry {
    Entry {
        id,
        is_dir: false,
        file_name: Some(format!("f.{}", extension)),
        extension: Some(extension.to_string()),
    }
}

fn directory(id: usize, name: &str) -> Entry {
    Entry { id, is_dir: true, file_name: Some(name.to_string()), extension: None }
}

#[test]
fn files_are_found_in_the_order_of_the_entries() {
    let search = FileSearch::new().enter(vec![
        file(1, "ak"),
        directory(2, "lib"),
        file(3, "md"),
        file(4, "ak"),
    ]);
    let (search, step) = search.advance();
    assert_eq!(step, SearchStep::ReadDirectory(2));
    let search = search.enter(vec![directory(5, "target"), file(6, "ak"), directory(7, "deep")]);
    let (search, step) = search.advance();
    assert_eq!(step, SearchStep::ReadDirectory(7));
    let search = search.enter(vec![file(8, "ak")]);
    let (search, step) = search.advance();
    assert_eq!(step, SearchStep::Finished);
    assert_eq!(search.into_found(), vec![1, 6, 8, 4]);
}

#[test]
fn a_directory_named_target_is_not_searched() {
    let search = FileSearch::new().enter(vec![directory(1, "target"), directory(2, "targets")]);
    let (search, step) = search.advance();
    assert_eq!(step, SearchStep::ReadDirectory(2));
    let (search, step) = search.enter(vec![]).advance();
    assert_eq!(step, SearchStep::Finished);
    assert!(search.into_found().is_empty());
}

#[test]
fn a_file_named_target_is_no_directory() {
    let entry = Entry {
        id: 9,
        is_dir: false,
        file_name: Some("target".to_string()),
        extension: Some("ak".to_string()),
    };
    let (search, step) = FileSearch::new().enter(vec![entry]).advance();
    assert_eq!(step, SearchStep::Finished);
    assert_eq!(search.into_found(), vec![9]);
}

#[test]
fn a_directory_with_the_extension_of_a_source_file_is_searched() {
    let entry = Entry {
        id: 3,
        is_dir: true,
        file_name: Some("x.ak".to_string()),
        extension: Some("ak".to_string()),
    };
    let (search, step) = FileSearch::new().enter(vec![entry]).advance();
    assert_eq!(step, SearchStep::ReadDirectory(3));
    assert!(search.into_found().is_empty());
}

#[test]
fn nothing_is_found_in_nothing() {
    let (search, step) = FileSearch::new().advance();
    assert_eq!(step, SearchStep::Finished);
    assert!(search.into_found().is_empty());
}

fn facts(is_file: bool, is_dir: bool, extension: Option<&str>) -> PathFacts {
    PathFacts { is_file, is_dir, extension: extension.map(|e| e.to_string()) }
}

#[test]
fn each_path_has_its_action() {
    let args = Args {
        paths: vec!["a.ak".to_string(), "dir".to_string(), "b.txt".to_string(), "c.ak".to_string()],
        output_dir: "out".to_string(),
        detailed: true,
    };
    let known = vec![
        facts(true, false, Some("ak")),
        facts(false, true, None),
        facts(true, false, Some("txt")),
        facts(false, false, Some("ak")),
    ];
    let actions: Vec<PathAction> = (0..4).map(|i| exec(&args, i, &known[i])).collect();
    assert_eq!(actions.len(), 4);
    assert!(
        matches!(&actions[0], PathAction::ExportFile { path, detailed: true } if path == "a.ak")
    );
    assert!(
        matches!(&actions[1], PathAction::ExportProject { path, detailed: true } if path == "dir")
    );
    assert!(matches!(
        &actions[2],
        PathAction::Skip { message } if message == "Skipping invalid path: b.txt"
    ));
    assert!(matches!(
        &actions[3],
        PathAction::Skip { message } if message == "Skipping invalid path: c.ak"
    ));
}

#[test]
fn a_directory_named_like_a_file_is_a_project() {
    let args =
        Args { paths: vec!["x.ak".to_string()], output_dir: "o".to_string(), detailed: false };
    let action = exec(&args, 0, &facts(false, true, Some("ak")));
    assert!(matches!(action, PathAction::ExportProject { detailed: false, .. }));
}

#[test]
fn the_path_tells_the_kind_of_the_module() {
    assert_eq!(module_kind("project/validators/spend.ak"), ModuleKind::Validator);
    assert_eq!(module_kind("project/lib/util.ak"), ModuleKind::Lib);
}

#[test]
fn exports_of_differently_named_files_differ() {
    assert_eq!(output_file_name("spend.ak"), "spend.ak.ast.json");
    assert_ne!(output_file_name("spend.ak"), output_file_name("mint.ak"));
}

#[test]
fn only_one_extension_marks_source_files() {
    assert!(has_source_extension(&Some("ak".to_string())));
    assert!(!has_source_extension(&Some("akx".to_string())));
    assert!(!has_source_extension(&None));
}
