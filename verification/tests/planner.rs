use fixmyhalo::planner::{
    accepts_extension, base_path, is_image, output_path, output_policy, plan, select_inputs,
    to_ascii_lower, walk_depth, Found, OutputPolicy, PlanningError, RootKind,
};
use std::path::{Path, PathBuf};

fn entry(path: &str, is_file: bool) -> Found {
    Found { path: path.to_string(), is_file }
}

fn path(parts: &[&str]) -> String {
    let joined: PathBuf = parts.iter().collect();
    joined.to_string_lossy().into_owned()
}

#[test]
fn extensions_are_matched_without_case() {
    for accepted in ["png", "jpg", "jpeg", "PNG", "Jpg", "jPeG", "JPEG"] {
        assert!(accepts_extension(accepted), "{}", accepted);
    }
    for refused in ["txt", "", "pn", "pngg", "gif", "jpe", "p.g", "\u{212a}", "pn\u{11f}"] {
        assert!(!accepts_extension(refused), "{}", refused);
    }
}

#[test]
fn ascii_letters_are_lowered() {
    assert_eq!(to_ascii_lower('A'), 'a');
    assert_eq!(to_ascii_lower('Z'), 'z');
    assert_eq!(to_ascii_lower('q'), 'q');
    assert_eq!(to_ascii_lower('@'), '@');
    assert_eq!(to_ascii_lower('['), '[');
    assert_eq!(to_ascii_lower('\u{c9}'), '\u{c9}');
}

#[test]
fn images_are_told_by_extension() {
    assert!(is_image("a.png"));
    assert!(is_image(&path(&["dir.txt", "b.JPG"])));
    assert!(is_image("archive.tar.jpeg"));
    assert!(!is_image("notes.txt"));
    assert!(!is_image("png"));
    assert!(!is_image(".png"));
    assert!(!is_image(&path(&["dir.png", "file"])));
    assert!(!is_image(""));
}

#[test]
fn directory_listing_is_filtered_by_extension() {
    let found = vec![
        entry(&path(&["in"]), false),
        entry(&path(&["in", "a.png"]), true),
        entry(&path(&["in", "b.jpg"]), true),
        entry(&path(&["in", "c.txt"]), true),
        entry(&path(&["in", "d.PNG"]), true),
        entry(&path(&["in", "sub.png"]), false),
    ];
    let jobs = plan(RootKind::Directory, "in", &found, &OutputPolicy::InPlace).unwrap();
    let inputs: Vec<&str> = jobs.iter().map(|job| job.input_path.as_str()).collect();
    assert_eq!(
        inputs,
        vec![path(&["in", "a.png"]), path(&["in", "b.jpg"]), path(&["in", "d.PNG"])]
    );
    assert_eq!(walk_depth(false), 1);
    assert_eq!(walk_depth(true), usize::MAX);
}

#[test]
fn in_place_with_output_directory_is_refused() {
    let policy = output_policy(true, Some("out".to_string()));
    assert!(matches!(policy, Err(PlanningError::ConflictingOutput)));
}

#[test]
fn policy_follows_the_options() {
    assert!(matches!(output_policy(true, None), Ok(OutputPolicy::InPlace)));
    assert!(matches!(output_policy(false, None), Ok(OutputPolicy::Default)));
    match output_policy(false, Some("out".to_string())) {
        Ok(OutputPolicy::Into(dir)) => assert_eq!(dir, "out"),
        other => panic!("{:?}", other),
    }
}

#[test]
fn single_file_is_taken_whatever_its_extension() {
    let inputs = select_inputs(RootKind::File, "notes.txt", &vec![entry("x.png", true)]);
    assert_eq!(inputs, vec!["notes.txt".to_string()]);
}

#[test]
fn pattern_matches_are_filtered() {
    let found = vec![entry("a.png", true), entry("b.txt", true), entry("c.jpeg", false)];
    let inputs = select_inputs(RootKind::Pattern, "*.*", &found);
    assert_eq!(inputs, vec!["a.png".to_string()]);
}

#[test]
fn base_path_follows_the_root() {
    assert_eq!(base_path(RootKind::Directory, "textures"), "textures");
    assert_eq!(base_path(RootKind::File, &path(&["textures", "a.png"])), "textures");
    assert_eq!(base_path(RootKind::File, "a.png"), "");
    assert_eq!(base_path(RootKind::File, ""), ".");
    assert_eq!(base_path(RootKind::Pattern, &path(&["textures", "*.png"])), ".");
}

#[test]
fn in_place_output_is_the_input() {
    let input = path(&["in", "sub", "a.png"]);
    assert_eq!(output_path(&input, "in", &OutputPolicy::InPlace), Some(input.clone()));
    // In place, an input needs no file name.
    assert_eq!(output_path("..", "in", &OutputPolicy::InPlace), Some("..".to_string()));
}

#[test]
fn output_keeps_the_place_below_the_base() {
    let input = path(&["in", "sub", "a.png"]);
    let explicit = OutputPolicy::Into("out".to_string());
    assert_eq!(output_path(&input, "in", &explicit), Some(path(&["out", "sub", "a.png"])));
    assert_eq!(
        output_path(&input, "in", &OutputPolicy::Default),
        Some(path(&["in", "fixed", "sub", "a.png"]))
    );
}

#[test]
fn output_falls_back_to_the_file_name() {
    let input = path(&["assets", "ui", "a.png"]);
    let explicit = OutputPolicy::Into("out".to_string());
    assert_eq!(output_path(&input, ".", &explicit), Some(path(&["out", "a.png"])));
    assert_eq!(
        output_path(&input, ".", &OutputPolicy::Default),
        Some(path(&[".", "fixed", "a.png"]))
    );
    assert_eq!(
        output_path(&input, "other", &explicit),
        Some(path(&["out", "a.png"]))
    );
}

#[test]
fn input_without_a_place_has_no_output() {
    let explicit = OutputPolicy::Into("out".to_string());
    assert_eq!(output_path("..", "in", &explicit), None);
    assert_eq!(output_path("..", "in", &OutputPolicy::Default), None);
    // The root directory has no parent, no place below `.` and no name.
    let planned = plan(RootKind::File, "/", &vec![], &explicit);
    assert!(matches!(planned, Err(PlanningError::NoLocation)));
    let planned = plan(RootKind::File, "/", &vec![], &OutputPolicy::InPlace).unwrap();
    assert_eq!(planned[0].output_path, "/");
}

#[test]
fn plan_pairs_inputs_with_outputs_in_order() {
    let found = vec![
        entry(&path(&["in", "z.png"]), true),
        entry(&path(&["in", "deep", "a.jpg"]), true),
        entry(&path(&["in", "deep"]), false),
        entry(&path(&["in", "readme.md"]), true),
    ];
    let jobs = plan(RootKind::Directory, "in", &found, &OutputPolicy::Default).unwrap();
    assert_eq!(jobs.len(), 2);
    assert_eq!(jobs[0].input_path, path(&["in", "z.png"]));
    assert_eq!(jobs[0].output_path, path(&["in", "fixed", "z.png"]));
    assert_eq!(jobs[1].input_path, path(&["in", "deep", "a.jpg"]));
    assert_eq!(jobs[1].output_path, path(&["in", "fixed", "deep", "a.jpg"]));
    assert_eq!(
        Path::new(&jobs[1].output_path).strip_prefix(Path::new("in").join("fixed")),
        Ok(Path::new("deep").join("a.jpg").as_path())
    );
}

#[test]
fn plan_for_a_single_file() {
    let root = path(&["textures", "hero.png"]);
    let jobs = plan(RootKind::File, &root, &vec![], &OutputPolicy::Default).unwrap();
    assert_eq!(jobs.len(), 1);
    assert_eq!(jobs[0].input_path, root);
    assert_eq!(jobs[0].output_path, path(&["textures", "fixed", "hero.png"]));
    let jobs = plan(RootKind::File, "hero.png", &vec![], &OutputPolicy::Default).unwrap();
    assert_eq!(jobs[0].output_path, path(&["fixed", "hero.png"]));
}

#[test]
fn nothing_found_is_an_empty_plan() {
    let found = vec![entry("a.txt", true), entry("b.png", false)];
    let jobs = plan(RootKind::Pattern, "*", &found, &OutputPolicy::Default).unwrap();
    assert!(jobs.is_empty());
    let jobs = plan(RootKind::Directory, "in", &vec![], &OutputPolicy::InPlace).unwrap();
    assert!(jobs.is_empty());
}
