use nr_cms::paths::{join, ProgramArgs, RunArgs, StandardGenerationDirs};

#[test]
fn run_args_test_path_finding() {
    let run_args = RunArgs {
        generation_dir: "gen/".to_string(),
        source_dir: "sample/".to_string(),
        max_log_level: Default::default(),
        watch: Default::default(),
    };
    assert_eq!(run_args.in_source("test"), "sample/test");
    assert_eq!(run_args.in_gen("test"), "gen/test");
}

#[test]
fn run_args_test_clone() {
    let run_args = RunArgs {
        generation_dir: "gen/".to_string(),
        source_dir: "sample/".to_string(),
        max_log_level: Default::default(),
        watch: Default::default(),
    };
    let clone = run_args.clone();
    assert_eq!(run_args.generation_dir, clone.generation_dir);
}

#[test]
fn args_test_program_args_conversion() {
    let program_args = ProgramArgs {
        source_dir: "first/".to_string(),
        generation_dir: "second/".to_string(),
        max_log_level: Default::default(),
        watch: Default::default(),
    };
    let generation_dirs: StandardGenerationDirs = program_args.into();
    assert_eq!("first/", generation_dirs.source_dir);
    assert_eq!("second/", generation_dirs.generation_dir);
}

#[test]
fn args_test_path_finding() {
    let generation_dirs = StandardGenerationDirs {
        generation_dir: "gen/".to_string(),
        source_dir: "sample/".to_string(),
    };
    assert_eq!(generation_dirs.in_source("test"), "sample/test");
    assert_eq!(generation_dirs.in_gen("test"), "gen/test");
}

#[test]
fn args_test_clone() {
    let generation_dirs = StandardGenerationDirs {
        generation_dir: "gen/".to_string(),
        source_dir: "sample/".to_string(),
    };
    let clone = generation_dirs.clone();
    assert_eq!(generation_dirs.generation_dir, clone.generation_dir);
}

#[test]
fn generation_dirs_test_program_args_conversion() {
    let program_args = ProgramArgs {
        source_dir: "first/".to_string(),
        generation_dir: "second/".to_string(),
        max_log_level: Default::default(),
        watch: Default::default(),
    };
    let generation_dirs = StandardGenerationDirs::from(program_args);
    assert_eq!("first/", generation_dirs.source_dir);
    assert_eq!("second/", generation_dirs.generation_dir);
}

#[test]
fn generation_dirs_test_path_finding() {
    let generation_dirs = StandardGenerationDirs {
        source_dir: "sample/".to_string(),
        generation_dir: "/tmp/out".to_string(),
    };
    assert_eq!(generation_dirs.in_source("test"), "sample/test");
    assert_eq!(
        generation_dirs.in_gen("test"),
        join(&generation_dirs.generation_dir, "test")
    );
}

#[test]
fn join_follows_path_push() {
    assert_eq!(join("a", "b"), "a/b");
    assert_eq!(join("a/", "b"), "a/b");
    assert_eq!(join("", "b"), "b");
    assert_eq!(join("a", "/abs"), "/abs");
    assert_eq!(join("a", ""), "a/");
}
