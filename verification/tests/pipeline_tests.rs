use renamer::config::Config;
use renamer::config::get_args;
use renamer::entry::FileEntry;
use renamer::errors::RenameError;
use renamer::pipeline::filter_regular;
use renamer::pipeline::make_plans;
use renamer::pipeline::run;
use renamer::pipeline::RunOutcome;
use renamer::sort::sort_by_modified_time;

fn file(name: &str, modified: u64) -> FileEntry {
    FileEntry { name: name.to_string(), modified, is_regular: true }
}

fn subdir(name: &str, modified: u64) -> FileEntry {
    FileEntry { name: name.to_string(), modified, is_regular: false }
}

fn config(prefix: Option<&str>) -> Config {
    Config { path: "some/dir".to_string(), prefix: prefix.map(|p| p.to_string()) }
}

fn three_files() -> Vec<FileEntry> {
    vec![file("a.txt", 100), file("b.txt", 200), file("c.txt", 300)]
}

#[test]
fn confirmed_run_renames_every_file_once() {
    let entries = vec![file("x", 5), file("y", 3), file("z", 4)];
    let r = run(&config(None), true, entries, "y\n");
    match r {
        Ok(RunOutcome::Renamed(plans)) => {
            assert_eq!(plans.len(), 3);
            let mut originals: Vec<String> =
                plans.iter().map(|p| p.original_name.clone()).collect();
            originals.sort();
            assert_eq!(originals, vec!["x".to_string(), "y".to_string(), "z".to_string()]);
        }
        _ => panic!("expected a plan for every file"),
    }
}

#[test]
fn first_sorted_file_gets_ordinal_01() {
    let entries = vec![file("late", 900), file("early", 100)];
    let r = run(&config(None), true, entries, "y");
    match r {
        Ok(RunOutcome::Renamed(plans)) => {
            assert_eq!(plans[0].original_name, "early");
            assert!(plans[0].new_name.starts_with("01-"));
        }
        _ => panic!("expected plans"),
    }
}

#[test]
fn ordinals_follow_modification_order() {
    let entries = vec![file("third", 30), file("first", 10), file("second", 20)];
    let r = run(&config(None), true, entries, "y");
    match r {
        Ok(RunOutcome::Renamed(plans)) => {
            assert_eq!(plans[0].original_name, "first");
            assert_eq!(plans[1].original_name, "second");
            assert_eq!(plans[2].original_name, "third");
            assert_eq!(plans[0].ordinal, 1);
            assert_eq!(plans[1].ordinal, 2);
            assert_eq!(plans[2].ordinal, 3);
        }
        _ => panic!("expected plans"),
    }
}

#[test]
fn subdirectories_are_not_renamed_or_counted() {
    let entries = vec![file("a", 1), subdir("sub", 2), file("b", 3), subdir("other", 0)];
    let r = run(&config(None), true, entries, "y");
    match r {
        Ok(RunOutcome::Renamed(plans)) => {
            assert_eq!(plans.len(), 2);
            for p in &plans {
                assert_ne!(p.original_name, "sub");
                assert_ne!(p.original_name, "other");
            }
        }
        _ => panic!("expected plans"),
    }
}

#[test]
fn declining_cancels_and_succeeds() {
    let r = run(&config(None), true, three_files(), "n\n");
    assert!(matches!(r, Ok(RunOutcome::Cancelled)));
}

#[test]
fn anything_but_y_cancels() {
    let r = run(&config(None), true, three_files(), "quit\n");
    assert!(matches!(r, Ok(RunOutcome::Cancelled)));
}

#[test]
fn round_trip_with_default_prefix() {
    let r = run(&config(None), true, three_files(), "y\n");
    match r {
        Ok(RunOutcome::Renamed(plans)) => {
            let names: Vec<String> = plans.iter().map(|p| p.new_name.clone()).collect();
            assert_eq!(
                names,
                vec!["01-a.txt".to_string(), "02-b.txt".to_string(), "03-c.txt".to_string()]
            );
        }
        _ => panic!("expected plans"),
    }
}

#[test]
fn round_trip_with_underscore_prefix() {
    let r = run(&config(Some("_")), true, three_files(), "y\n");
    match r {
        Ok(RunOutcome::Renamed(plans)) => {
            let names: Vec<String> = plans.iter().map(|p| p.new_name.clone()).collect();
            assert_eq!(
                names,
                vec!["01_a.txt".to_string(), "02_b.txt".to_string(), "03_c.txt".to_string()]
            );
        }
        _ => panic!("expected plans"),
    }
}

#[test]
fn a_plain_file_path_is_not_a_directory() {
    let r = run(&config(None), false, three_files(), "y\n");
    assert!(matches!(r, Err(RenameError::NotADirectory)));
}

#[test]
fn empty_directory_confirms_into_empty_plan() {
    let r = run(&config(None), true, Vec::new(), "y\n");
    match r {
        Ok(RunOutcome::Renamed(plans)) => assert!(plans.is_empty()),
        _ => panic!("expected an empty plan"),
    }
}

#[test]
fn equal_timestamps_keep_listing_order() {
    let entries = vec![file("kept-first", 7), file("kept-second", 7)];
    let r = run(&config(None), true, entries, "y");
    match r {
        Ok(RunOutcome::Renamed(plans)) => {
            assert_eq!(plans[0].original_name, "kept-first");
            assert_eq!(plans[1].original_name, "kept-second");
        }
        _ => panic!("expected plans"),
    }
}

#[test]
fn ordinals_beyond_ninety_nine_keep_their_digits() {
    let mut entries = Vec::new();
    for i in 0..105u64 {
        entries.push(file(&format!("f{}", i), i));
    }
    let r = run(&config(None), true, entries, "y");
    match r {
        Ok(RunOutcome::Renamed(plans)) => {
            assert_eq!(plans.len(), 105);
            assert_eq!(plans[0].new_name, "01-f0");
            assert_eq!(plans[99].new_name, "100-f99");
            assert_eq!(plans[104].new_name, "105-f104");
        }
        _ => panic!("expected plans"),
    }
}

#[test]
fn missing_path_argument_is_a_usage_error() {
    let r = get_args(None, None);
    assert!(matches!(r, Err(RenameError::Usage)));
}

#[test]
fn get_args_keeps_path_and_prefix() {
    let r = get_args(Some("dir".to_string()), Some("_".to_string()));
    match r {
        Ok(c) => {
            assert_eq!(c.path, "dir");
            assert_eq!(c.prefix, Some("_".to_string()));
        }
        Err(_) => panic!("expected a configuration"),
    }
}

#[test]
fn default_prefix_is_a_dash() {
    let c = config(None);
    assert_eq!(c.effective_prefix(), "-");
}

#[test]
fn given_prefix_is_kept() {
    let c = config(Some("_"));
    assert_eq!(c.effective_prefix(), "_");
}

#[test]
fn filter_keeps_only_regular_files_in_order() {
    let entries = vec![subdir("d1", 0), file("a", 1), subdir("d2", 2), file("b", 0)];
    let kept = filter_regular(entries);
    let names: Vec<String> = kept.iter().map(|e| e.name.clone()).collect();
    assert_eq!(names, vec!["a".to_string(), "b".to_string()]);
}

#[test]
fn sorting_is_by_modification_time_ascending() {
    let entries = vec![file("c", 30), file("a", 10), file("b", 20)];
    let sorted = sort_by_modified_time(entries);
    let names: Vec<String> = sorted.iter().map(|e| e.name.clone()).collect();
    assert_eq!(names, vec!["a".to_string(), "b".to_string(), "c".to_string()]);
}

#[test]
fn plans_pair_files_with_ordinals_in_order() {
    let files = vec![file("one", 1), file("two", 2)];
    let sorted = sort_by_modified_time(files);
    let plans = make_plans(&sorted, ".");
    assert_eq!(plans.len(), 2);
    assert_eq!(plans[0].ordinal, 1);
    assert_eq!(plans[0].new_name, "01.one");
    assert_eq!(plans[1].ordinal, 2);
    assert_eq!(plans[1].new_name, "02.two");
}

#[test]
fn form_feed_wrapped_consent_still_renames() {
    let r = run(&config(None), true, three_files(), "y\u{C}\n");
    match r {
        Ok(RunOutcome::Renamed(plans)) => assert_eq!(plans.len(), 3),
        _ => panic!("expected plans"),
    }
}
