use vaultsearch::classify::{Classification, SkipReason};
use vaultsearch::ingest::{run_pass, verdict_after_read, IngestPass, SkipStats};

fn skip(r: SkipReason) -> Classification {
    Classification::Skip(r)
}

fn sample_walk() -> Vec<(String, Classification)> {
    vec![
        ("/r/notes.txt".to_string(), Classification::Include),
        ("/r/todo.md".to_string(), Classification::Include),
        ("/r/photo.png".to_string(), skip(SkipReason::UnsupportedExtension)),
        ("/r/huge.log".to_string(), skip(SkipReason::TooLarge)),
        ("/r/blob.txt".to_string(), skip(SkipReason::BinaryContent)),
        ("/r/locked.md".to_string(), skip(SkipReason::ReadError)),
        ("/r/other.bin".to_string(), skip(SkipReason::UnsupportedExtension)),
    ]
}

#[test]
fn skip_stats_total_sums_reasons() {
    let s = SkipStats { unsupported_extension: 3, too_large: 1, binary: 2, read_errors: 4 };
    assert_eq!(s.total(), 10);
    assert_eq!(SkipStats::default().total(), 0);
    assert_eq!(SkipStats::new(), SkipStats::default());
}

#[test]
fn counts_sum_to_files_walked() {
    let walk = sample_walk();
    let pass = run_pass(&walk);
    assert_eq!(pass.indexed(), 2);
    let s = pass.skipped();
    assert_eq!(s.unsupported_extension, 2);
    assert_eq!(s.too_large, 1);
    assert_eq!(s.binary, 1);
    assert_eq!(s.read_errors, 1);
    assert_eq!(pass.indexed() + s.total(), walk.len());
    assert_eq!(pass.files_seen(), walk.len());
}

#[test]
fn documents_keep_walk_order() {
    let pass = run_pass(&sample_walk());
    assert_eq!(
        pass.documents(),
        &vec!["/r/notes.txt".to_string(), "/r/todo.md".to_string()]
    );
}

#[test]
fn deleted_file_leaves_the_next_pass() {
    let first = run_pass(&sample_walk());
    assert!(first.documents().contains(&"/r/todo.md".to_string()));
    let second_walk: Vec<(String, Classification)> = sample_walk()
        .into_iter()
        .filter(|(p, _)| p != "/r/todo.md")
        .collect();
    let second = run_pass(&second_walk);
    assert!(!second.documents().contains(&"/r/todo.md".to_string()));
    assert_eq!(second.indexed(), 1);
}

#[test]
fn rerun_over_same_walk_is_identical() {
    let a = run_pass(&sample_walk());
    let b = run_pass(&sample_walk());
    assert_eq!(a.documents(), b.documents());
    assert_eq!(a.skipped(), b.skipped());
}

#[test]
fn added_file_is_indexed_once() {
    let mut walk = sample_walk();
    walk.push(("/r/updates.txt".to_string(), Classification::Include));
    let pass = run_pass(&walk);
    assert_eq!(pass.indexed(), 3);
    let n = pass.documents().iter().filter(|p| p.as_str() == "/r/updates.txt").count();
    assert_eq!(n, 1);
}

#[test]
fn progress_is_due_every_hundred_indexed_files() {
    let mut pass = IngestPass::begin();
    let mut due = Vec::new();
    for i in 0..250 {
        if pass.record(format!("/r/f{i}.txt"), Classification::Include) {
            due.push(pass.indexed());
        }
        assert!(!pass.record(format!("/r/f{i}.png"), skip(SkipReason::UnsupportedExtension)));
    }
    assert_eq!(due, vec![100, 200]);
}

#[test]
fn failed_read_counts_as_read_error() {
    assert_eq!(verdict_after_read(true), Classification::Include);
    assert_eq!(verdict_after_read(false), skip(SkipReason::ReadError));
}
