use dir2prompt::policy::{build_overrides, Verdict};
use dir2prompt::render::{render_file, Outcome, Segment};

fn owned(items: &[&str]) -> Vec<String> {
    items.iter().map(|s| s.to_string()).collect()
}

fn segments_for(
    include_lockfiles: bool,
    excludes: &[&str],
    includes: &[&str],
    files: &[(&str, &[u8])],
) -> Vec<Segment> {
    let policy =
        build_overrides("/repo", include_lockfiles, &owned(excludes), &owned(includes)).unwrap();
    let mut segments = Vec::new();
    for (path, bytes) in files {
        if policy.is_included(path, false) {
            segments.push(render_file("/repo", path, Ok(bytes.to_vec()), 200_000, false));
        }
    }
    segments
}

#[test]
fn lockfile_gets_no_segment_by_default() {
    let files: [(&str, &[u8]); 1] = [("/repo/Cargo.lock", b"version = 3\n")];
    assert!(segments_for(false, &[], &[], &files).is_empty());
}

#[test]
fn lockfile_gets_a_segment_on_request() {
    let files: [(&str, &[u8]); 1] = [("/repo/Cargo.lock", b"version = 3\n")];
    let segments = segments_for(true, &[], &[], &files);
    assert_eq!(segments.len(), 1);
    assert_eq!(segments[0].outcome, Outcome::Printed);
    assert_eq!(segments[0].text, "## `Cargo.lock`\n\n```text\nversion = 3\n```\n\n");
}

#[test]
fn force_include_readmits_an_excluded_file() {
    let env = "/repo/secrets/.env";
    let key = "/repo/secrets/key.pem";

    let default = build_overrides("/repo", false, &[], &[]).unwrap();
    assert_eq!(default.matches(env, false), Verdict::Included);
    assert_eq!(default.matches("/repo/venv/bin/activate", false), Verdict::Excluded);

    let excluded = build_overrides("/repo", false, &owned(&["secrets/**"]), &[]).unwrap();
    assert_eq!(excluded.matches(env, false), Verdict::Excluded);
    assert_eq!(excluded.matches(key, false), Verdict::Excluded);
    assert_eq!(excluded.matches("/repo/secrets", true), Verdict::Included);

    let readmitted =
        build_overrides("/repo", false, &owned(&["secrets/**"]), &owned(&["secrets/.env"]))
            .unwrap();
    assert_eq!(readmitted.matches(env, false), Verdict::Included);
    assert_eq!(readmitted.matches(key, false), Verdict::Excluded);
    assert_eq!(readmitted.matches("/repo/venv/bin/activate", false), Verdict::Excluded);
    assert_eq!(readmitted.matches("/repo/src/lib.rs", false), Verdict::Included);
}

#[test]
fn only_included_files_get_segments() {
    let files: [(&str, &[u8]); 4] = [
        ("/repo/Cargo.toml", b"[package]\n"),
        ("/repo/logo.png", b"\x89PNG\0\0"),
        ("/repo/target/debug/app", b"\0"),
        ("/repo/src/main.rs", b"fn main() {}"),
    ];
    let segments = segments_for(false, &[], &[], &files);
    assert_eq!(segments.len(), 3);
    assert_eq!(segments[0].outcome, Outcome::Printed);
    assert_eq!(segments[1].outcome, Outcome::SkippedBinary);
    assert_eq!(segments[2].text, "## `src/main.rs`\n\n```rust\nfn main() {}\n```\n\n");
}
