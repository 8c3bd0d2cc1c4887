use dir2prompt::content::ReadError;
use dir2prompt::render::{Outcome, Summary};
use dir2prompt::run::Run;

fn paths_of(items: &[&str]) -> Vec<String> {
    items.iter().map(|s| s.to_string()).collect()
}

#[test]
fn run_shows_files_in_order_of_their_relative_paths() {
    let paths = paths_of(&["/repo/src/main.rs", "/repo/Cargo.toml", "/repo/README.md"]);
    let mut run = Run::new("/repo", paths, 200_000, false);
    assert_eq!(
        run.listing(),
        "## Included files\n- `Cargo.toml`\n- `README.md`\n- `src/main.rs`\n\n---\n\n"
    );

    assert_eq!(run.next(), Some(1));
    let seg = run.render(Ok(b"[package]\n".to_vec()));
    assert_eq!(seg.text, "## `Cargo.toml`\n\n```toml\n[package]\n```\n\n");

    assert_eq!(run.next(), Some(2));
    let seg = run.render(Ok(b"# Title".to_vec()));
    assert_eq!(seg.text, "## `README.md`\n\n```markdown\n# Title\n```\n\n");

    assert_eq!(run.next(), Some(0));
    let seg = run.render(Ok(b"fn main() {}\n".to_vec()));
    assert_eq!(seg.text, "## `src/main.rs`\n\n```rust\nfn main() {}\n```\n\n");

    assert_eq!(run.next(), None);
    assert_eq!(run.summary(), Summary { printed: 3, skipped_binary: 0, skipped_utf8: 0 });
}

#[test]
fn run_counts_each_kind_of_outcome() {
    let paths = paths_of(&["/repo/d.txt", "/repo/c.bin", "/repo/b.txt", "/repo/a.txt"]);
    let mut run = Run::new("/repo", paths, 4, true);
    assert_eq!(run.summary(), Summary { printed: 0, skipped_binary: 0, skipped_utf8: 0 });

    assert_eq!(run.next(), Some(3));
    let seg = run.render(Ok(b"hello".to_vec()));
    assert_eq!(seg.outcome, Outcome::Printed);
    assert_eq!(seg.text, "## `a.txt`\n\n(truncated to 4 bytes)\n\n```text\nhell\n```\n\n");

    assert_eq!(run.next(), Some(2));
    let seg = run.render(Ok(b"\xff\xfe".to_vec()));
    assert_eq!(seg.outcome, Outcome::SkippedUtf8);

    assert_eq!(run.next(), Some(1));
    let seg = run.render(Ok(b"\0\0".to_vec()));
    assert_eq!(seg.outcome, Outcome::SkippedBinary);

    assert_eq!(run.next(), Some(0));
    let gone = ReadError { path: String::from("/repo/d.txt"), cause: String::from("gone") };
    let seg = run.render(Err(gone));
    assert_eq!(seg.outcome, Outcome::ReadFailed);
    assert_eq!(seg.text, "## `d.txt`\n\n(skipped: failed to read file: gone)\n\n");

    assert_eq!(run.next(), None);
    assert_eq!(run.summary(), Summary { printed: 1, skipped_binary: 1, skipped_utf8: 1 });
    assert_eq!(run.summary().line(), "printed 1 files, skipped binary 1, skipped utf8 1");
}

#[test]
fn run_over_nothing() {
    let run = Run::new(".", Vec::new(), 10, false);
    assert_eq!(run.listing(), "## Included files\n\n---\n\n");
    assert_eq!(run.next(), None);
    assert_eq!(run.summary().line(), "printed 0 files, skipped binary 0, skipped utf8 0");
}

#[test]
fn every_listed_path_heads_its_segment() {
    let paths = paths_of(&["./b/x.py", "./a.md", "./b/a.sh", "./.env"]);
    let mut run = Run::new(".", paths, 100, false);
    let listing = run.listing();
    let bullets: Vec<&str> = listing
        .lines()
        .filter(|line| line.starts_with("- `"))
        .map(|line| &line[3..line.len() - 1])
        .collect();
    assert_eq!(bullets, vec![".env", "a.md", "b/a.sh", "b/x.py"]);
    for rel in bullets {
        assert!(run.next().is_some());
        let seg = run.render(Ok(Vec::new()));
        assert!(seg.text.starts_with(&format!("## `{}`\n\n", rel)), "{}", seg.text);
    }
    assert_eq!(run.next(), None);
}
