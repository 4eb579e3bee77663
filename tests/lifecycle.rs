use selfblog::lifecycle::{Lifecycle, Lock, PostError};
use selfblog::post::Post;

fn idle(source_artifacts: usize) -> Lifecycle {
    Lifecycle { draft_open: false, ready: false, source_artifacts }
}

#[test]
fn create_on_empty_tree_gives_id_one() {
    let mut cycle = idle(0);
    assert_eq!(cycle.create().unwrap(), 1);
    assert!(cycle.draft_open);
    assert!(!cycle.ready);
    assert_eq!(cycle.source_artifacts, 2);
    let post = Post::new(1);
    assert_eq!(post.post_path, "post-1.md");
    assert_eq!(post.post_info_path, ".post-1");
}

#[test]
fn create_while_draft_open_conflicts() {
    let mut cycle = idle(0);
    cycle.create().unwrap();
    assert!(matches!(cycle.create(), Err(PostError::Conflict(Lock::Draft))));
    cycle.ready().unwrap();
    assert!(matches!(cycle.create(), Err(PostError::Conflict(Lock::Draft))));
    assert_eq!(cycle.source_artifacts, 2);
}

#[test]
fn ready_before_create_is_not_found() {
    let mut cycle = idle(0);
    assert!(matches!(cycle.ready(), Err(PostError::NotFound(Lock::Draft))));
    assert!(!cycle.ready);
}

#[test]
fn publish_before_ready_is_not_found() {
    let mut cycle = idle(0);
    assert!(matches!(cycle.publish(), Err(PostError::NotFound(Lock::Ready))));
    cycle.create().unwrap();
    assert!(matches!(cycle.publish(), Err(PostError::NotFound(Lock::Ready))));
    assert!(cycle.draft_open);
}

#[test]
fn ready_twice_conflicts() {
    let mut cycle = idle(0);
    cycle.create().unwrap();
    assert_eq!(cycle.ready().unwrap(), 1);
    assert!(matches!(cycle.ready(), Err(PostError::Conflict(Lock::Ready))));
}

#[test]
fn full_cycles_give_dense_ids() {
    let mut cycle = idle(0);
    for n in 1..=3usize {
        assert_eq!(cycle.create().unwrap(), n);
        assert_eq!(cycle.ready().unwrap(), n);
        assert_eq!(cycle.publish().unwrap(), n);
        assert!(!cycle.draft_open);
        assert!(!cycle.ready);
    }
    assert_eq!(cycle.source_artifacts, 6);
}

#[test]
fn create_counts_existing_posts() {
    let mut cycle = idle(8);
    assert_eq!(cycle.create().unwrap(), 5);
}

#[test]
fn publish_id_is_the_draft_id() {
    let mut cycle = Lifecycle { draft_open: true, ready: true, source_artifacts: 10 };
    assert_eq!(cycle.publish().unwrap(), 5);
    assert!(!cycle.draft_open);
    assert!(!cycle.ready);
}

#[test]
fn publish_again_after_partial_failure_gives_same_id() {
    let mut first = Lifecycle { draft_open: true, ready: true, source_artifacts: 6 };
    let id = first.publish().unwrap();
    // The page was written but the locks stayed: the next run sees the same locks
    // and the same source tree, whatever the site tree holds now.
    let mut again = Lifecycle { draft_open: true, ready: true, source_artifacts: 6 };
    assert_eq!(again.publish().unwrap(), id);
    assert_eq!(id, 3);
}

#[test]
fn count_posts_halves_artifacts() {
    assert_eq!(Post::count_posts(0), 0);
    assert_eq!(Post::count_posts(7), 3);
    assert_eq!(Post::count_posts(8), 4);
}
