use rpublish::article::Article;
use rpublish::articles_manager::{ArticleErrorKind, ArticleStatus, ArticlesManager};

#[test]
fn create_update_publish_unpublish_scenario() {
    let mut manager = ArticlesManager::new();
    manager.create("a1", "alice");

    let (page, total) = manager.list_draft_articles(0, 10);
    assert_eq!(total, 1);
    assert_eq!(page.len(), 1);
    assert_eq!(page[0].0, "a1");
    assert_eq!(page[0].1.title, "Draft Article");
    assert_eq!(page[0].1.author, "alice");

    manager.update("a1", "Hello", "body").unwrap();
    let (article, status, also_published, published_date) = manager.read_latest("a1").unwrap();
    assert_eq!(article.title, "Hello");
    assert_eq!(article.data, "body");
    assert!(matches!(status, ArticleStatus::Draft));
    assert!(!also_published);
    assert!(published_date.is_none());

    manager.publish("a1").unwrap();
    let (_, total_drafts) = manager.list_draft_articles(0, 10);
    assert_eq!(total_drafts, 0);
    let (published_page, total_published) = manager.list_published_articles(0, 10);
    assert_eq!(total_published, 1);
    assert_eq!(published_page[0].0, "a1");
    let (_, status, _, _) = manager.read_latest("a1").unwrap();
    assert!(matches!(status, ArticleStatus::Published));

    manager.unpublish("a1").unwrap();
    let (draft_page, total_drafts) = manager.list_draft_articles(0, 10);
    assert_eq!(total_drafts, 1);
    assert_eq!(draft_page[0].0, "a1");
    let (_, total_published) = manager.list_published_articles(0, 10);
    assert_eq!(total_published, 0);
}

#[test]
fn draft_wins_when_both_copies_exist() {
    let mut manager = ArticlesManager::new();
    manager.create("a1", "alice");
    manager.update("a1", "Published title", "v1").unwrap();
    manager.publish("a1").unwrap();
    // Editing the published article forks a draft.
    manager.update("a1", "Draft title", "v2").unwrap();

    let (article, status, also_published, published_date) = manager.read_latest("a1").unwrap();
    assert!(matches!(status, ArticleStatus::Draft));
    assert!(also_published);
    assert!(published_date.is_some());
    assert_eq!(article.title, "Draft title");
    assert_eq!(article.data, "v2");

    let published = manager.read_from("a1", ArticleStatus::Published).unwrap();
    assert_eq!(published.title, "Published title");
    assert_eq!(published.data, "v1");
}

#[test]
fn publish_is_a_complete_move() {
    let mut manager = ArticlesManager::new();
    manager.create("a1", "alice");
    manager.update("a1", "Title", "content").unwrap();
    manager.publish("a1").unwrap();

    assert!(manager.read_from("a1", ArticleStatus::Draft).is_none());
    let published = manager.read_from("a1", ArticleStatus::Published).unwrap();
    assert_eq!(published.title, "Title");
    assert_eq!(published.data, "content");
    assert_eq!(published.author, "alice");

    // The published metadata matches the relocated article.
    let (page, total) = manager.list_published_articles(0, 1);
    assert_eq!(total, 1);
    assert_eq!(page[0].1.title, "Title");
    assert_eq!(page[0].1.author, "alice");
    assert_eq!(page[0].1.update_date, published.update_date);
    assert_eq!(page[0].1.created_date, published.created_date);
}

#[test]
fn publish_of_missing_article_fails_and_changes_nothing() {
    let mut manager = ArticlesManager::new();
    manager.create("a1", "alice");
    let err = manager.publish("nope").unwrap_err();
    assert!(matches!(err.kind(), ArticleErrorKind::ArticleNotFound));
    let (_, total) = manager.list_draft_articles(0, 10);
    assert_eq!(total, 1);
}

#[test]
fn unpublish_of_unpublished_article_fails() {
    let mut manager = ArticlesManager::new();
    manager.create("a1", "alice");
    let err = manager.unpublish("a1").unwrap_err();
    assert!(matches!(err.kind(), ArticleErrorKind::ArticleNotFound));
    let err = manager.unpublish("missing").unwrap_err();
    assert!(matches!(err.kind(), ArticleErrorKind::ArticleNotFound));
}

#[test]
fn publish_unpublish_round_trip_keeps_content() {
    let mut manager = ArticlesManager::new();
    manager.create("a1", "alice");
    manager.update("a1", "Title", "content").unwrap();
    let before = manager.read_from("a1", ArticleStatus::Draft).unwrap();

    manager.publish("a1").unwrap();
    manager.unpublish("a1").unwrap();
    let after = manager.read_from("a1", ArticleStatus::Draft).unwrap();
    assert_eq!(after.title, before.title);
    assert_eq!(after.author, before.author);
    assert_eq!(after.data, before.data);
    assert_eq!(after.tags, before.tags);
    assert_eq!(after.created_date, before.created_date);

    // And back again: the published copy keeps the same content too.
    manager.publish("a1").unwrap();
    let republished = manager.read_from("a1", ArticleStatus::Published).unwrap();
    assert_eq!(republished.title, before.title);
    assert_eq!(republished.data, before.data);
    assert_eq!(republished.created_date, before.created_date);
}

#[test]
fn unpublish_with_draft_keeps_the_draft() {
    let mut manager = ArticlesManager::new();
    manager.create("a1", "alice");
    manager.update("a1", "Old", "v1").unwrap();
    manager.publish("a1").unwrap();
    manager.update("a1", "New", "v2").unwrap();

    manager.unpublish("a1").unwrap();
    assert!(manager.read_from("a1", ArticleStatus::Published).is_none());
    let draft = manager.read_from("a1", ArticleStatus::Draft).unwrap();
    assert_eq!(draft.title, "New");
    assert_eq!(draft.data, "v2");
}

#[test]
fn discard_changes_needs_a_published_copy() {
    let mut manager = ArticlesManager::new();
    manager.create("a1", "alice");
    let err = manager.discard_changes("a1").unwrap_err();
    assert!(matches!(err.kind(), ArticleErrorKind::ArticleNotFound));

    manager.update("a1", "Keep", "v1").unwrap();
    manager.publish("a1").unwrap();
    // Published only: there is no draft to discard.
    let err = manager.discard_changes("a1").unwrap_err();
    assert!(matches!(err.kind(), ArticleErrorKind::ArticleNotFound));

    manager.update("a1", "Drop me", "v2").unwrap();
    manager.discard_changes("a1").unwrap();
    assert!(manager.read_from("a1", ArticleStatus::Draft).is_none());
    let (article, status, _, _) = manager.read_latest("a1").unwrap();
    assert!(matches!(status, ArticleStatus::Published));
    assert_eq!(article.title, "Keep");
}

#[test]
fn delete_removes_both_copies() {
    let mut manager = ArticlesManager::new();
    manager.create("a1", "alice");
    manager.publish("a1").unwrap();
    manager.update("a1", "Draft again", "v2").unwrap();

    manager.delete("a1").unwrap();
    assert!(manager.read_latest("a1").is_none());
    let (_, drafts) = manager.list_draft_articles(0, 10);
    let (_, published) = manager.list_published_articles(0, 10);
    assert_eq!(drafts, 0);
    assert_eq!(published, 0);

    let err = manager.delete("a1").unwrap_err();
    assert!(matches!(err.kind(), ArticleErrorKind::ArticleNotFound));
}

#[test]
fn delete_with_only_one_copy_succeeds() {
    let mut manager = ArticlesManager::new();
    manager.create("only-draft", "alice");
    manager.delete("only-draft").unwrap();

    manager.create("only-published", "alice");
    manager.publish("only-published").unwrap();
    manager.delete("only-published").unwrap();
    assert!(manager.read_latest("only-published").is_none());
}

#[test]
fn listing_pages_respect_start_and_count() {
    let mut manager = ArticlesManager::new();
    manager.create("a1", "alice");
    manager.create("a2", "bob");
    manager.create("a3", "carol");

    let (page, total) = manager.list_draft_articles(1, 1);
    assert_eq!(total, 3);
    assert_eq!(page.len(), 1);
    assert_eq!(page[0].0, "a2");

    let (page, total) = manager.list_draft_articles(0, 10);
    assert_eq!(total, 3);
    assert_eq!(page.len(), 3);
    assert_eq!(page[0].0, "a1");
    assert_eq!(page[1].0, "a2");
    assert_eq!(page[2].0, "a3");

    // A start index past the total yields an empty page, not an error.
    let (page, total) = manager.list_draft_articles(5, 2);
    assert_eq!(total, 3);
    assert!(page.is_empty());

    // The count is clamped to what remains.
    let (page, total) = manager.list_draft_articles(2, 5);
    assert_eq!(total, 3);
    assert_eq!(page.len(), 1);
    assert_eq!(page[0].0, "a3");

    let (page, _) = manager.list_draft_articles(0, 0);
    assert!(page.is_empty());
}

#[test]
fn metadata_follows_every_successful_mutation() {
    let mut manager = ArticlesManager::new();
    manager.create("a1", "alice");
    let article = manager.read_from("a1", ArticleStatus::Draft).unwrap();
    let (page, _) = manager.list_draft_articles(0, 1);
    assert_eq!(page[0].1.title, article.title);
    assert_eq!(page[0].1.author, article.author);
    assert_eq!(page[0].1.tags, article.tags);
    assert_eq!(page[0].1.created_date, article.created_date);
    assert_eq!(page[0].1.update_date, article.update_date);

    manager.update("a1", "Edited", "text").unwrap();
    let article = manager.read_from("a1", ArticleStatus::Draft).unwrap();
    let (page, _) = manager.list_draft_articles(0, 1);
    assert_eq!(page[0].1.title, article.title);
    assert_eq!(page[0].1.update_date, article.update_date);

    manager.publish("a1").unwrap();
    let article = manager.read_from("a1", ArticleStatus::Published).unwrap();
    let (page, _) = manager.list_published_articles(0, 1);
    assert_eq!(page[0].1.title, article.title);
    assert_eq!(page[0].1.author, article.author);
    assert_eq!(page[0].1.update_date, article.update_date);
}

#[test]
fn dated_operations_stamp_the_given_moment() {
    let mut manager = ArticlesManager::new();
    manager.create_at("a1", "alice", 5);
    let article = manager.read_from("a1", ArticleStatus::Draft).unwrap();
    assert_eq!(article.created_date, 5);
    assert_eq!(article.update_date, 5);

    manager.update_at("a1", "Title", "body", 9).unwrap();
    let article = manager.read_from("a1", ArticleStatus::Draft).unwrap();
    assert_eq!(article.created_date, 5);
    assert_eq!(article.update_date, 9);

    manager.publish_at("a1", 11).unwrap();
    let article = manager.read_from("a1", ArticleStatus::Published).unwrap();
    assert_eq!(article.created_date, 5);
    assert_eq!(article.update_date, 11);

    manager.unpublish_at("a1", 13).unwrap();
    let article = manager.read_from("a1", ArticleStatus::Draft).unwrap();
    assert_eq!(article.created_date, 5);
    assert_eq!(article.update_date, 13);
}

#[test]
fn loaded_articles_are_served_with_their_metadata() {
    let mut manager = ArticlesManager::new();
    let article = Article {
        title: "Loaded".to_owned(),
        author: "alice".to_owned(),
        data: "from disk".to_owned(),
        tags: vec!["history".to_owned(), "notes".to_owned()],
        created_date: 100,
        update_date: 200,
    };
    manager.load_article("l1", article, ArticleStatus::Published);

    let (article, status, also_published, published_date) = manager.read_latest("l1").unwrap();
    assert!(matches!(status, ArticleStatus::Published));
    assert!(also_published);
    assert_eq!(published_date, Some(200));
    assert_eq!(article.title, "Loaded");
    assert_eq!(article.tags, vec!["history".to_owned(), "notes".to_owned()]);

    let (page, total) = manager.list_published_articles(0, 10);
    assert_eq!(total, 1);
    assert_eq!(page[0].1.tags, vec!["history".to_owned(), "notes".to_owned()]);
    assert_eq!(page[0].1.created_date, 100);
}

#[test]
fn error_message_is_stable() {
    let mut manager = ArticlesManager::new();
    let err = manager.publish("absent").unwrap_err();
    assert_eq!(err.message(), "Article Error");
}
