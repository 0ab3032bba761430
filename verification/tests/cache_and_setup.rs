use rpublish::article::Article;
use rpublish::helpers::{
    required_directories, setup_directories_structure, setup_system, DirectoryStatus,
};
use rpublish::metadata_cache::{ArticleMetadata, MetadataCache};
use rpublish::RPublishApp;

fn sample_article() -> Article {
    Article {
        title: "Title".to_owned(),
        author: "alice".to_owned(),
        data: "body".to_owned(),
        tags: vec!["tag".to_owned()],
        created_date: 1,
        update_date: 2,
    }
}

#[test]
fn cache_set_get_and_remove() {
    let mut cache = MetadataCache::new("draft");
    assert_eq!(cache.relative_path().as_str(), "draft");
    assert!(!cache.is_cached("a1"));
    assert!(cache.get_metadata("a1").is_none());

    let article = sample_article();
    cache.set_metadata("a1", &article);
    assert!(cache.is_cached("a1"));
    let metadata = cache.get_metadata("a1").unwrap();
    assert_eq!(metadata.title, "Title");
    assert_eq!(metadata.author, "alice");
    assert_eq!(metadata.tags, vec!["tag".to_owned()]);
    assert_eq!(metadata.created_date, 1);
    assert_eq!(metadata.update_date, 2);

    cache.remove_metadata("a1");
    assert!(!cache.is_cached("a1"));
    // Removing an absent entry is harmless.
    cache.remove_metadata("a1");
}

#[test]
fn cache_overwrites_in_place() {
    let mut cache = MetadataCache::new("published");
    let mut article = sample_article();
    cache.set_metadata("a1", &article);

    article.title = "Renamed".to_owned();
    article.update_date = 9;
    cache.set_metadata("a1", &article);

    let metadata = cache.get_metadata("a1").unwrap();
    assert_eq!(metadata.title, "Renamed");
    assert_eq!(metadata.update_date, 9);
}

#[test]
fn metadata_projection_keeps_every_listed_field() {
    let article = sample_article();
    let metadata = ArticleMetadata::of_article(&article);
    assert_eq!(metadata.title, article.title);
    assert_eq!(metadata.author, article.author);
    assert_eq!(metadata.tags, article.tags);
    assert_eq!(metadata.created_date, article.created_date);
    assert_eq!(metadata.update_date, article.update_date);
}

#[test]
fn required_directories_cover_the_data_tree() {
    let dirs = required_directories();
    assert_eq!(dirs.len(), 18);
    assert_eq!(dirs[0], "data");
    assert!(dirs.contains(&"data/articles/draft".to_owned()));
    assert!(dirs.contains(&"data/articles/published".to_owned()));
    assert!(dirs.contains(&"data/cache/metadata/draft".to_owned()));
    assert!(dirs.contains(&"data/cache/metadata/published".to_owned()));
    assert!(dirs.contains(&"data/auth".to_owned()));
}

#[test]
fn setup_accepts_missing_and_writable_directories() {
    let probes = vec![
        DirectoryStatus::Writable,
        DirectoryStatus::Missing,
        DirectoryStatus::Writable,
    ];
    assert!(setup_directories_structure(&probes));
    assert!(setup_system(&probes).is_ok());
    assert!(setup_system(&Vec::new()).is_ok());
}

#[test]
fn setup_rejects_unusable_paths() {
    let read_only = vec![DirectoryStatus::Writable, DirectoryStatus::ReadOnly];
    assert!(!setup_directories_structure(&read_only));
    assert!(setup_system(&read_only).is_err());

    let not_a_directory = vec![DirectoryStatus::NotADirectory];
    assert!(setup_system(&not_a_directory).is_err());
}

#[test]
fn a_fresh_application_is_empty() {
    let mut app = RPublishApp::default();
    assert_eq!(app.identity_manager.users.user_count(), 0);
    assert_eq!(app.identity_manager.sessions.session_count(), 0);
    assert!(app.identity_manager.sessions.binds_address());
    let (_, drafts) = app.articles_manager.list_draft_articles(0, 1);
    let (_, published) = app.articles_manager.list_published_articles(0, 1);
    assert_eq!(drafts, 0);
    assert_eq!(published, 0);
}
