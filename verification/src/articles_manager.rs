//! The article store and its draft/published state machine.
//!
//! An article id lives in at most one of two ordered lists — draft and
//! published — except when a published article also has unpublished
//! edits, in which case both lists carry it and the draft copy wins on
//! every read.  Each list keeps its own metadata cache in step: a cache
//! holds an entry exactly for the ids of its list, and the entry always
//! equals the projection of the canonical article.
//!
//! The manager owns the canonical articles in memory; the surrounding
//! application mirrors every change to one JSON file per article and
//! per metadata entry, and feeds the files back in at startup through
//! [`ArticlesManager::load_article`].

use vstd::prelude::*;

use crate::article::{clone_tags, Article, ArticleView};
use crate::clock::now_millis;
use crate::keyed::{
    has_key, insert_pair, key_at, keys_unique, lemma_insert_pair, lemma_key_at_lookup,
    lemma_push, lemma_remove_pair, remove_pair, str_eq, value_of,
};
use crate::metadata_cache::{meta_of, ArticleMetadata, ArticleMetadataView, MetadataCache};

verus! {

/// The two locations an article can live in.
#[derive(Clone, Copy, Debug, PartialEq, Eq, Structural)]
pub enum ArticleStatus {
    Draft,
    Published,
}

/// The failures the article lifecycle can report.
#[derive(Clone, Copy, Debug, PartialEq, Eq, Structural)]
pub enum ArticleErrorKind {
    ArticleAlreadyExist,
    ArticleNotFound,
}

/// An article lifecycle error.
#[derive(Clone, Copy, Debug)]
pub struct ArticleError {
    kind: ArticleErrorKind,
}

impl ArticleError {
    pub closed spec fn spec_kind(self) -> ArticleErrorKind {
        self.kind
    }

    pub fn kind(&self) -> (k: ArticleErrorKind)
        ensures
            k == self.spec_kind(),
    {
        self.kind
    }

    /// A short description of the error.
    pub fn message(&self) -> (m: String)
        ensures
            m@ == "Article Error"@,
    {
        "Article Error".to_owned()
    }
}

/// An article list: ordered `(id, article)` pairs.
pub type ArticleTable = Seq<(Seq<char>, ArticleView)>;

struct ArticleSlot {
    id: String,
    article: Article,
}

spec fn slots_view(s: Seq<ArticleSlot>) -> ArticleTable {
    s.map_values(|slot: ArticleSlot| (slot.id@, slot.article@))
}

/// The article a freshly created draft holds.
pub open spec fn fresh_article(author: Seq<char>, now: int) -> ArticleView {
    ArticleView {
        title: "Draft Article"@,
        author: author,
        data: Seq::<char>::empty(),
        tags: Seq::<Seq<char>>::empty(),
        created_date: now,
        update_date: now,
    }
}

/// `base` after an edit: new title and body, fresh update date,
/// everything else kept.
pub open spec fn edited_article(
    base: ArticleView,
    title: Seq<char>,
    data: Seq<char>,
    now: int,
) -> ArticleView {
    ArticleView {
        title: title,
        author: base.author,
        data: data,
        tags: base.tags,
        created_date: base.created_date,
        update_date: now,
    }
}

/// `base` with a fresh update date, everything else kept.  This is what
/// a relocation (publish/unpublish) writes at its target.
pub open spec fn touched_article(base: ArticleView, now: int) -> ArticleView {
    ArticleView {
        title: base.title,
        author: base.author,
        data: base.data,
        tags: base.tags,
        created_date: base.created_date,
        update_date: now,
    }
}

/// Everything about an article except its update date.
pub open spec fn same_content(a: ArticleView, b: ArticleView) -> bool {
    &&& a.title == b.title
    &&& a.author == b.author
    &&& a.data == b.data
    &&& a.tags == b.tags
    &&& a.created_date == b.created_date
}

/// The cache carries an entry exactly for the ids of the table, and each
/// entry is the projection of the table's article.
pub open spec fn cache_matches(
    cache: Seq<(Seq<char>, ArticleMetadataView)>,
    table: ArticleTable,
) -> bool {
    &&& forall|k: Seq<char>| #[trigger] has_key(cache, k) == has_key(table, k)
    &&& forall|k: Seq<char>|
        #[trigger] has_key(table, k) ==> value_of(cache, k) == meta_of(value_of(table, k))
}

/// Inserting an article and its projection on both sides keeps a cache in
/// step with its table.
proof fn lemma_matches_insert(
    cache: Seq<(Seq<char>, ArticleMetadataView)>,
    table: ArticleTable,
    id: Seq<char>,
    a: ArticleView,
)
    requires
        keys_unique(cache),
        keys_unique(table),
        cache_matches(cache, table),
    ensures
        cache_matches(insert_pair(cache, id, meta_of(a)), insert_pair(table, id, a)),
{
    lemma_insert_pair(cache, id, meta_of(a));
    lemma_insert_pair(table, id, a);
    let c2 = insert_pair(cache, id, meta_of(a));
    let t2 = insert_pair(table, id, a);
    assert forall|k: Seq<char>| #[trigger] has_key(c2, k) == has_key(t2, k) by {
        if k != id {
            assert(has_key(c2, k) == has_key(cache, k));
            assert(has_key(t2, k) == has_key(table, k));
        }
    }
    assert forall|k: Seq<char>| #[trigger] has_key(t2, k) implies value_of(c2, k) == meta_of(
        value_of(t2, k),
    ) by {
        if k != id {
            assert(has_key(table, k));
            assert(value_of(c2, k) == value_of(cache, k));
            assert(value_of(t2, k) == value_of(table, k));
        }
    }
}

/// Removing an id on both sides keeps a cache in step with its table.
proof fn lemma_matches_remove(
    cache: Seq<(Seq<char>, ArticleMetadataView)>,
    table: ArticleTable,
    id: Seq<char>,
)
    requires
        keys_unique(cache),
        keys_unique(table),
        cache_matches(cache, table),
    ensures
        cache_matches(remove_pair(cache, id), remove_pair(table, id)),
{
    lemma_remove_pair(cache, id);
    lemma_remove_pair(table, id);
    let c2 = remove_pair(cache, id);
    let t2 = remove_pair(table, id);
    assert forall|k: Seq<char>| #[trigger] has_key(c2, k) == has_key(t2, k) by {
        if k != id {
            assert(has_key(c2, k) == has_key(cache, k));
            assert(has_key(t2, k) == has_key(table, k));
        }
    }
    assert forall|k: Seq<char>| #[trigger] has_key(t2, k) implies value_of(c2, k) == meta_of(
        value_of(t2, k),
    ) by {
        assert(k != id);
        assert(has_key(table, k));
        assert(value_of(c2, k) == value_of(cache, k));
        assert(value_of(t2, k) == value_of(table, k));
    }
}

/// Position of the slot holding `article_id`, if one exists.
fn find_slot(slots: &Vec<ArticleSlot>, article_id: &str) -> (r: Option<usize>)
    ensures
        match r {
            Some(i) => i < slots@.len() && key_at(slots_view(slots@), i as int) == article_id@,
            None => !has_key(slots_view(slots@), article_id@),
        },
{
    let mut i: usize = 0;
    while i < slots.len()
        invariant
            i <= slots@.len(),
            forall|j: int| 0 <= j < i ==> #[trigger] slots@[j].id@ != article_id@,
        decreases slots@.len() - i,
    {
        if str_eq(slots[i].id.as_str(), article_id) {
            return Some(i);
        }
        i += 1;
    }
    proof {
        assert forall|j: int| 0 <= j < slots_view(slots@).len() implies key_at(
            slots_view(slots@),
            j,
        ) != article_id@ by {
            assert(slots@[j].id@ != article_id@);
        }
    }
    None
}

/// The article store: both id lists with their canonical articles, and
/// the two metadata caches kept in step with them.
pub struct ArticlesManager {
    published_metadata_cache: MetadataCache,
    draft_metadata_cache: MetadataCache,
    published_articles: Vec<ArticleSlot>,
    draft_articles: Vec<ArticleSlot>,
}

impl ArticlesManager {
    /// The draft list: `(id, article)` pairs in insertion order.
    pub closed spec fn drafts(self) -> ArticleTable {
        slots_view(self.draft_articles@)
    }

    /// The published list: `(id, article)` pairs in insertion order.
    pub closed spec fn published(self) -> ArticleTable {
        slots_view(self.published_articles@)
    }

    /// The draft metadata cache's entries.
    pub closed spec fn draft_metadata(self) -> Seq<(Seq<char>, ArticleMetadataView)> {
        self.draft_metadata_cache@
    }

    /// The published metadata cache's entries.
    pub closed spec fn published_metadata(self) -> Seq<(Seq<char>, ArticleMetadataView)> {
        self.published_metadata_cache@
    }

    /// The list an id must be in to count as present with `status`.
    pub open spec fn table_of(self, status: ArticleStatus) -> ArticleTable {
        match status {
            ArticleStatus::Draft => self.drafts(),
            ArticleStatus::Published => self.published(),
        }
    }

    /// Well-formedness: ids are unique per list, and each metadata cache
    /// is in step with its list.
    pub closed spec fn wf(self) -> bool {
        &&& keys_unique(self.drafts())
        &&& keys_unique(self.published())
        &&& self.draft_metadata_cache.wf()
        &&& self.published_metadata_cache.wf()
        &&& cache_matches(self.draft_metadata_cache@, self.drafts())
        &&& cache_matches(self.published_metadata_cache@, self.published())
    }

    /// An empty store.
    pub fn new() -> (manager: ArticlesManager)
        ensures
            manager.wf(),
            manager.drafts() == Seq::<(Seq<char>, ArticleView)>::empty(),
            manager.published() == Seq::<(Seq<char>, ArticleView)>::empty(),
    {
        let manager = ArticlesManager {
            published_metadata_cache: MetadataCache::new("published"),
            draft_metadata_cache: MetadataCache::new("draft"),
            published_articles: Vec::new(),
            draft_articles: Vec::new(),
        };
        proof {
            assert(manager.drafts() =~= Seq::<(Seq<char>, ArticleView)>::empty());
            assert(manager.published() =~= Seq::<(Seq<char>, ArticleView)>::empty());
        }
        manager
    }

    /// Register an article read back from storage at startup.  The id
    /// must not be taken yet in the target list; its metadata entry is
    /// rebuilt from the article itself.
    pub fn load_article(&mut self, article_id: &str, article: Article, status: ArticleStatus)
        requires
            old(self).wf(),
            !has_key(old(self).table_of(status), article_id@),
        ensures
            final(self).wf(),
            final(self).table_of(status) == old(self).table_of(status).push(
                (article_id@, article@),
            ),
            match status {
                ArticleStatus::Draft => final(self).published() == old(self).published(),
                ArticleStatus::Published => final(self).drafts() == old(self).drafts(),
            },
    {
        match status {
            ArticleStatus::Draft => {
                let ghost table = self.drafts();
                let ghost cache = self.draft_metadata_cache@;
                self.draft_metadata_cache.set_metadata(article_id, &article);
                proof {
                    lemma_matches_insert(cache, table, article_id@, article@);
                    lemma_push(table, article_id@, article@);
                }
                self.draft_articles.push(ArticleSlot { id: article_id.to_owned(), article });
                proof {
                    assert(self.drafts() =~= table.push((article_id@, article@)));
                    assert(insert_pair(table, article_id@, article@) == table.push(
                        (article_id@, article@),
                    ));
                }
            },
            ArticleStatus::Published => {
                let ghost table = self.published();
                let ghost cache = self.published_metadata_cache@;
                self.published_metadata_cache.set_metadata(article_id, &article);
                proof {
                    lemma_matches_insert(cache, table, article_id@, article@);
                    lemma_push(table, article_id@, article@);
                }
                self.published_articles.push(ArticleSlot { id: article_id.to_owned(), article });
                proof {
                    assert(self.published() =~= table.push((article_id@, article@)));
                    assert(insert_pair(table, article_id@, article@) == table.push(
                        (article_id@, article@),
                    ));
                }
            },
        }
    }

    /// The canonical article stored with `status` under `article_id`.
    pub fn read_from(&self, article_id: &str, status: ArticleStatus) -> (r: Option<Article>)
        requires
            self.wf(),
        ensures
            match r {
                Some(a) => has_key(self.table_of(status), article_id@) && a@ == value_of(
                    self.table_of(status),
                    article_id@,
                ),
                None => !has_key(self.table_of(status), article_id@),
            },
    {
        let slots = match status {
            ArticleStatus::Draft => &self.draft_articles,
            ArticleStatus::Published => &self.published_articles,
        };
        match find_slot(slots, article_id) {
            Some(i) => {
                proof {
                    lemma_key_at_lookup(slots_view(slots@), i as int);
                }
                Some(slots[i].article.clone())
            },
            None => None,
        }
    }

    /// What a read of `article_id` resolves to: the draft copy when one
    /// exists (annotated with whether a published copy also exists and,
    /// if so, its update date), else the published copy, else nothing.
    pub open spec fn read_latest_spec(self, article_id: Seq<char>) -> Option<
        (ArticleView, ArticleStatus, bool, Option<int>),
    > {
        if has_key(self.drafts(), article_id) {
            Some(
                (
                    value_of(self.drafts(), article_id),
                    ArticleStatus::Draft,
                    has_key(self.published(), article_id),
                    if has_key(self.published(), article_id) {
                        Some(value_of(self.published(), article_id).update_date)
                    } else {
                        None
                    },
                ),
            )
        } else if has_key(self.published(), article_id) {
            Some(
                (
                    value_of(self.published(), article_id),
                    ArticleStatus::Published,
                    true,
                    Some(value_of(self.published(), article_id).update_date),
                ),
            )
        } else {
            None
        }
    }

    /// The latest copy of `article_id`: the draft when one exists (the
    /// draft always wins), else the published copy.  The extra results
    /// say where the copy came from, whether a published copy exists,
    /// and the published copy's update date.
    pub fn read_latest(&self, article_id: &str) -> (r: Option<
        (Article, ArticleStatus, bool, Option<crate::Timestamp>),
    >)
        requires
            self.wf(),
        ensures
            match (r, self.read_latest_spec(article_id@)) {
                (Some(e), Some(s)) => {
                    &&& e.0@ == s.0
                    &&& e.1 == s.1
                    &&& e.2 == s.2
                    &&& match (e.3, s.3) {
                        (Some(a), Some(b)) => a as int == b,
                        (None, None) => true,
                        _ => false,
                    }
                },
                (None, None) => true,
                _ => false,
            },
    {
        match find_slot(&self.draft_articles, article_id) {
            Some(i) => {
                proof {
                    lemma_key_at_lookup(self.drafts(), i as int);
                }
                let article = self.draft_articles[i].article.clone();
                match find_slot(&self.published_articles, article_id) {
                    Some(j) => {
                        proof {
                            lemma_key_at_lookup(self.published(), j as int);
                        }
                        let published_date = match self.published_metadata_cache.get_metadata(
                            article_id,
                        ) {
                            Some(metadata) => Some(metadata.update_date),
                            None => {
                                proof {
                                    assert(has_key(self.published_metadata_cache@, article_id@));
                                }
                                None
                            },
                        };
                        Some((article, ArticleStatus::Draft, true, published_date))
                    },
                    None => Some((article, ArticleStatus::Draft, false, None)),
                }
            },
            None => {
                match find_slot(&self.published_articles, article_id) {
                    Some(j) => {
                        proof {
                            lemma_key_at_lookup(self.published(), j as int);
                        }
                        let article = self.published_articles[j].article.clone();
                        let published_date = Some(article.update_date);
                        Some((article, ArticleStatus::Published, true, published_date))
                    },
                    None => None,
                }
            },
        }
    }

    /// Create a fresh draft under `article_id`, owned by `author`: the
    /// placeholder title, an empty body, no tags, both dates set to the
    /// moment of creation.  Valid only for an id that does not exist yet.
    pub fn create(&mut self, article_id: &str, author: &str)
        requires
            old(self).wf(),
            !has_key(old(self).drafts(), article_id@),
            !has_key(old(self).published(), article_id@),
        ensures
            final(self).wf(),
            exists|t: int|
                final(self).drafts() == old(self).drafts().push(
                    (article_id@, fresh_article(author@, t)),
                ),
            final(self).published() == old(self).published(),
    {
        let now = now_millis();
        self.create_at(article_id, author, now);
    }

    /// `create`, with the creation moment passed in.
    pub fn create_at(&mut self, article_id: &str, author: &str, now: crate::Timestamp)
        requires
            old(self).wf(),
            !has_key(old(self).drafts(), article_id@),
            !has_key(old(self).published(), article_id@),
        ensures
            final(self).wf(),
            final(self).drafts() == old(self).drafts().push(
                (article_id@, fresh_article(author@, now as int)),
            ),
            final(self).published() == old(self).published(),
    {
        let new_article = Article {
            title: "Draft Article".to_owned(),
            author: author.to_owned(),
            tags: Vec::new(),
            data: String::new(),
            created_date: now,
            update_date: now,
        };
        proof {
            assert(new_article@.tags =~= Seq::<Seq<char>>::empty());
            assert(new_article@ == fresh_article(author@, now as int));
        }
        self.load_article(article_id, new_article, ArticleStatus::Draft);
    }

    /// Whether `article_id` is present with `status`.
    fn contains(&self, article_id: &str, status: ArticleStatus) -> (r: bool)
        ensures
            r == has_key(self.table_of(status), article_id@),
    {
        let slots = match status {
            ArticleStatus::Draft => &self.draft_articles,
            ArticleStatus::Published => &self.published_articles,
        };
        match find_slot(slots, article_id) {
            Some(i) => {
                proof {
                    assert(key_at(slots_view(slots@), i as int) == article_id@);
                }
                true
            },
            None => false,
        }
    }

    /// Store `article` under `article_id` in the list of `status` —
    /// overwriting in place or appending — and bring that list's
    /// metadata cache in step.
    fn put_entry(&mut self, article_id: &str, article: Article, status: ArticleStatus)
        requires
            old(self).wf(),
        ensures
            final(self).wf(),
            final(self).table_of(status) == insert_pair(
                old(self).table_of(status),
                article_id@,
                article@,
            ),
            match status {
                ArticleStatus::Draft => final(self).published() == old(self).published(),
                ArticleStatus::Published => final(self).drafts() == old(self).drafts(),
            },
    {
        match status {
            ArticleStatus::Draft => {
                let ghost table = self.drafts();
                let ghost cache = self.draft_metadata_cache@;
                self.draft_metadata_cache.set_metadata(article_id, &article);
                proof {
                    lemma_matches_insert(cache, table, article_id@, article@);
                    lemma_insert_pair(table, article_id@, article@);
                }
                match find_slot(&self.draft_articles, article_id) {
                    Some(i) => {
                        proof {
                            lemma_key_at_lookup(table, i as int);
                        }
                        self.draft_articles.set(
                            i,
                            ArticleSlot { id: article_id.to_owned(), article },
                        );
                        proof {
                            assert(self.drafts() =~= insert_pair(table, article_id@, article@));
                        }
                    },
                    None => {
                        self.draft_articles.push(
                            ArticleSlot { id: article_id.to_owned(), article },
                        );
                        proof {
                            assert(self.drafts() =~= insert_pair(table, article_id@, article@));
                        }
                    },
                }
            },
            ArticleStatus::Published => {
                let ghost table = self.published();
                let ghost cache = self.published_metadata_cache@;
                self.published_metadata_cache.set_metadata(article_id, &article);
                proof {
                    lemma_matches_insert(cache, table, article_id@, article@);
                    lemma_insert_pair(table, article_id@, article@);
                }
                match find_slot(&self.published_articles, article_id) {
                    Some(i) => {
                        proof {
                            lemma_key_at_lookup(table, i as int);
                        }
                        self.published_articles.set(
                            i,
                            ArticleSlot { id: article_id.to_owned(), article },
                        );
                        proof {
                            assert(self.published() =~= insert_pair(table, article_id@, article@));
                        }
                    },
                    None => {
                        self.published_articles.push(
                            ArticleSlot { id: article_id.to_owned(), article },
                        );
                        proof {
                            assert(self.published() =~= insert_pair(table, article_id@, article@));
                        }
                    },
                }
            },
        }
    }

    /// Take `article_id` out of the list of `status` (tolerating an
    /// absent id) and drop that list's metadata entry.  Returns the
    /// removed article.
    fn remove_entry(&mut self, article_id: &str, status: ArticleStatus) -> (removed: Option<
        Article,
    >)
        requires
            old(self).wf(),
        ensures
            final(self).wf(),
            final(self).table_of(status) == remove_pair(old(self).table_of(status), article_id@),
            match status {
                ArticleStatus::Draft => final(self).published() == old(self).published(),
                ArticleStatus::Published => final(self).drafts() == old(self).drafts(),
            },
            match removed {
                Some(a) => has_key(old(self).table_of(status), article_id@) && a@ == value_of(
                    old(self).table_of(status),
                    article_id@,
                ),
                None => !has_key(old(self).table_of(status), article_id@),
            },
    {
        match status {
            ArticleStatus::Draft => {
                match find_slot(&self.draft_articles, article_id) {
                    Some(i) => {
                        let ghost table = self.drafts();
                        let ghost cache = self.draft_metadata_cache@;
                        proof {
                            lemma_key_at_lookup(table, i as int);
                            lemma_matches_remove(cache, table, article_id@);
                            lemma_remove_pair(table, article_id@);
                        }
                        let slot = self.draft_articles.remove(i);
                        self.draft_metadata_cache.remove_metadata(article_id);
                        proof {
                            assert(self.drafts() =~= remove_pair(table, article_id@));
                        }
                        Some(slot.article)
                    },
                    None => None,
                }
            },
            ArticleStatus::Published => {
                match find_slot(&self.published_articles, article_id) {
                    Some(i) => {
                        let ghost table = self.published();
                        let ghost cache = self.published_metadata_cache@;
                        proof {
                            lemma_key_at_lookup(table, i as int);
                            lemma_matches_remove(cache, table, article_id@);
                            lemma_remove_pair(table, article_id@);
                        }
                        let slot = self.published_articles.remove(i);
                        self.published_metadata_cache.remove_metadata(article_id);
                        proof {
                            assert(self.published() =~= remove_pair(table, article_id@));
                        }
                        Some(slot.article)
                    },
                    None => None,
                }
            },
        }
    }

    /// The copy a read of `article_id` resolves to: the draft when one
    /// exists, else the published copy.
    pub open spec fn resolved(self, article_id: Seq<char>) -> ArticleView {
        if has_key(self.drafts(), article_id) {
            value_of(self.drafts(), article_id)
        } else {
            value_of(self.published(), article_id)
        }
    }

    /// Write new content for `article_id`.  The edit lands in the draft
    /// list: editing a published-only article forks a draft.  Fails
    /// exactly when the id exists in neither list.
    pub fn update(&mut self, article_id: &str, title: &str, data: &str) -> (r: Result<
        (),
        ArticleError,
    >)
        requires
            old(self).wf(),
        ensures
            final(self).wf(),
            final(self).published() == old(self).published(),
            match r {
                Ok(()) => (has_key(old(self).drafts(), article_id@) || has_key(
                    old(self).published(),
                    article_id@,
                )) && exists|t: int|
                    final(self).drafts() == insert_pair(
                        old(self).drafts(),
                        article_id@,
                        edited_article(old(self).resolved(article_id@), title@, data@, t),
                    ),
                Err(e) => {
                    &&& e.spec_kind() == ArticleErrorKind::ArticleNotFound
                    &&& !has_key(old(self).drafts(), article_id@)
                    &&& !has_key(old(self).published(), article_id@)
                    &&& *final(self) == *old(self)
                },
            },
    {
        let now = now_millis();
        self.update_at(article_id, title, data, now)
    }

    /// `update`, with the edit moment passed in.
    pub fn update_at(
        &mut self,
        article_id: &str,
        title: &str,
        data: &str,
        now: crate::Timestamp,
    ) -> (r: Result<(), ArticleError>)
        requires
            old(self).wf(),
        ensures
            final(self).wf(),
            final(self).published() == old(self).published(),
            match r {
                Ok(()) => (has_key(old(self).drafts(), article_id@) || has_key(
                    old(self).published(),
                    article_id@,
                )) && final(self).drafts() == insert_pair(
                    old(self).drafts(),
                    article_id@,
                    edited_article(old(self).resolved(article_id@), title@, data@, now as int),
                ),
                Err(e) => {
                    &&& e.spec_kind() == ArticleErrorKind::ArticleNotFound
                    &&& !has_key(old(self).drafts(), article_id@)
                    &&& !has_key(old(self).published(), article_id@)
                    &&& *final(self) == *old(self)
                },
            },
    {
        let base = match find_slot(&self.draft_articles, article_id) {
            Some(i) => {
                proof {
                    lemma_key_at_lookup(self.drafts(), i as int);
                }
                &self.draft_articles[i].article
            },
            None => {
                match find_slot(&self.published_articles, article_id) {
                    Some(j) => {
                        proof {
                            lemma_key_at_lookup(self.published(), j as int);
                        }
                        &self.published_articles[j].article
                    },
                    None => {
                        return Err(ArticleError { kind: ArticleErrorKind::ArticleNotFound });
                    },
                }
            },
        };
        let updated = Article {
            title: title.to_owned(),
            author: base.author.clone(),
            data: data.to_owned(),
            tags: clone_tags(&base.tags),
            created_date: base.created_date,
            update_date: now,
        };
        proof {
            assert(updated@ == edited_article(
                self.resolved(article_id@),
                title@,
                data@,
                now as int,
            ));
        }
        self.put_entry(article_id, updated, ArticleStatus::Draft);
        Ok(())
    }

    /// Move `article_id` from the draft list to the published list: the
    /// canonical copy relocates with a fresh update date, the draft copy
    /// and its metadata disappear, and the published metadata is rebuilt
    /// from the relocated copy.  Fails — with the lists untouched —
    /// exactly when the id is not a draft.
    pub fn publish(&mut self, article_id: &str) -> (r: Result<(), ArticleError>)
        requires
            old(self).wf(),
        ensures
            final(self).wf(),
            match r {
                Ok(()) => has_key(old(self).drafts(), article_id@) && final(self).drafts()
                    == remove_pair(old(self).drafts(), article_id@) && exists|t: int|
                    final(self).published() == insert_pair(
                        old(self).published(),
                        article_id@,
                        touched_article(value_of(old(self).drafts(), article_id@), t),
                    ),
                Err(e) => {
                    &&& e.spec_kind() == ArticleErrorKind::ArticleNotFound
                    &&& !has_key(old(self).drafts(), article_id@)
                    &&& *final(self) == *old(self)
                },
            },
    {
        let now = now_millis();
        self.publish_at(article_id, now)
    }

    /// `publish`, with the relocation moment passed in.
    pub fn publish_at(&mut self, article_id: &str, now: crate::Timestamp) -> (r: Result<
        (),
        ArticleError,
    >)
        requires
            old(self).wf(),
        ensures
            final(self).wf(),
            match r {
                Ok(()) => has_key(old(self).drafts(), article_id@) && final(self).drafts()
                    == remove_pair(old(self).drafts(), article_id@) && final(self).published()
                    == insert_pair(
                    old(self).published(),
                    article_id@,
                    touched_article(value_of(old(self).drafts(), article_id@), now as int),
                ),
                Err(e) => {
                    &&& e.spec_kind() == ArticleErrorKind::ArticleNotFound
                    &&& !has_key(old(self).drafts(), article_id@)
                    &&& *final(self) == *old(self)
                },
            },
    {
        if !self.contains(article_id, ArticleStatus::Draft) {
            return Err(ArticleError { kind: ArticleErrorKind::ArticleNotFound });
        }
        match self.remove_entry(article_id, ArticleStatus::Draft) {
            Some(article) => {
                let mut article = article;
                article.update_date = now;
                proof {
                    assert(article@ == touched_article(
                        value_of(old(self).drafts(), article_id@),
                        now as int,
                    ));
                }
                self.put_entry(article_id, article, ArticleStatus::Published);
                Ok(())
            },
            None => {
                proof {
                    assert(false);
                }
                Err(ArticleError { kind: ArticleErrorKind::ArticleNotFound })
            },
        }
    }

    /// Take `article_id` off the published list.  When a draft also
    /// exists the draft stays authoritative and the published copy and
    /// its metadata are simply dropped; when only the published copy
    /// exists it relocates back to the draft list, mirroring `publish`.
    /// Fails — with the lists untouched — exactly when the id is not
    /// published.
    pub fn unpublish(&mut self, article_id: &str) -> (r: Result<(), ArticleError>)
        requires
            old(self).wf(),
        ensures
            final(self).wf(),
            match r {
                Ok(()) => has_key(old(self).published(), article_id@) && final(self).published()
                    == remove_pair(old(self).published(), article_id@) && (if has_key(
                    old(self).drafts(),
                    article_id@,
                ) {
                    final(self).drafts() == old(self).drafts()
                } else {
                    exists|t: int|
                        final(self).drafts() == old(self).drafts().push(
                            (
                                article_id@,
                                touched_article(
                                    value_of(old(self).published(), article_id@),
                                    t,
                                ),
                            ),
                        )
                }),
                Err(e) => {
                    &&& e.spec_kind() == ArticleErrorKind::ArticleNotFound
                    &&& !has_key(old(self).published(), article_id@)
                    &&& *final(self) == *old(self)
                },
            },
    {
        let now = now_millis();
        self.unpublish_at(article_id, now)
    }

    /// `unpublish`, with the relocation moment passed in.
    pub fn unpublish_at(&mut self, article_id: &str, now: crate::Timestamp) -> (r: Result<
        (),
        ArticleError,
    >)
        requires
            old(self).wf(),
        ensures
            final(self).wf(),
            match r {
                Ok(()) => has_key(old(self).published(), article_id@) && final(self).published()
                    == remove_pair(old(self).published(), article_id@) && (if has_key(
                    old(self).drafts(),
                    article_id@,
                ) {
                    final(self).drafts() == old(self).drafts()
                } else {
                    final(self).drafts() == old(self).drafts().push(
                        (
                            article_id@,
                            touched_article(
                                value_of(old(self).published(), article_id@),
                                now as int,
                            ),
                        ),
                    )
                }),
                Err(e) => {
                    &&& e.spec_kind() == ArticleErrorKind::ArticleNotFound
                    &&& !has_key(old(self).published(), article_id@)
                    &&& *final(self) == *old(self)
                },
            },
    {
        if !self.contains(article_id, ArticleStatus::Published) {
            return Err(ArticleError { kind: ArticleErrorKind::ArticleNotFound });
        }
        let keep_draft = self.contains(article_id, ArticleStatus::Draft);
        match self.remove_entry(article_id, ArticleStatus::Published) {
            Some(article) => {
                if !keep_draft {
                    let mut article = article;
                    article.update_date = now;
                    proof {
                        assert(article@ == touched_article(
                            value_of(old(self).published(), article_id@),
                            now as int,
                        ));
                        lemma_insert_pair(old(self).drafts(), article_id@, article@);
                    }
                    self.put_entry(article_id, article, ArticleStatus::Draft);
                    proof {
                        assert(insert_pair(old(self).drafts(), article_id@, article@)
                            == old(self).drafts().push((article_id@, article@)));
                    }
                }
                Ok(())
            },
            None => {
                proof {
                    assert(false);
                }
                Err(ArticleError { kind: ArticleErrorKind::ArticleNotFound })
            },
        }
    }

    /// Throw away the unpublished edits of a published article: the
    /// draft copy and its metadata are dropped, the published copy
    /// stays as it is.  Fails — with the lists untouched — when the
    /// article has no published copy to fall back to, or no draft copy
    /// to discard.
    pub fn discard_changes(&mut self, article_id: &str) -> (r: Result<(), ArticleError>)
        requires
            old(self).wf(),
        ensures
            final(self).wf(),
            final(self).published() == old(self).published(),
            match r {
                Ok(()) => {
                    &&& has_key(old(self).published(), article_id@)
                    &&& has_key(old(self).drafts(), article_id@)
                    &&& final(self).drafts() == remove_pair(old(self).drafts(), article_id@)
                },
                Err(e) => {
                    &&& e.spec_kind() == ArticleErrorKind::ArticleNotFound
                    &&& !(has_key(old(self).published(), article_id@) && has_key(
                        old(self).drafts(),
                        article_id@,
                    ))
                    &&& *final(self) == *old(self)
                },
            },
    {
        if !self.contains(article_id, ArticleStatus::Published) {
            return Err(ArticleError { kind: ArticleErrorKind::ArticleNotFound });
        }
        if !self.contains(article_id, ArticleStatus::Draft) {
            return Err(ArticleError { kind: ArticleErrorKind::ArticleNotFound });
        }
        self.remove_entry(article_id, ArticleStatus::Draft);
        Ok(())
    }

    /// Remove `article_id` outright: both copies and both metadata
    /// entries go, each side tolerating an absent copy.  Fails exactly
    /// when the id exists in neither list.
    pub fn delete(&mut self, article_id: &str) -> (r: Result<(), ArticleError>)
        requires
            old(self).wf(),
        ensures
            final(self).wf(),
            final(self).drafts() == remove_pair(old(self).drafts(), article_id@),
            final(self).published() == remove_pair(old(self).published(), article_id@),
            match r {
                Ok(()) => has_key(old(self).drafts(), article_id@) || has_key(
                    old(self).published(),
                    article_id@,
                ),
                Err(e) => {
                    &&& e.spec_kind() == ArticleErrorKind::ArticleNotFound
                    &&& !has_key(old(self).drafts(), article_id@)
                    &&& !has_key(old(self).published(), article_id@)
                },
            },
    {
        let had_draft = match self.remove_entry(article_id, ArticleStatus::Draft) {
            Some(_) => true,
            None => false,
        };
        let had_published = match self.remove_entry(article_id, ArticleStatus::Published) {
            Some(_) => true,
            None => false,
        };
        if had_draft || had_published {
            Ok(())
        } else {
            Err(ArticleError { kind: ArticleErrorKind::ArticleNotFound })
        }
    }

    /// Metadata for a page of the draft list, in list order, with the
    /// list's total size.
    pub fn list_draft_articles(&mut self, start_index: usize, count: usize) -> (r: (
        Vec<(String, ArticleMetadata)>,
        usize,
    ))
        requires
            old(self).wf(),
        ensures
            *final(self) == *old(self),
            r.1 == old(self).drafts().len(),
            r.0@.len() == page_len(
                old(self).drafts().len() as int,
                start_index as int,
                count as int,
            ),
            forall|j: int|
                0 <= j < r.0@.len() ==> ((#[trigger] r.0@[j]).0@ == key_at(
                    old(self).drafts(),
                    start_index + j,
                ) && r.0@[j].1@ == meta_of(old(self).drafts()[start_index + j].1)),
    {
        list_page(&self.draft_articles, &self.draft_metadata_cache, start_index, count)
    }

    /// Metadata for a page of the published list, in list order, with
    /// the list's total size.
    pub fn list_published_articles(&mut self, start_index: usize, count: usize) -> (r: (
        Vec<(String, ArticleMetadata)>,
        usize,
    ))
        requires
            old(self).wf(),
        ensures
            *final(self) == *old(self),
            r.1 == old(self).published().len(),
            r.0@.len() == page_len(
                old(self).published().len() as int,
                start_index as int,
                count as int,
            ),
            forall|j: int|
                0 <= j < r.0@.len() ==> ((#[trigger] r.0@[j]).0@ == key_at(
                    old(self).published(),
                    start_index + j,
                ) && r.0@[j].1@ == meta_of(old(self).published()[start_index + j].1)),
    {
        list_page(&self.published_articles, &self.published_metadata_cache, start_index, count)
    }
}

/// How many entries a page request yields: nothing past the end of the
/// list, otherwise `count` clamped to what remains.
pub open spec fn page_len(total: int, start: int, count: int) -> int {
    if start >= total {
        0
    } else if count <= total - start {
        count
    } else {
        total - start
    }
}

/// One page of a list, with each id's metadata taken from the cache.
fn list_page(
    slots: &Vec<ArticleSlot>,
    cache: &MetadataCache,
    start_index: usize,
    count: usize,
) -> (r: (Vec<(String, ArticleMetadata)>, usize))
    requires
        keys_unique(slots_view(slots@)),
        cache.wf(),
        cache_matches(cache@, slots_view(slots@)),
    ensures
        r.1 == slots@.len(),
        r.0@.len() == page_len(slots@.len() as int, start_index as int, count as int),
        forall|j: int|
            0 <= j < r.0@.len() ==> ((#[trigger] r.0@[j]).0@ == key_at(
                slots_view(slots@),
                start_index + j,
            ) && r.0@[j].1@ == meta_of(slots_view(slots@)[start_index + j].1)),
{
    let ghost table = slots_view(slots@);
    let total = slots.len();
    let mut page: Vec<(String, ArticleMetadata)> = Vec::new();
    let normalized = if count <= total {
        count
    } else {
        total
    };
    if start_index < total {
        let end = if start_index < total - normalized {
            start_index + normalized
        } else {
            total
        };
        proof {
            assert(end - start_index == page_len(
                total as int,
                start_index as int,
                count as int,
            ));
        }
        let mut i = start_index;
        while i < end
            invariant
                start_index <= i <= end,
                end <= slots@.len(),
                table == slots_view(slots@),
                keys_unique(table),
                cache.wf(),
                cache_matches(cache@, table),
                page@.len() == i - start_index,
                forall|j: int|
                    0 <= j < page@.len() ==> ((#[trigger] page@[j]).0@ == key_at(
                        table,
                        start_index + j,
                    ) && page@[j].1@ == meta_of(table[start_index + j].1)),
            decreases end - i,
        {
            let id = slots[i].id.clone();
            proof {
                assert(key_at(table, i as int) == id@);
                lemma_key_at_lookup(table, i as int);
            }
            match cache.get_metadata(id.as_str()) {
                Some(metadata) => {
                    let entry = (id, metadata.clone());
                    page.push(entry);
                },
                None => {
                    proof {
                        assert(has_key(table, id@));
                        assert(false);
                    }
                },
            }
            i += 1;
        }
    }
    (page, total)
}

/// Law: draft precedence.  For an id present in both lists, a read
/// resolves to the draft copy and reports that a published copy also
/// exists.
pub proof fn lemma_draft_precedence(manager: ArticlesManager, article_id: Seq<char>)
    requires
        manager.wf(),
        has_key(manager.drafts(), article_id),
        has_key(manager.published(), article_id),
    ensures
        manager.read_latest_spec(article_id) == Some(
            (
                value_of(manager.drafts(), article_id),
                ArticleStatus::Draft,
                true,
                Some(value_of(manager.published(), article_id).update_date),
            ),
        ),
{
}

/// Law: publish is a complete move.  Relocating a draft removes its id
/// from the draft list and binds it in the published list to the
/// draft's latest content, with only the update date refreshed; every
/// other id keeps its membership on both sides.  (The metadata caches
/// follow the lists throughout: see `lemma_metadata_consistent`.)
pub proof fn lemma_publish_is_complete_move(
    drafts: ArticleTable,
    published: ArticleTable,
    article_id: Seq<char>,
    now: int,
)
    requires
        keys_unique(drafts),
        keys_unique(published),
        has_key(drafts, article_id),
    ensures
        ({
            let moved = touched_article(value_of(drafts, article_id), now);
            let drafts2 = remove_pair(drafts, article_id);
            let published2 = insert_pair(published, article_id, moved);
            &&& !has_key(drafts2, article_id)
            &&& has_key(published2, article_id)
            &&& value_of(published2, article_id) == moved
            &&& same_content(moved, value_of(drafts, article_id))
            &&& moved.update_date == now
            &&& forall|k: Seq<char>|
                k != article_id ==> #[trigger] has_key(drafts2, k) == has_key(drafts, k)
            &&& forall|k: Seq<char>|
                k != article_id ==> #[trigger] has_key(published2, k) == has_key(published, k)
        }),
{
    let moved = touched_article(value_of(drafts, article_id), now);
    lemma_remove_pair(drafts, article_id);
    lemma_insert_pair(published, article_id, moved);
}

/// Law: unpublish mirrors publish.  Publishing a draft-only article and
/// then unpublishing it returns it to the draft list with its content
/// unchanged (only the update dates differ), and every other id keeps
/// its membership on both sides.
pub proof fn lemma_publish_then_unpublish(
    drafts: ArticleTable,
    published: ArticleTable,
    article_id: Seq<char>,
    publish_time: int,
    unpublish_time: int,
)
    requires
        keys_unique(drafts),
        keys_unique(published),
        has_key(drafts, article_id),
        !has_key(published, article_id),
    ensures
        ({
            let drafts1 = remove_pair(drafts, article_id);
            let published1 = insert_pair(
                published,
                article_id,
                touched_article(value_of(drafts, article_id), publish_time),
            );
            let drafts2 = drafts1.push(
                (article_id, touched_article(value_of(published1, article_id), unpublish_time)),
            );
            let published2 = remove_pair(published1, article_id);
            &&& !has_key(drafts1, article_id)
            &&& has_key(drafts2, article_id)
            &&& !has_key(published2, article_id)
            &&& same_content(value_of(drafts2, article_id), value_of(drafts, article_id))
            &&& forall|k: Seq<char>|
                k != article_id ==> #[trigger] has_key(drafts2, k) == has_key(drafts, k)
            &&& forall|k: Seq<char>|
                k != article_id ==> #[trigger] has_key(published2, k) == has_key(published, k)
        }),
{
    let drafts1 = remove_pair(drafts, article_id);
    let moved = touched_article(value_of(drafts, article_id), publish_time);
    let published1 = insert_pair(published, article_id, moved);
    lemma_remove_pair(drafts, article_id);
    lemma_insert_pair(published, article_id, moved);
    let back = touched_article(value_of(published1, article_id), unpublish_time);
    lemma_push(drafts1, article_id, back);
    lemma_remove_pair(published1, article_id);
    assert(drafts1.push((article_id, back)) == insert_pair(drafts1, article_id, back));
}

/// Law: unpublish mirrors publish, the other way round.  Unpublishing a
/// published-only article and then publishing it again returns it to
/// the published list with its content unchanged (only the update
/// dates differ), and every other id keeps its membership on both
/// sides.
pub proof fn lemma_unpublish_then_publish(
    drafts: ArticleTable,
    published: ArticleTable,
    article_id: Seq<char>,
    unpublish_time: int,
    publish_time: int,
)
    requires
        keys_unique(drafts),
        keys_unique(published),
        has_key(published, article_id),
        !has_key(drafts, article_id),
    ensures
        ({
            let drafts1 = drafts.push(
                (article_id, touched_article(value_of(published, article_id), unpublish_time)),
            );
            let published1 = remove_pair(published, article_id);
            let drafts2 = remove_pair(drafts1, article_id);
            let published2 = insert_pair(
                published1,
                article_id,
                touched_article(value_of(drafts1, article_id), publish_time),
            );
            &&& !has_key(published1, article_id)
            &&& has_key(published2, article_id)
            &&& !has_key(drafts2, article_id)
            &&& same_content(value_of(published2, article_id), value_of(published, article_id))
            &&& forall|k: Seq<char>|
                k != article_id ==> #[trigger] has_key(drafts2, k) == has_key(drafts, k)
            &&& forall|k: Seq<char>|
                k != article_id ==> #[trigger] has_key(published2, k) == has_key(published, k)
        }),
{
    let back = touched_article(value_of(published, article_id), unpublish_time);
    let drafts1 = drafts.push((article_id, back));
    let published1 = remove_pair(published, article_id);
    lemma_push(drafts, article_id, back);
    lemma_remove_pair(published, article_id);
    lemma_remove_pair(drafts1, article_id);
    let moved = touched_article(value_of(drafts1, article_id), publish_time);
    lemma_insert_pair(published1, article_id, moved);
}

/// Law: listing pagination.  A page never holds more than the requested
/// count, never reaches past the list's total, and a start index at or
/// past the total yields an empty page.
pub proof fn lemma_listing_pagination(total: int, start: int, count: int)
    requires
        0 <= total,
        0 <= start,
        0 <= count,
    ensures
        page_len(total, start, count) <= count,
        page_len(total, start, count) <= total,
        start < total ==> start + page_len(total, start, count) <= total,
        start >= total ==> page_len(total, start, count) == 0,
{
}

/// Law: metadata consistency.  In a well-formed store — which every
/// operation here both assumes and re-establishes — each id of a status
/// list has a metadata entry in that status's cache, and the entry
/// equals the projection of the canonical article.
pub proof fn lemma_metadata_consistent(
    manager: ArticlesManager,
    article_id: Seq<char>,
    status: ArticleStatus,
)
    requires
        manager.wf(),
        has_key(manager.table_of(status), article_id),
    ensures
        ({
            let cache = match status {
                ArticleStatus::Draft => manager.draft_metadata(),
                ArticleStatus::Published => manager.published_metadata(),
            };
            &&& has_key(cache, article_id)
            &&& value_of(cache, article_id) == meta_of(
                value_of(manager.table_of(status), article_id),
            )
        }),
{
}

} // verus!
