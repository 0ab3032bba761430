//! The per-status metadata cache.
//!
//! Each article status (draft, published) owns one cache instance: a
//! list-friendly projection of every article of that status, keyed by
//! article id.  The cache lives in memory; the surrounding application
//! mirrors every change to one file per entry, so a cache mutation here
//! corresponds to one file rewrite there.

use vstd::prelude::*;

use crate::article::{clone_tags, Article, ArticleView};
use crate::keyed::{has_key, insert_pair, key_index, keys_unique, remove_pair, str_eq, value_of};

verus! {

/// The mathematical shape of a metadata entry.
pub struct ArticleMetadataView {
    pub title: Seq<char>,
    pub author: Seq<char>,
    pub tags: Seq<Seq<char>>,
    pub created_date: int,
    pub update_date: int,
}

/// The cheap projection of an article kept for list views.
pub struct ArticleMetadata {
    pub title: String,
    pub author: String,
    pub tags: Vec<String>,
    pub created_date: crate::Timestamp,
    pub update_date: crate::Timestamp,
}

impl View for ArticleMetadata {
    type V = ArticleMetadataView;

    open spec fn view(&self) -> ArticleMetadataView {
        ArticleMetadataView {
            title: self.title@,
            author: self.author@,
            tags: self.tags.deep_view(),
            created_date: self.created_date as int,
            update_date: self.update_date as int,
        }
    }
}

impl Clone for ArticleMetadata {
    fn clone(&self) -> (r: Self)
        ensures
            r@ == self@,
    {
        ArticleMetadata {
            title: self.title.clone(),
            author: self.author.clone(),
            tags: clone_tags(&self.tags),
            created_date: self.created_date,
            update_date: self.update_date,
        }
    }
}

/// The projection a cache entry must hold for the article it describes.
pub open spec fn meta_of(a: ArticleView) -> ArticleMetadataView {
    ArticleMetadataView {
        title: a.title,
        author: a.author,
        tags: a.tags,
        created_date: a.created_date,
        update_date: a.update_date,
    }
}

impl ArticleMetadata {
    /// Project a full article onto its metadata.
    pub fn of_article(article: &Article) -> (m: ArticleMetadata)
        ensures
            m@ == meta_of(article@),
    {
        ArticleMetadata {
            title: article.title.clone(),
            author: article.author.clone(),
            tags: clone_tags(&article.tags),
            created_date: article.created_date,
            update_date: article.update_date,
        }
    }
}

struct MetaEntry {
    id: String,
    meta: ArticleMetadata,
}

/// The in-memory metadata index of one article status.
pub struct MetadataCache {
    relative_path: String,
    entries: Vec<MetaEntry>,
}

impl View for MetadataCache {
    type V = Seq<(Seq<char>, ArticleMetadataView)>;

    closed spec fn view(&self) -> Seq<(Seq<char>, ArticleMetadataView)> {
        self.entries@.map_values(|e: MetaEntry| (e.id@, e.meta@))
    }
}

impl MetadataCache {
    /// Entries are keyed by pairwise-distinct article ids.
    pub open spec fn wf(self) -> bool {
        keys_unique(self@)
    }

    /// The status directory this cache belongs to.
    pub closed spec fn spec_relative_path(self) -> Seq<char> {
        self.relative_path@
    }

    /// An empty cache rooted at the given status directory.
    pub fn new(relative_path: &str) -> (cache: MetadataCache)
        ensures
            cache.wf(),
            cache@ == Seq::<(Seq<char>, ArticleMetadataView)>::empty(),
            cache.spec_relative_path() == relative_path@,
    {
        let cache = MetadataCache { relative_path: relative_path.to_owned(), entries: Vec::new() };
        proof {
            assert(cache@ =~= Seq::<(Seq<char>, ArticleMetadataView)>::empty());
        }
        cache
    }

    /// The status directory this cache belongs to.
    pub fn relative_path(&self) -> (r: &String)
        ensures
            r@ == self.spec_relative_path(),
    {
        &self.relative_path
    }

    /// Position of the entry for `article_id`, if one exists.
    fn find(&self, article_id: &str) -> (r: Option<usize>)
        ensures
            match r {
                Some(i) => i < self.entries@.len() && self@[i as int].0 == article_id@,
                None => !has_key(self@, article_id@),
            },
    {
        let mut i: usize = 0;
        while i < self.entries.len()
            invariant
                i <= self.entries@.len(),
                forall|j: int| 0 <= j < i ==> #[trigger] self.entries@[j].id@ != article_id@,
            decreases self.entries@.len() - i,
        {
            if str_eq(self.entries[i].id.as_str(), article_id) {
                return Some(i);
            }
            i += 1;
        }
        proof {
            assert forall|j: int| 0 <= j < self@.len() implies crate::keyed::key_at(self@, j)
                != article_id@ by {
                assert(self.entries@[j].id@ != article_id@);
            }
        }
        None
    }

    /// Whether an entry for `article_id` is present.
    pub fn is_cached(&self, article_id: &str) -> (r: bool)
        ensures
            r == has_key(self@, article_id@),
    {
        match self.find(article_id) {
            Some(i) => {
                proof {
                    assert(crate::keyed::key_at(self@, i as int) == article_id@);
                }
                true
            },
            None => false,
        }
    }

    /// The metadata stored for `article_id`.
    pub fn get_metadata(&self, article_id: &str) -> (r: Option<&ArticleMetadata>)
        requires
            self.wf(),
        ensures
            match r {
                Some(m) => has_key(self@, article_id@) && m@ == value_of(self@, article_id@),
                None => !has_key(self@, article_id@),
            },
    {
        match self.find(article_id) {
            Some(i) => {
                proof {
                    crate::keyed::lemma_key_at_lookup(self@, i as int);
                }
                Some(&self.entries[i].meta)
            },
            None => None,
        }
    }

    /// Record (insert or overwrite) the projection of `article` under
    /// `article_id`.
    pub fn set_metadata(&mut self, article_id: &str, article: &Article)
        requires
            old(self).wf(),
        ensures
            final(self).wf(),
            final(self)@ == insert_pair(old(self)@, article_id@, meta_of(article@)),
            final(self).spec_relative_path() == old(self).spec_relative_path(),
    {
        let meta = ArticleMetadata::of_article(article);
        let ghost pre = self@;
        match self.find(article_id) {
            Some(i) => {
                proof {
                    crate::keyed::lemma_key_at_lookup(pre, i as int);
                    crate::keyed::lemma_update(pre, article_id@, meta_of(article@));
                }
                let entry = MetaEntry { id: article_id.to_owned(), meta };
                self.entries.set(i, entry);
                proof {
                    assert(self@ =~= pre.update(
                        key_index(pre, article_id@),
                        (article_id@, meta_of(article@)),
                    ));
                }
            },
            None => {
                proof {
                    crate::keyed::lemma_push(pre, article_id@, meta_of(article@));
                }
                let entry = MetaEntry { id: article_id.to_owned(), meta };
                self.entries.push(entry);
                proof {
                    assert(self@ =~= pre.push((article_id@, meta_of(article@))));
                }
            },
        }
    }

    /// Drop the entry for `article_id`, if one exists.
    pub fn remove_metadata(&mut self, article_id: &str)
        requires
            old(self).wf(),
        ensures
            final(self).wf(),
            final(self)@ == remove_pair(old(self)@, article_id@),
            final(self).spec_relative_path() == old(self).spec_relative_path(),
    {
        let ghost pre = self@;
        match self.find(article_id) {
            Some(i) => {
                proof {
                    crate::keyed::lemma_key_at_lookup(pre, i as int);
                    crate::keyed::lemma_remove(pre, article_id@);
                }
                self.entries.remove(i);
                proof {
                    assert(self@ =~= pre.remove(key_index(pre, article_id@)));
                }
            },
            None => {},
        }
    }
}

} // verus!
