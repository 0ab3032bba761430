//! The canonical article document.
//!
//! An article is a plain record: title, author, body text, ordered tags,
//! and two timestamps.  The article's identifier is not part of the
//! record; it is the key under which the stores file the record.

use vstd::prelude::*;

verus! {

/// The mathematical shape of an article: every field as a sequence or an
/// unbounded integer.
pub struct ArticleView {
    pub title: Seq<char>,
    pub author: Seq<char>,
    pub data: Seq<char>,
    pub tags: Seq<Seq<char>>,
    pub created_date: int,
    pub update_date: int,
}

/// A full article document.
pub struct Article {
    pub title: String,
    pub author: String,
    /// The free-form body content.
    pub data: String,
    pub tags: Vec<String>,
    pub created_date: crate::Timestamp,
    pub update_date: crate::Timestamp,
}

impl View for Article {
    type V = ArticleView;

    open spec fn view(&self) -> ArticleView {
        ArticleView {
            title: self.title@,
            author: self.author@,
            data: self.data@,
            tags: self.tags.deep_view(),
            created_date: self.created_date as int,
            update_date: self.update_date as int,
        }
    }
}

/// Copy a tag list, keeping the character sequences.
pub fn clone_tags(tags: &Vec<String>) -> (r: Vec<String>)
    ensures
        r.deep_view() == tags.deep_view(),
{
    let mut r: Vec<String> = Vec::new();
    let mut i: usize = 0;
    while i < tags.len()
        invariant
            i <= tags.len(),
            r@.len() == i,
            forall|j: int| 0 <= j < i ==> (#[trigger] r@[j])@ == tags@[j]@,
        decreases tags.len() - i,
    {
        r.push(tags[i].clone());
        i += 1;
    }
    proof {
        assert forall|j: int| 0 <= j < r.deep_view().len() implies r.deep_view()[j]
            == tags.deep_view()[j] by {
            assert(r@[j]@ == tags@[j]@);
        }
        assert(r.deep_view() =~= tags.deep_view());
    }
    r
}

impl Clone for Article {
    fn clone(&self) -> (r: Self)
        ensures
            r@ == self@,
    {
        Article {
            title: self.title.clone(),
            author: self.author.clone(),
            data: self.data.clone(),
            tags: clone_tags(&self.tags),
            created_date: self.created_date,
            update_date: self.update_date,
        }
    }
}

} // verus!
