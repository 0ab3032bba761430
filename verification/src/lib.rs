//! The core of a small self-hosted publishing backend: the article
//! lifecycle (draft and published lists with their metadata caches)
//! and the identity store (users, password checks, login sessions).
//!
//! The crate holds the state machine and its rules; reading and
//! writing the backing files, and the HTTP layer around it all, live
//! with the embedding application.

use vstd::prelude::*;

pub mod article;
pub mod articles_manager;
pub mod clock;
pub mod helpers;
pub mod identity_manager;
pub mod keyed;
pub mod metadata_cache;
pub mod requests;

verus! {

/// A moment in time, in milliseconds since the Unix epoch.
pub type Timestamp = i64;

/// The whole application state: identity on one side, articles on the
/// other.
pub struct RPublishApp {
    pub identity_manager: identity_manager::IdentityManager,
    pub articles_manager: articles_manager::ArticlesManager,
}

impl RPublishApp {
    /// Both managers well-formed.
    pub open spec fn wf(self) -> bool {
        self.identity_manager.wf() && self.articles_manager.wf()
    }

    /// A fresh, empty application state.  Sessions are bound to the
    /// client address they were created from.
    pub fn default() -> (app: RPublishApp)
        ensures
            app.wf(),
            app.identity_manager.users@ == Seq::<identity_manager::UserView>::empty(),
            app.identity_manager.sessions@ == Seq::<
                (Seq<char>, identity_manager::SessionView),
            >::empty(),
            app.identity_manager.sessions.spec_binds_address(),
            app.articles_manager.drafts() == Seq::<
                (Seq<char>, article::ArticleView),
            >::empty(),
            app.articles_manager.published() == Seq::<
                (Seq<char>, article::ArticleView),
            >::empty(),
    {
        RPublishApp {
            identity_manager: identity_manager::IdentityManager::new(true),
            articles_manager: articles_manager::ArticlesManager::new(),
        }
    }
}

} // verus!
