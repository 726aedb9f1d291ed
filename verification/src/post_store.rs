//! The sequence store of posts: an ordered collection that is replaced as
//! a whole and queried for the posts most similar to a query.
//!
//! The store is an ordinary owned value. Writers take it by `&mut`, readers
//! by `&`, so one writer excludes every reader and readers share.

use vstd::prelude::*;
use crate::error::Error;
use crate::post::{do_find_similar_posts_native_parallel, is_post_answer, FindTopNResult, PostData};

verus! {

/// A store of posts, in the order in which they were loaded.
pub struct PostStore {
    posts: Vec<PostData>,
}

impl View for PostStore {
    type V = Seq<PostData>;

    closed spec fn view(&self) -> Seq<PostData> {
        self.posts@
    }
}

impl PostStore {
    /// Creates an empty store.
    pub fn new() -> (store: Self)
        ensures
            store@ == Seq::<PostData>::empty(),
    {
        PostStore { posts: Vec::new() }
    }

    /// Replaces the whole content of the store by `posts`, as they are:
    /// no post is looked at or left out.
    pub fn preload(&mut self, posts: Vec<PostData>)
        ensures
            final(self)@ == posts@,
    {
        self.posts = posts;
    }

    /// Finds the posts of the store most similar to `source`: the `top_n`
    /// best matches, best first. A query without any character is
    /// refused.
    pub fn find_similar_posts(&self, source: PostData, top_n: u32) -> (found: Result<
        FindTopNResult,
        Error,
    >)
        ensures
            found is Err <==> source@.char_mass() == 0,
            found is Err ==> found == Err::<FindTopNResult, Error>(Error::InvalidQuery),
            found is Ok ==> is_post_answer(source@, self@, top_n as nat, found->Ok_0.matches@),
            found is Ok ==> found->Ok_0.process_time >= 0,
    {
        do_find_similar_posts_native_parallel(&source, &self.posts, top_n)
    }

    /// The posts of the store, in their order.
    pub fn posts(&self) -> (posts: &Vec<PostData>)
        ensures
            posts@ == self@,
    {
        &self.posts
    }
}

/// A query that was submitted and is yet to run. It holds the query and
/// the number of matches wanted; the store is read when the query runs,
/// so it sees what was written until then.
pub struct AsyncFindSimilarPosts {
    source: PostData,
    top_n: u32,
}

impl AsyncFindSimilarPosts {
    /// The query that was submitted.
    pub closed spec fn source(&self) -> PostData {
        self.source
    }

    /// The number of matches wanted.
    pub closed spec fn top_n(&self) -> u32 {
        self.top_n
    }

    /// Submits a query.
    pub fn new(source: PostData, top_n: u32) -> (task: Self)
        ensures
            task.source() == source,
            task.top_n() == top_n,
    {
        AsyncFindSimilarPosts { source, top_n }
    }

    /// Runs the query on the store as it is now. The task stays as it
    /// was.
    pub fn compute(&mut self, posts: &PostStore) -> (found: Result<FindTopNResult, Error>)
        ensures
            *final(self) == *old(self),
            found is Err <==> old(self).source()@.char_mass() == 0,
            found is Err ==> found == Err::<FindTopNResult, Error>(Error::InvalidQuery),
            found is Ok ==> is_post_answer(
                old(self).source()@,
                posts@,
                old(self).top_n() as nat,
                found->Ok_0.matches@,
            ),
            found is Ok ==> found->Ok_0.process_time >= 0,
    {
        do_find_similar_posts_native_parallel(&self.source, posts.posts(), self.top_n)
    }
}

} // verus!
