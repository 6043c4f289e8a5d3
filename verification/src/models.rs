//! The rows of the table of posts.

use vstd::prelude::*;

verus! {

/// A post as the table holds it.
#[derive(Debug)]
pub struct Post {
    pub id: i32,
    pub title: String,
    pub body: String,
}

/// A post on its way into the table, which gives it its `id`.
pub struct NewPost<'a> {
    pub title: &'a str,
    pub body: &'a str,
}

/// What a stored post says: its number and its two texts.
pub struct PostView {
    pub id: int,
    pub title: Seq<char>,
    pub body: Seq<char>,
}

/// What a post says before it is stored: its two texts.
pub struct NewPostView {
    pub title: Seq<char>,
    pub body: Seq<char>,
}

impl View for Post {
    type V = PostView;

    open spec fn view(&self) -> PostView {
        PostView { id: self.id as int, title: self.title@, body: self.body@ }
    }
}

impl<'a> View for NewPost<'a> {
    type V = NewPostView;

    open spec fn view(&self) -> NewPostView {
        NewPostView { title: self.title@, body: self.body@ }
    }
}

} // verus!
