use crate::ids::{PostId, TopicId, UserId};
use crate::timestamp::Timestamp;
use vstd::prelude::*;

verus! {

/// A message in a topic, written by a member. Without a parent it is a
/// top-level post; with one it is a reply to that post.
#[derive(Debug, PartialEq, Eq)]
pub struct Model {
    pub id: PostId,
    pub user_id: UserId,
    pub topic_id: TopicId,
    pub parent_post_id: Option<PostId>,
    pub title: String,
    pub body: String,
    pub created_at: Timestamp,
}

/// A post row as a mathematical value.
pub struct ModelView {
    pub id: PostId,
    pub user_id: UserId,
    pub topic_id: TopicId,
    pub parent_post_id: Option<PostId>,
    pub title: Seq<char>,
    pub body: Seq<char>,
    pub created_at: Timestamp,
}

impl View for Model {
    type V = ModelView;

    open spec fn view(&self) -> ModelView {
        ModelView {
            id: self.id,
            user_id: self.user_id,
            topic_id: self.topic_id,
            parent_post_id: self.parent_post_id,
            title: self.title@,
            body: self.body@,
            created_at: self.created_at,
        }
    }
}

impl Clone for Model {
    fn clone(&self) -> (r: Model)
        ensures
            r@ == self@,
    {
        Model {
            id: self.id,
            user_id: self.user_id,
            topic_id: self.topic_id,
            parent_post_id: self.parent_post_id,
            title: self.title.clone(),
            body: self.body.clone(),
            created_at: self.created_at,
        }
    }
}

impl ModelView {
    /// The row with the given parts replaced; an absent part stays as it is.
    pub open spec fn revised(self, title: Option<Seq<char>>, body: Option<Seq<char>>) -> ModelView {
        ModelView {
            title: match title {
                Some(t) => t,
                None => self.title,
            },
            body: match body {
                Some(b) => b,
                None => self.body,
            },
            ..self
        }
    }
}

/// The view of an optional text.
pub open spec fn text_view(text: Option<String>) -> Option<Seq<char>> {
    match text {
        Some(t) => Some(t@),
        None => None,
    }
}

impl Model {
    /// A new post at the top of a topic.
    pub fn top_level(
        id: PostId,
        user_id: UserId,
        topic_id: TopicId,
        title: String,
        body: String,
        created_at: Timestamp,
    ) -> (r: Model)
        ensures
            r@ == (ModelView {
                id,
                user_id,
                topic_id,
                parent_post_id: None,
                title: title@,
                body: body@,
                created_at,
            }),
    {
        Model { id, user_id, topic_id, parent_post_id: None, title, body, created_at }
    }

    /// A new reply to `parent`. The reply lies in the topic of its parent,
    /// whatever that is: this is what keeps a whole thread in one topic.
    pub fn reply_to(
        parent: &Model,
        id: PostId,
        user_id: UserId,
        title: String,
        body: String,
        created_at: Timestamp,
    ) -> (r: Model)
        ensures
            r@ == (ModelView {
                id,
                user_id,
                topic_id: parent.topic_id,
                parent_post_id: Some(parent.id),
                title: title@,
                body: body@,
                created_at,
            }),
    {
        Model {
            id,
            user_id,
            topic_id: parent.topic_id,
            parent_post_id: Some(parent.id),
            title,
            body,
            created_at,
        }
    }

    /// The post with a new title, a new body, both or neither.
    pub fn revised(self, title: Option<String>, body: Option<String>) -> (r: Model)
        ensures
            r@ == self@.revised(text_view(title), text_view(body)),
    {
        let new_title = match title {
            Some(t) => t,
            None => self.title,
        };
        let new_body = match body {
            Some(b) => b,
            None => self.body,
        };
        Model {
            id: self.id,
            user_id: self.user_id,
            topic_id: self.topic_id,
            parent_post_id: self.parent_post_id,
            title: new_title,
            body: new_body,
            created_at: self.created_at,
        }
    }

    pub fn is_top_level(&self) -> (r: bool)
        ensures
            r == (self.parent_post_id is None),
    {
        self.parent_post_id.is_none()
    }

    pub fn is_by(&self, user_id: UserId) -> (r: bool)
        ensures
            r == (self.user_id == user_id),
    {
        self.user_id == user_id
    }
}

} // verus!
