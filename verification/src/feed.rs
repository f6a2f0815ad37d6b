//! The syndication feed: feed-level fields from the configuration, one
//! entry per publishable post.

use vstd::prelude::*;
use crate::blog::PublishableBlogPost;
use crate::config::BlogConfiguration;
use crate::date::{date_rfc3339_chars, push_date_rfc3339, push_rfc3339, rfc3339_chars, Timestamp};
use crate::text::{chars_to_string, push_str_chars};

verus! {

/// One feed entry; `updated` is the post's date as an RFC 3339 timestamp
/// with the time of day zeroed.
#[derive(Debug)]
pub struct FeedEntry {
    pub id: String,
    pub title: String,
    pub content: String,
    pub author: String,
    pub updated: String,
    pub link: String,
}

/// The feed: site-level fields plus one entry per post; `updated` is the
/// injected build timestamp in RFC 3339 form.
#[derive(Debug)]
pub struct Feed {
    pub title: String,
    pub link: String,
    pub author: String,
    pub updated: String,
    pub entries: Vec<FeedEntry>,
}

/// The absolute URL of a post: the base URL, a slash, the file name.
pub open spec fn post_url_chars(base_url: Seq<char>, filename: Seq<char>) -> Seq<char> {
    base_url + "/"@ + filename
}

/// How a feed entry relates to the post and configuration it was made of.
pub open spec fn entry_matches(e: FeedEntry, p: PublishableBlogPost, c: BlogConfiguration) -> bool {
    &&& e.id@ == post_url_chars(c.base_url@, p.output_filename@)
    &&& e.link@ == post_url_chars(c.base_url@, p.output_filename@)
    &&& e.title == p.post.metadata.title
    &&& e.author == c.author
    &&& e.content == p.rendered_html
    &&& e.updated@ == date_rfc3339_chars(p.post.metadata.date)
}

fn to_entry(post: &PublishableBlogPost, config: &BlogConfiguration) -> (r: FeedEntry)
    ensures
        entry_matches(r, *post, *config),
{
    let mut url_chars: Vec<char> = Vec::new();
    push_str_chars(config.base_url.as_str(), &mut url_chars);
    push_str_chars("/", &mut url_chars);
    push_str_chars(post.output_filename.as_str(), &mut url_chars);
    let url = chars_to_string(&url_chars);
    let mut updated_chars: Vec<char> = Vec::new();
    push_date_rfc3339(&post.post.metadata.date, &mut updated_chars);
    FeedEntry {
        id: url.clone(),
        title: post.post.metadata.title.clone(),
        author: config.author.clone(),
        content: post.rendered_html.clone(),
        updated: chars_to_string(&updated_chars),
        link: url,
    }
}

/// Builds the feed for the publish list: feed-level fields from the
/// configuration and the injected build time, one entry per post, in the
/// posts' order.
pub fn build_feed(posts: &Vec<PublishableBlogPost>, config: &BlogConfiguration, now: &Timestamp) -> (r:
    Feed)
    ensures
        r.title == config.blog_title,
        r.link == config.base_url,
        r.author == config.author,
        r.updated@ == rfc3339_chars(*now),
        r.entries@.len() == posts@.len(),
        forall|i: int|
            0 <= i < posts@.len() ==> entry_matches(#[trigger] r.entries@[i], posts@[i], *config),
{
    let mut entries: Vec<FeedEntry> = Vec::new();
    let mut i: usize = 0;
    while i < posts.len()
        invariant
            0 <= i <= posts@.len(),
            entries@.len() == i,
            forall|j: int|
                0 <= j < i ==> entry_matches(#[trigger] entries@[j], posts@[j], *config),
        decreases posts@.len() - i,
    {
        let e = to_entry(&posts[i], config);
        entries.push(e);
        i = i + 1;
    }
    let mut updated_chars: Vec<char> = Vec::new();
    push_rfc3339(now, &mut updated_chars);
    Feed {
        author: config.author.clone(),
        title: config.blog_title.clone(),
        link: config.base_url.clone(),
        updated: chars_to_string(&updated_chars),
        entries,
    }
}

} // verus!
