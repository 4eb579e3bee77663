//! A post: its id, the names of its files, and the contents that rendering,
//! publishing, updating and deleting it produce.
use vstd::prelude::*;
use crate::config::Classes;
use crate::date::Date;
use crate::index::{insert_entry, insert_spec, remove_entry, remove_spec};
use crate::markdown::html_of;
use crate::template::{compose_spec, header, publish_page, render_page, TITLE_TOKEN};
use crate::text::{chars_of, decimal, push_all, push_decimal, replace_all, string_of};

verus! {

/// `post-{id}.md`, the markdown of a post in the source directory.
pub open spec fn markdown_name(id: nat) -> Seq<char> {
    "post-"@ + decimal(id) + ".md"@
}

/// `.post-{id}`, the title and description of a post in the source directory.
pub open spec fn info_name(id: nat) -> Seq<char> {
    ".post-"@ + decimal(id)
}

/// `posts/post-{id}.html`, the page of a post in the site directory.
pub open spec fn page_name(id: nat) -> Seq<char> {
    "posts/post-"@ + decimal(id) + ".html"@
}

/// A post and the names of its files, relative to the source directory
/// (markdown and info) and to the site directory (page).
pub struct Post {
    pub post_id: usize,
    pub post_path: String,
    pub post_info_path: String,
    pub page_path: String,
}

/// A published page and the index that links to it.
pub struct Publication {
    pub page: String,
    pub index: String,
}

/// A file to write: its name relative to the site directory, and its content.
pub struct PageWrite {
    pub path: String,
    pub content: String,
}

/// A page to remove, and the index without its entry.
pub struct Removal {
    pub path: String,
    pub index: String,
}

impl Post {
    /// The file names belong to the post's id.
    pub open spec fn wf(&self) -> bool {
        &&& self.post_path@ == markdown_name(self.post_id as nat)
        &&& self.post_info_path@ == info_name(self.post_id as nat)
        &&& self.page_path@ == page_name(self.post_id as nat)
    }

    /// The post with id `post_id`.
    pub fn new(post_id: usize) -> (r: Post)
        ensures
            r.post_id == post_id,
            r.wf(),
    {
        let mut post_path = chars_of("post-");
        push_decimal(&mut post_path, post_id as u64);
        push_all(&mut post_path, &chars_of(".md"));
        let mut post_info_path = chars_of(".post-");
        push_decimal(&mut post_info_path, post_id as u64);
        let mut page_path = chars_of("posts/post-");
        push_decimal(&mut page_path, post_id as u64);
        push_all(&mut page_path, &chars_of(".html"));
        Post {
            post_id,
            post_path: string_of(&post_path),
            post_info_path: string_of(&post_info_path),
            page_path: string_of(&page_path),
        }
    }

    /// The number of posts in a source directory that holds `artifacts` files,
    /// two for each post.
    pub fn count_posts(artifacts: usize) -> (r: usize)
        ensures
            r == artifacts / 2,
    {
        artifacts / 2
    }

    /// The ready page of the post: its markdown rendered into the template.
    pub fn ready(&self, template: &str, markdown: &str, title: &str, date: Date) -> (r: String)
        ensures
            r@ == compose_spec(template@, title@, date, html_of(markdown@)),
    {
        render_page(template, markdown, title, date)
    }

    /// The page of the post rendered again, to replace the published one.
    pub fn update(&self, template: &str, markdown: &str, title: &str, date: Date) -> (r: String)
        ensures
            r@ == compose_spec(template@, title@, date, html_of(markdown@)),
    {
        render_page(template, markdown, title, date)
    }

    /// The published page (any title placeholder left in the ready page
    /// filled) and the index with the post's entry after each marker line.
    pub fn publish(
        &self,
        ready_page: &str,
        index: &str,
        title: &str,
        description: &str,
        date: Date,
        classes: &Classes,
    ) -> (r: Publication)
        ensures
            r.page@ == replace_all(ready_page@, TITLE_TOKEN@, header(date, title@)),
            r.index@ == insert_spec(
                index@,
                self.post_id as nat,
                title@,
                description@,
                date,
                classes.title_text_main@,
                classes.description_text_main@,
            ),
    {
        Publication {
            page: publish_page(ready_page, title, date),
            index: insert_entry(index, self.post_id, title, description, date, classes),
        }
    }

    /// The index without the post's entries.
    pub fn delete(&self, index: &str) -> (r: String)
        ensures
            r@ == remove_spec(index@, self.post_id as nat),
    {
        remove_entry(index, self.post_id)
    }
}

/// Renders post `post_id` again: the page to overwrite and its new content.
pub fn update(post_id: usize, template: &str, markdown: &str, title: &str, date: Date) -> (r: PageWrite)
    ensures
        r.path@ == page_name(post_id as nat),
        r.content@ == compose_spec(template@, title@, date, html_of(markdown@)),
{
    let post = Post::new(post_id);
    let content = post.update(template, markdown, title, date);
    PageWrite { path: post.page_path, content }
}

/// Deletes post `post_id` from the site: the page to remove and the index
/// without the post's entries.
pub fn delete(post_id: usize, index: &str) -> (r: Removal)
    ensures
        r.path@ == page_name(post_id as nat),
        r.index@ == remove_spec(index@, post_id as nat),
{
    let post = Post::new(post_id);
    let index = post.delete(index);
    Removal { path: post.page_path, index }
}

} // verus!
