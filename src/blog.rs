//! The posts that the site's front page lists, ten to a page.
use vstd::prelude::*;
use vstd::slice::slice_subrange;
use crate::models::BlogPost;

verus! {

/// How many posts a page of the front page lists.
pub const PAGE_SIZE: usize = 10;

/// The posts of the site, each with its key in the database.
pub struct Blog {
    posts: Vec<(String, BlogPost)>,
}

/// The range of posts that page `page` (from 1) lists out of `size`, or
/// `None` where the page lies past the posts.
pub open spec fn page_range(size: nat, page: nat) -> Option<(nat, nat)> {
    if page == 0 || size < (page - 1) * 10 {
        None
    } else {
        Some((((page - 1) * 10) as nat, if size < page * 10 { size } else { page * 10 }))
    }
}

impl Blog {
    /// The posts of the blog, in the order given.
    pub closed spec fn posts(&self) -> Seq<(String, BlogPost)> {
        self.posts@
    }

    /// A blog of the given posts.
    pub fn new(posts: Vec<(String, BlogPost)>) -> (r: Blog)
        ensures
            r.posts() == posts@,
    {
        Blog { posts }
    }

    /// The posts from position `from` up to `to`.
    pub fn take_articles(&self, from: usize, to: usize) -> (r: &[(String, BlogPost)])
        requires
            from <= to <= self.posts().len(),
        ensures
            r@ == self.posts().subrange(from as int, to as int),
    {
        slice_subrange(self.posts.as_slice(), from, to)
    }

    /// The number of posts.
    pub fn size(&self) -> (r: usize)
        ensures
            r == self.posts().len(),
    {
        self.posts.len()
    }

    /// The bounds of page `page` (from 1): ten posts, fewer on the last page;
    /// `None` for page 0 and for a page past the posts.
    pub fn page_bounds(&self, page: usize) -> (r: Option<(usize, usize)>)
        ensures
            r matches Some((a, b)) ==> page_range(self.posts().len(), page as nat) == Some((a as nat, b as nat)),
            r is None <==> page_range(self.posts().len(), page as nat) is None,
    {
        let size = self.posts.len();
        if page == 0 {
            return None;
        }
        let start_page = page - 1;
        if start_page > size / PAGE_SIZE {
            assert(size < start_page * 10) by (nonlinear_arith)
                requires start_page > size / 10;
            return None;
        }
        assert(start_page * 10 <= size) by (nonlinear_arith)
            requires start_page <= size / 10;
        let start = start_page * PAGE_SIZE;
        let end = if size - start < PAGE_SIZE { size } else { start + PAGE_SIZE };
        assert(page * 10 == start + 10) by (nonlinear_arith)
            requires start == start_page * 10, page == start_page + 1;
        Some((start, end))
    }
}

} // verus!
