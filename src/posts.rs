//! Posts: their fields, the checks that guard creation, partial updates,
//! and the paging window of the listing.

use vstd::prelude::*;
use crate::errors::ServiceError;

verus! {

/// Rows per page of the listing.
pub const PAGE_SIZE: i64 = 12;

/// The highest page whose offset still fits in an `i64`; later pages are
/// read as this one (all of them lie far past any stored row).
pub const LAST_PAGE: i64 = 768614336404564651;

/// A moment without time zone: whole seconds since 1970-01-01T00:00:00 and
/// the nanoseconds past that second.
#[derive(Debug, Clone, Copy, PartialEq, Eq)]
pub struct Timestamp {
    pub secs: i64,
    pub nanos: u32,
}

/// A stored post; `id` and `created_at` are assigned by the store.
#[derive(Debug, Clone, PartialEq, Eq)]
pub struct Post {
    pub id: i32,
    pub title: String,
    pub description: String,
    pub body: String,
    pub tags: Vec<String>,
    pub thumbnail: String,
    pub thumbnail_blur: Option<String>,
    pub created_at: Timestamp,
}

/// The fields a client supplies to create a post.
#[derive(Debug, Clone, PartialEq, Eq)]
pub struct CreatePost {
    pub title: String,
    pub description: String,
    pub body: String,
    pub tags: Vec<String>,
    pub thumbnail: String,
    pub thumbnail_blur: Option<String>,
}

/// A partial update: an absent field keeps its stored value.
#[derive(Debug, Clone, PartialEq, Eq)]
pub struct UpdatePost {
    pub title: Option<String>,
    pub body: Option<String>,
    pub description: Option<String>,
}

/// One page of the listing with the number of all stored posts.
#[derive(Debug, Clone, PartialEq, Eq)]
pub struct PostListResponse {
    pub total_count: i64,
    pub posts: Vec<Post>,
}

/// The rows a listing reads: `limit` rows after skipping `offset`.
#[derive(Debug, Clone, Copy, PartialEq, Eq)]
pub struct PageWindow {
    pub limit: i64,
    pub offset: i64,
}

#[derive(Debug, Clone, PartialEq, Eq)]
pub struct BlurRequest {
    pub url: String,
}

#[derive(Debug, Clone, PartialEq, Eq)]
pub struct BlurResponse {
    pub data_url: String,
}

/// The page a request asks for: absent or below one reads as the first.
pub open spec fn effective_page(page: Option<i64>) -> int {
    match page {
        None => 1,
        Some(p) => if p < 1 {
            1
        } else if p > LAST_PAGE {
            LAST_PAGE as int
        } else {
            p as int
        },
    }
}

/// Unicode `White_Space`, the set that `char::is_whitespace` and `str::trim` use.
pub open spec fn is_white_space(c: char) -> bool {
    let u = c as u32;
    (0x9 <= u && u <= 0xD) || u == 0x20 || u == 0x85 || u == 0xA0 || u == 0x1680 || (0x2000 <= u
        && u <= 0x200A) || u == 0x2028 || u == 0x2029 || u == 0x202F || u == 0x205F || u == 0x3000
}

/// Empty once surrounding whitespace is trimmed.
pub open spec fn is_blank(s: Seq<char>) -> bool {
    forall|i: int| 0 <= i < s.len() ==> is_white_space(#[trigger] s[i])
}

pub open spec fn title_missing() -> Seq<char> {
    "제목을 입력해주세요"@
}

pub open spec fn body_missing() -> Seq<char> {
    "본문을 입력해주세요"@
}

pub open spec fn thumbnail_missing() -> Seq<char> {
    "대표 이미지를 설정해주세요"@
}

/// The paging window: `PAGE_SIZE` rows from `(page - 1) * PAGE_SIZE` on.
pub fn page_window(page: Option<i64>) -> (r: PageWindow)
    ensures
        r.limit == PAGE_SIZE,
        r.offset == (effective_page(page) - 1) * PAGE_SIZE,
        page matches Some(p) ==> (1 <= p <= LAST_PAGE ==> r.offset == (p - 1) * PAGE_SIZE),
        (page is None || page->Some_0 <= 0) ==> r == page_window_first(),
{
    let p: i64 = match page {
        None => 1,
        Some(p) => if p < 1 {
            1
        } else if p > LAST_PAGE {
            LAST_PAGE
        } else {
            p
        },
    };
    PageWindow { limit: PAGE_SIZE, offset: (p - 1) * PAGE_SIZE }
}

/// The window of the first page.
pub open spec fn page_window_first() -> PageWindow {
    PageWindow { limit: PAGE_SIZE, offset: 0 }
}

/// Relies on `char::is_whitespace`: true exactly on Unicode `White_Space`.
#[verifier::external_body]
fn is_whitespace(c: char) -> (r: bool)
    ensures
        r == is_white_space(c),
{
    c.is_whitespace()
}

/// Whether `s` holds nothing but whitespace.
pub fn blank(s: &str) -> (r: bool)
    ensures
        r == is_blank(s@),
{
    let n = s.unicode_len();
    let mut i: usize = 0;
    while i < n
        invariant
            n == s@.len(),
            i <= n,
            forall|j: int| 0 <= j < i ==> is_white_space(#[trigger] s@[j]),
        decreases n - i,
    {
        if !is_whitespace(s.get_char(i)) {
            return false;
        }
        i = i + 1;
    }
    true
}

impl CreatePost {
    /// The checks made before any write: title, body and thumbnail must each
    /// hold more than whitespace, tested in that order.
    pub fn validate(&self) -> (r: Result<(), ServiceError>)
        ensures
            is_blank(self.title@) ==> (r matches Err(ServiceError::BadRequest(m)) && m@
                == title_missing()),
            !is_blank(self.title@) && is_blank(self.body@) ==> (r matches Err(
                ServiceError::BadRequest(m),
            ) && m@ == body_missing()),
            !is_blank(self.title@) && !is_blank(self.body@) && is_blank(self.thumbnail@) ==> (
            r matches Err(ServiceError::BadRequest(m)) && m@ == thumbnail_missing()),
            r is Ok <==> (!is_blank(self.title@) && !is_blank(self.body@) && !is_blank(
                self.thumbnail@,
            )),
    {
        if blank(self.title.as_str()) {
            return Err(ServiceError::BadRequest(String::from_str("제목을 입력해주세요")));
        }
        if blank(self.body.as_str()) {
            return Err(ServiceError::BadRequest(String::from_str("본문을 입력해주세요")));
        }
        if blank(self.thumbnail.as_str()) {
            return Err(ServiceError::BadRequest(String::from_str("대표 이미지를 설정해주세요")));
        }
        Ok(())
    }
}

/// The value a field takes under a partial update.
pub open spec fn coalesce(update: Option<String>, current: String) -> String {
    match update {
        Some(v) => v,
        None => current,
    }
}

impl UpdatePost {
    pub open spec fn is_empty(&self) -> bool {
        self.title is None && self.body is None && self.description is None
    }

    /// Applies the update to a stored post: each present field replaces the
    /// stored one, every other field is kept.
    pub fn apply(self, post: Post) -> (r: Post)
        ensures
            r.title == coalesce(self.title, post.title),
            r.body == coalesce(self.body, post.body),
            r.description == coalesce(self.description, post.description),
            r.id == post.id,
            r.tags == post.tags,
            r.thumbnail == post.thumbnail,
            r.thumbnail_blur == post.thumbnail_blur,
            r.created_at == post.created_at,
            self.is_empty() ==> r == post,
    {
        let Post { id, title, description, body, tags, thumbnail, thumbnail_blur, created_at } =
            post;
        let title = match self.title {
            Some(t) => t,
            None => title,
        };
        let body = match self.body {
            Some(b) => b,
            None => body,
        };
        let description = match self.description {
            Some(d) => d,
            None => description,
        };
        Post { id, title, description, body, tags, thumbnail, thumbnail_blur, created_at }
    }
}

/// The outcome of a lookup by id: the row, or `NotFound`.
pub fn found_or_not(row: Option<Post>) -> (r: Result<Post, ServiceError>)
    ensures
        row matches Some(p) ==> r == Ok::<Post, ServiceError>(p),
        row is None ==> r == Err::<Post, ServiceError>(ServiceError::NotFound),
{
    match row {
        Some(p) => Ok(p),
        None => Err(ServiceError::NotFound),
    }
}

/// The outcome of a delete from the store's answer: success whether or not
/// a row matched (an absent id is no error); a failed statement is an
/// internal error.
pub fn delete_outcome(affected: Result<u64, String>) -> (r: Result<(), ServiceError>)
    ensures
        r is Ok <==> affected is Ok,
        affected matches Err(t) ==> (r matches Err(ServiceError::InternalServerError(m)) && m@
            == t@),
{
    match affected {
        Ok(_) => Ok(()),
        Err(t) => Err(ServiceError::InternalServerError(t)),
    }
}

} // verus!
