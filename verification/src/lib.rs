//! Client core for a paginated, JSON-over-HTTPS blog API.
//!
//! The library builds request URIs from typed parameters, decodes the API's
//! JSON response envelope into typed payloads, and drives pagination through
//! an unbounded result set. Network I/O itself is left to the caller: every
//! function here is a pure computation from bytes and values to values.

pub mod json;
pub mod pagination;
pub mod photos;
pub mod response;
pub mod uri;

pub use crate::photos::{Photo, Post, Posts};

use vstd::prelude::*;

verus! {

/// The error taxonomy of the client.
#[derive(Debug, PartialEq, Eq, Clone)]
pub enum Error {
    /// URI assembly failed from malformed inputs (empty identifier or a
    /// segment holding a byte that has no place in a URI path).
    InvalidUri,
    /// The underlying network transport failed; the opaque diagnostic bytes
    /// from the transport are preserved. The library itself never constructs
    /// this variant: the caller wraps its transport failures in it.
    Transport(Vec<u8>),
    /// The response bytes are not a well-formed JSON envelope of the expected
    /// shape.
    Decode,
    /// The envelope decoded, but the API reported a non-success status; the
    /// bytes are the API's own diagnostic message.
    Api(Vec<u8>),
}

/// How many posts one page request asks for, unless a client configures
/// its own size.
pub const MAX_PAGE_SIZE: usize = 20;

/// The decimal digits of a number, most significant first.
pub open spec fn dec_str(n: nat) -> Seq<u8>
    decreases n,
{
    if n < 10 {
        seq![(48 + n) as u8]
    } else {
        dec_str(n / 10).push((48 + n % 10) as u8)
    }
}

fn usize_dec(n: usize) -> (r: Vec<u8>)
    ensures
        r@ == dec_str(n as nat),
    decreases n,
{
    if n < 10 {
        let v: Vec<u8> = vec![48 + n as u8];
        proof {
            assert(v@ =~= dec_str(n as nat));
        }
        v
    } else {
        let mut v = usize_dec(n / 10);
        v.push(48 + (n % 10) as u8);
        v
    }
}

fn clone_bytes(v: &Vec<u8>) -> (r: Vec<u8>)
    ensures
        r@ == v@,
{
    let mut out: Vec<u8> = Vec::new();
    let mut i: usize = 0;
    while i < v.len()
        invariant
            i <= v.len(),
            out@ == v@.subrange(0, i as int),
        decreases v.len() - i,
    {
        out.push(v[i]);
        proof {
            assert(out@ =~= v@.subrange(0, i + 1));
        }
        i = i + 1;
    }
    proof {
        assert(v@.subrange(0, v@.len() as int) =~= v@);
    }
    out
}

/// The path segment `posts`.
pub open spec fn posts_seg() -> Seq<u8> {
    seq![112u8, 111u8, 115u8, 116u8, 115u8]
}

/// The path segment `photo`.
pub open spec fn photo_seg() -> Seq<u8> {
    seq![112u8, 104u8, 111u8, 116u8, 111u8]
}

/// The parameter name `limit`.
pub open spec fn limit_name() -> Seq<u8> {
    seq![108u8, 105u8, 109u8, 105u8, 116u8]
}

/// The parameter name `offset`.
pub open spec fn offset_name() -> Seq<u8> {
    seq![111u8, 102u8, 102u8, 115u8, 101u8, 116u8]
}

/// The resource path of photo posts, `posts/photo`.
pub open spec fn photo_posts_path() -> Seq<Seq<u8>> {
    seq![posts_seg(), photo_seg()]
}

/// The query of a total-count request: the key, and a page of one.
pub open spec fn count_params(key: Seq<u8>) -> Seq<(Seq<u8>, Seq<u8>)> {
    seq![(uri::api_key_name(), key), (limit_name(), seq![49u8])]
}

/// The query of a page request: the key, the page size, and the offset.
pub open spec fn page_params(key: Seq<u8>, limit: usize, offset: usize) -> Seq<(Seq<u8>, Seq<u8>)> {
    seq![
        (uri::api_key_name(), key),
        (limit_name(), dec_str(limit as nat)),
        (offset_name(), dec_str(offset as nat)),
    ]
}

fn posts_photo_path() -> (r: uri::UriPath)
    ensures
        r.segs() == photo_posts_path(),
        r.wf(),
{
    let mut p = uri::UriPath::new();
    let s1: Vec<u8> = vec![112u8, 111u8, 115u8, 116u8, 115u8];
    proof {
        assert(s1@ =~= posts_seg());
        assert(uri::seg_ok(posts_seg()));
    }
    p.push(s1);
    let s2: Vec<u8> = vec![112u8, 104u8, 111u8, 116u8, 111u8];
    proof {
        assert(s2@ =~= photo_seg());
        assert(uri::seg_ok(photo_seg()));
    }
    p.push(s2);
    proof {
        assert(p.segs() =~= photo_posts_path());
    }
    p
}

/// The client's state: its credentials, which live for its lifetime, and
/// its page size, configuration with a default. The transport that carries
/// a request is the caller's collaborator; the client builds each request's
/// URI and decodes each response's bytes.
pub struct Blog {
    pub api_key: Vec<u8>,
    pub blog_identifier: Vec<u8>,
    /// How many posts one page request asks for.
    pub page_size: usize,
}

impl Blog {
    /// A client for one blog, holding the credentials for its lifetime and
    /// asking for pages of the default size.
    pub fn new(api_key: Vec<u8>, blog_identifier: Vec<u8>) -> (r: Blog)
        ensures
            r.api_key@ == api_key@,
            r.blog_identifier@ == blog_identifier@,
            r.page_size == MAX_PAGE_SIZE,
    {
        Blog { api_key, blog_identifier, page_size: MAX_PAGE_SIZE }
    }

    /// Configure how many posts one page request asks for.
    pub fn set_page_size(&mut self, page_size: usize)
        ensures
            final(self).page_size == page_size,
            final(self).api_key@ == old(self).api_key@,
            final(self).blog_identifier@ == old(self).blog_identifier@,
    {
        self.page_size = page_size;
    }

    /// The URI that asks for the total count of photo posts: the photo-posts
    /// resource with a page of one.
    pub fn post_count_uri(&self) -> (r: Result<Vec<u8>, Error>)
        ensures
            self.blog_identifier@.len() > 0 ==> (r matches Ok(u) && u@ == uri::uri_of(
                self.blog_identifier@,
                photo_posts_path(),
                count_params(self.api_key@),
            )),
            self.blog_identifier@.len() == 0 ==> (r matches Err(e) && e == Error::InvalidUri),
    {
        let path = posts_photo_path();
        let mut params = uri::QueryParameters::new(clone_bytes(&self.api_key));
        let ln: Vec<u8> = vec![108u8, 105u8, 109u8, 105u8, 116u8];
        proof {
            assert(ln@ =~= limit_name());
            assert(uri::seg_ok(limit_name()));
            assert(limit_name() != uri::api_key_name());
        }
        let one: Vec<u8> = vec![49u8];
        proof {
            assert(one@ =~= seq![49u8]);
        }
        params.push(ln, one);
        proof {
            assert(params.pairs() =~= count_params(self.api_key@));
        }
        uri::tumblr_uri(&self.blog_identifier, &path, &params)
    }

    /// The URI that asks for one page of photo posts, `page_size` posts
    /// starting at `offset`.
    pub fn posts_page_uri(&self, offset: usize) -> (r: Result<Vec<u8>, Error>)
        ensures
            self.blog_identifier@.len() > 0 ==> (r matches Ok(u) && u@ == uri::uri_of(
                self.blog_identifier@,
                photo_posts_path(),
                page_params(self.api_key@, self.page_size, offset),
            )),
            self.blog_identifier@.len() == 0 ==> (r matches Err(e) && e == Error::InvalidUri),
    {
        let path = posts_photo_path();
        let mut params = uri::QueryParameters::new(clone_bytes(&self.api_key));
        let ln: Vec<u8> = vec![108u8, 105u8, 109u8, 105u8, 116u8];
        proof {
            assert(ln@ =~= limit_name());
            assert(uri::seg_ok(limit_name()));
            assert(limit_name() != uri::api_key_name());
        }
        params.push(ln, usize_dec(self.page_size));
        let on: Vec<u8> = vec![111u8, 102u8, 102u8, 115u8, 101u8, 116u8];
        proof {
            assert(on@ =~= offset_name());
            assert(uri::seg_ok(offset_name()));
            assert(offset_name() != uri::api_key_name());
            assert(offset_name() != limit_name());
        }
        params.push(on, usize_dec(offset));
        proof {
            assert(params.pairs() =~= page_params(self.api_key@, self.page_size, offset));
        }
        uri::tumblr_uri(&self.blog_identifier, &path, &params)
    }
}

} // verus!
