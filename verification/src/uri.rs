//! URI construction: a resource path and a percent-encoded query string,
//! assembled into the fixed request shape
//! `https://api.tumblr.com/v2/blog/{identifier}/{path}?{query}`.
//!
//! Everything here is a pure function of its inputs, stated byte for byte.

use vstd::prelude::*;

use crate::Error;

verus! {

/// Bytes that may stand unencoded in a URI: ALPHA, DIGIT, `-`, `.`, `_`, `~`.
pub open spec fn is_unreserved(b: u8) -> bool {
    (48 <= b <= 57) || (65 <= b <= 90) || (97 <= b <= 122) || b == 45 || b == 46 || b == 95
        || b == 126
}

/// The upper-case hexadecimal digit for a value below sixteen.
pub open spec fn hex_digit(n: u8) -> u8 {
    if n < 10 {
        (48 + n) as u8
    } else {
        (55 + n) as u8
    }
}

/// The percent-encoding of one byte: unreserved bytes stand as they are,
/// every other byte becomes `%` and two hexadecimal digits.
pub open spec fn enc_byte(b: u8) -> Seq<u8> {
    if is_unreserved(b) {
        seq![b]
    } else {
        seq![37u8, hex_digit(b / 16), hex_digit(b % 16)]
    }
}

/// The percent-encoding of a byte sequence, byte by byte.
pub open spec fn enc(s: Seq<u8>) -> Seq<u8>
    decreases s.len(),
{
    if s.len() == 0 {
        Seq::empty()
    } else {
        enc(s.drop_last()) + enc_byte(s.last())
    }
}

/// A well-formed query key: non-empty and made of unreserved bytes only.
pub open spec fn seg_ok(s: Seq<u8>) -> bool {
    s.len() > 0 && forall|i: int| 0 <= i < s.len() ==> is_unreserved(s[i])
}

/// Bytes that may stand raw in a URI path segment: the unreserved bytes,
/// the sub-delimiters `!$&'()*+,;=`, and `:` and `@`.
pub open spec fn is_pchar(b: u8) -> bool {
    is_unreserved(b) || b == 33 || b == 36 || b == 38 || b == 39 || b == 40 || b == 41 || b == 42
        || b == 43 || b == 44 || b == 59 || b == 61 || b == 58 || b == 64
}

/// How one byte is carried in a path segment: raw where the segment grammar
/// allows it, percent-encoded everywhere else. No byte is unencodable.
pub open spec fn enc_seg_byte(b: u8) -> Seq<u8> {
    if is_pchar(b) {
        seq![b]
    } else {
        seq![37u8, hex_digit(b / 16), hex_digit(b % 16)]
    }
}

/// How a whole path segment is carried, byte by byte.
pub open spec fn enc_seg(s: Seq<u8>) -> Seq<u8>
    decreases s.len(),
{
    if s.len() == 0 {
        Seq::empty()
    } else {
        enc_seg(s.drop_last()) + enc_seg_byte(s.last())
    }
}

fn hex_digit_x(n: u8) -> (r: u8)
    requires
        n < 16,
    ensures
        r == hex_digit(n),
{
    if n < 10 {
        48 + n
    } else {
        55 + n
    }
}

fn is_unreserved_x(b: u8) -> (r: bool)
    ensures
        r == is_unreserved(b),
{
    (48 <= b && b <= 57) || (65 <= b && b <= 90) || (97 <= b && b <= 122) || b == 45 || b == 46
        || b == 95 || b == 126
}

/// Append the percent-encoding of `s` to `out`.
fn push_encoded(out: &mut Vec<u8>, s: &Vec<u8>)
    ensures
        final(out)@ == old(out)@ + enc(s@),
{
    let mut i: usize = 0;
    while i < s.len()
        invariant
            i <= s.len(),
            out@ == old(out)@ + enc(s@.subrange(0, i as int)),
        decreases s.len() - i,
    {
        let b = s[i];
        if is_unreserved_x(b) {
            out.push(b);
        } else {
            out.push(37);
            out.push(hex_digit_x(b / 16));
            out.push(hex_digit_x(b % 16));
        }
        proof {
            assert(s@.subrange(0, i + 1).drop_last() =~= s@.subrange(0, i as int));
            assert(s@.subrange(0, i + 1).last() == s@[i as int]);
            assert(out@ =~= old(out)@ + enc(s@.subrange(0, i + 1)));
        }
        i = i + 1;
    }
    proof {
        assert(s@.subrange(0, s@.len() as int) =~= s@);
    }
}

fn is_pchar_x(b: u8) -> (r: bool)
    ensures
        r == is_pchar(b),
{
    is_unreserved_x(b) || b == 33 || b == 36 || b == 38 || b == 39 || b == 40 || b == 41 || b == 42
        || b == 43 || b == 44 || b == 59 || b == 61 || b == 58 || b == 64
}

/// Append `s` to `out` as a path segment, percent-encoding what the segment
/// grammar does not allow raw.
fn push_encoded_seg(out: &mut Vec<u8>, s: &Vec<u8>)
    ensures
        final(out)@ == old(out)@ + enc_seg(s@),
{
    let mut i: usize = 0;
    while i < s.len()
        invariant
            i <= s.len(),
            out@ == old(out)@ + enc_seg(s@.subrange(0, i as int)),
        decreases s.len() - i,
    {
        let b = s[i];
        if is_pchar_x(b) {
            out.push(b);
        } else {
            out.push(37);
            out.push(hex_digit_x(b / 16));
            out.push(hex_digit_x(b % 16));
        }
        proof {
            assert(s@.subrange(0, i + 1).drop_last() =~= s@.subrange(0, i as int));
            assert(s@.subrange(0, i + 1).last() == s@[i as int]);
            assert(out@ =~= old(out)@ + enc_seg(s@.subrange(0, i + 1)));
        }
        i = i + 1;
    }
    proof {
        assert(s@.subrange(0, s@.len() as int) =~= s@);
    }
}

/// An ordered sequence of path segments, joined with `/` in the request.
pub struct UriPath {
    pub segments: Vec<Vec<u8>>,
}

impl UriPath {
    /// The segments as mathematical sequences.
    pub open spec fn segs(&self) -> Seq<Seq<u8>> {
        self.segments@.map_values(|v: Vec<u8>| v@)
    }

    /// Every segment is non-empty; their bytes are not further validated,
    /// since every byte can be carried percent-encoded.
    pub open spec fn wf(&self) -> bool {
        forall|i: int| 0 <= i < self.segs().len() ==> (#[trigger] self.segs()[i]).len() > 0
    }

    /// An empty path.
    pub fn new() -> (r: UriPath)
        ensures
            r.segs() == Seq::<Seq<u8>>::empty(),
            r.wf(),
    {
        let r = UriPath { segments: Vec::new() };
        proof {
            assert(r.segs() =~= Seq::<Seq<u8>>::empty());
        }
        r
    }

    /// Append one segment.
    pub fn push(&mut self, seg: Vec<u8>)
        ensures
            final(self).segs() == old(self).segs().push(seg@),
            old(self).wf() && seg@.len() > 0 ==> final(self).wf(),
    {
        let ghost g = seg@;
        self.segments.push(seg);
        proof {
            assert(self.segs() =~= old(self).segs().push(g));
        }
    }
}

/// The joining of path segments with `/` between them, each carried as the
/// segment grammar asks.
pub open spec fn join_path(segs: Seq<Seq<u8>>) -> Seq<u8>
    decreases segs.len(),
{
    if segs.len() == 0 {
        Seq::empty()
    } else if segs.len() == 1 {
        enc_seg(segs[0])
    } else {
        join_path(segs.drop_last()) + seq![47u8] + enc_seg(segs.last())
    }
}

/// An ordered mapping from query parameter name to value, keys unique.
/// Insertion order is kept, so serialization is deterministic.
pub struct QueryParameters {
    pub params: Vec<(Vec<u8>, Vec<u8>)>,
}

impl QueryParameters {
    /// The pairs as mathematical sequences.
    pub open spec fn pairs(&self) -> Seq<(Seq<u8>, Seq<u8>)> {
        self.params@.map_values(|p: (Vec<u8>, Vec<u8>)| (p.0@, p.1@))
    }

    /// Keys are unique and well-formed; values carry any bytes, since they
    /// are percent-encoded at serialization.
    pub open spec fn wf(&self) -> bool {
        &&& forall|i: int, j: int|
            0 <= i < j < self.pairs().len() ==> (#[trigger] self.pairs()[i]).0 != (
            #[trigger] self.pairs()[j]).0
        &&& forall|i: int| 0 <= i < self.pairs().len() ==> seg_ok((#[trigger] self.pairs()[i]).0)
    }

    /// The parameter set every request starts from: the `api_key` entry.
    pub fn new(api_key: Vec<u8>) -> (r: QueryParameters)
        ensures
            r.pairs() == seq![(api_key_name(), api_key@)],
            r.wf(),
    {
        let ghost g = api_key@;
        let mut params: Vec<(Vec<u8>, Vec<u8>)> = Vec::new();
        params.push((api_key_name_x(), api_key));
        let r = QueryParameters { params };
        proof {
            assert(r.pairs() =~= seq![(api_key_name(), g)]);
        }
        r
    }

    /// Append one parameter whose name is not yet present.
    pub fn push(&mut self, name: Vec<u8>, value: Vec<u8>)
        requires
            old(self).wf(),
            seg_ok(name@),
            forall|i: int| 0 <= i < old(self).pairs().len() ==> (#[trigger] old(self).pairs()[i]).0
                != name@,
        ensures
            final(self).pairs() == old(self).pairs().push((name@, value@)),
            final(self).wf(),
    {
        let ghost gn = name@;
        let ghost gv = value@;
        self.params.push((name, value));
        proof {
            assert(self.pairs() =~= old(self).pairs().push((gn, gv)));
        }
    }
}

/// The name of the API key parameter, `api_key`.
pub open spec fn api_key_name() -> Seq<u8> {
    seq![97u8, 112u8, 105u8, 95u8, 107u8, 101u8, 121u8]
}

fn api_key_name_x() -> (r: Vec<u8>)
    ensures
        r@ == api_key_name(),
{
    let v: Vec<u8> = vec![97u8, 112u8, 105u8, 95u8, 107u8, 101u8, 121u8];
    proof {
        assert(v@ =~= api_key_name());
    }
    v
}

/// The serialization of the query parameters: `name=encoded-value` pairs
/// joined with `&`, in insertion order.
pub open spec fn join_params(ps: Seq<(Seq<u8>, Seq<u8>)>) -> Seq<u8>
    decreases ps.len(),
{
    if ps.len() == 0 {
        Seq::empty()
    } else if ps.len() == 1 {
        ps[0].0 + seq![61u8] + enc(ps[0].1)
    } else {
        join_params(ps.drop_last()) + seq![38u8] + ps.last().0 + seq![61u8] + enc(ps.last().1)
    }
}

/// The fixed request prefix, `https://api.tumblr.com/v2/blog/`.
pub open spec fn uri_prefix() -> Seq<u8> {
    seq![
        104u8, 116u8, 116u8, 112u8, 115u8, 58u8, 47u8, 47u8, 97u8, 112u8, 105u8, 46u8, 116u8,
        117u8, 109u8, 98u8, 108u8, 114u8, 46u8, 99u8, 111u8, 109u8, 47u8, 118u8, 50u8, 47u8, 98u8,
        108u8, 111u8, 103u8, 47u8,
    ]
}

fn uri_prefix_x() -> (r: Vec<u8>)
    ensures
        r@ == uri_prefix(),
{
    let v: Vec<u8> = vec![
        104u8, 116u8, 116u8, 112u8, 115u8, 58u8, 47u8, 47u8, 97u8, 112u8, 105u8, 46u8, 116u8,
        117u8, 109u8, 98u8, 108u8, 114u8, 46u8, 99u8, 111u8, 109u8, 47u8, 118u8, 50u8, 47u8, 98u8,
        108u8, 111u8, 103u8, 47u8,
    ];
    proof {
        assert(v@ =~= uri_prefix());
    }
    v
}

/// The full request URI for the given identifier, path and parameters. The
/// identifier and the segments are carried as the path-segment grammar asks.
pub open spec fn uri_of(id: Seq<u8>, segs: Seq<Seq<u8>>, ps: Seq<(Seq<u8>, Seq<u8>)>) -> Seq<u8> {
    uri_prefix() + enc_seg(id) + seq![47u8] + join_path(segs) + seq![63u8] + join_params(ps)
}

/// The inputs from which a URI can be assembled: the identifier and every
/// segment non-empty, and nothing more — any byte can be carried, encoded
/// where the grammar asks for it.
pub open spec fn uri_inputs_ok(id: Seq<u8>, segs: Seq<Seq<u8>>) -> bool {
    id.len() > 0 && (forall|i: int| 0 <= i < segs.len() ==> (#[trigger] segs[i]).len() > 0)
}

/// Assemble the request URI, or report `InvalidUri` exactly when the blog
/// identifier or a path segment is empty, the one way the assembly cannot
/// yield a well-formed URI. Identifier bytes are not otherwise validated:
/// what the path-segment grammar does not allow raw is percent-encoded.
pub fn tumblr_uri(blog_identifier: &Vec<u8>, path: &UriPath, params: &QueryParameters) -> (r:
    Result<Vec<u8>, Error>)
    requires
        params.wf(),
    ensures
        uri_inputs_ok(blog_identifier@, path.segs()) ==> (r matches Ok(u) && u@ == uri_of(
            blog_identifier@,
            path.segs(),
            params.pairs(),
        )),
        !uri_inputs_ok(blog_identifier@, path.segs()) ==> (r matches Err(e) && e
            == Error::InvalidUri),
{
    if blog_identifier.len() == 0 {
        return Err(Error::InvalidUri);
    }
    let mut k: usize = 0;
    while k < path.segments.len()
        invariant
            k <= path.segments.len(),
            forall|i: int| 0 <= i < k ==> (#[trigger] path.segs()[i]).len() > 0,
        decreases path.segments.len() - k,
    {
        if path.segments[k].len() == 0 {
            proof {
                assert(path.segs()[k as int] == path.segments@[k as int]@);
            }
            return Err(Error::InvalidUri);
        }
        k = k + 1;
    }

    let mut out = uri_prefix_x();
    push_encoded_seg(&mut out, blog_identifier);
    out.push(47);

    let mut k: usize = 0;
    while k < path.segments.len()
        invariant
            k <= path.segments.len(),
            out@ == uri_prefix() + enc_seg(blog_identifier@) + seq![47u8] + join_path(
                path.segs().subrange(0, k as int),
            ),
        decreases path.segments.len() - k,
    {
        if k > 0 {
            out.push(47);
        }
        push_encoded_seg(&mut out, &path.segments[k]);
        proof {
            assert(path.segs().subrange(0, k + 1).drop_last() =~= path.segs().subrange(
                0,
                k as int,
            ));
            assert(path.segs().subrange(0, k + 1).last() == path.segs()[k as int]);
            assert(path.segs()[k as int] == path.segments@[k as int]@);
            assert(out@ =~= uri_prefix() + enc_seg(blog_identifier@) + seq![47u8] + join_path(
                path.segs().subrange(0, k + 1),
            ));
        }
        k = k + 1;
    }
    proof {
        assert(path.segs().subrange(0, path.segs().len() as int) =~= path.segs());
    }
    out.push(63);

    let mut k: usize = 0;
    let ghost stem = out@;
    while k < params.params.len()
        invariant
            k <= params.params.len(),
            out@ == stem + join_params(params.pairs().subrange(0, k as int)),
        decreases params.params.len() - k,
    {
        if k > 0 {
            out.push(38);
        }
        let pair = &params.params[k];
        let mut j: usize = 0;
        let ghost base = out@;
        while j < pair.0.len()
            invariant
                j <= pair.0.len(),
                out@ == base + pair.0@.subrange(0, j as int),
            decreases pair.0.len() - j,
        {
            out.push(pair.0[j]);
            proof {
                assert(out@ =~= base + pair.0@.subrange(0, j + 1));
            }
            j = j + 1;
        }
        proof {
            assert(pair.0@.subrange(0, pair.0@.len() as int) =~= pair.0@);
        }
        out.push(61);
        push_encoded(&mut out, &pair.1);
        proof {
            assert(params.pairs().subrange(0, k + 1).drop_last() =~= params.pairs().subrange(
                0,
                k as int,
            ));
            assert(params.pairs().subrange(0, k + 1).last() == params.pairs()[k as int]);
            assert(params.pairs()[k as int] == (pair.0@, pair.1@));
            assert(out@ =~= stem + join_params(params.pairs().subrange(0, k + 1)));
        }
        k = k + 1;
    }
    proof {
        assert(params.pairs().subrange(0, params.pairs().len() as int) =~= params.pairs());
        assert(out@ =~= uri_of(blog_identifier@, path.segs(), params.pairs()));
    }
    Ok(out)
}

} // verus!
