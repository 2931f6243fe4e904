//! The response envelope and the typed payloads read out of it.
//!
//! Every API response is a JSON object `{ "meta": { "status", "msg" },
//! "response": ... }`. The envelope's status is the single source of truth
//! for success: a payload under a non-success status is not to be trusted.
//! Decoding is stated against the JSON grammar of [`crate::json`], field by
//! field; an object lookup takes the first field with the given name.

use vstd::prelude::*;

use crate::json::{
    Json, JsonValue, jobj, jvec, jview, lemma_jobj_index, lemma_jvec_index, parse_doc, parse_doc_x,
};
use crate::photos::{Photo, PhotoModel, PhotoSize, PhotoSizeModel, Post, PostModel, Posts,
    TotalPosts};
use crate::Error;

verus! {

/// The metadata section of an envelope.
#[derive(Debug, PartialEq, Clone)]
pub struct Meta {
    pub status: u64,
    pub msg: Vec<u8>,
}

impl Meta {
    /// The single source of truth for success: the canonical success code.
    pub open spec fn is_success_spec(&self) -> bool {
        self.status == 200
    }

    /// Whether the envelope reports success.
    pub fn is_success(&self) -> (r: bool)
        ensures
            r == self.is_success_spec(),
    {
        self.status == 200
    }
}

/// A decoded envelope: the metadata and the typed payload.
#[derive(Debug, PartialEq, Clone)]
pub struct Response<T> {
    pub meta: Meta,
    pub response: T,
}

/// The first field named `key` at or after position `i`, if any.
pub open spec fn obj_get(fs: Seq<(Seq<u8>, Json)>, key: Seq<u8>, i: int) -> Option<Json>
    decreases fs.len() - i,
{
    if !(0 <= i < fs.len()) {
        None
    } else if fs[i].0 == key {
        Some(fs[i].1)
    } else {
        obj_get(fs, key, i + 1)
    }
}

/// The value of the first field named `key`, if any.
pub open spec fn obj_lookup(fs: Seq<(Seq<u8>, Json)>, key: Seq<u8>) -> Option<Json> {
    obj_get(fs, key, 0)
}

/// The value of a decimal digit run, as long as it stays within `u64`.
pub open spec fn dec_u64(s: Seq<u8>) -> Option<u64>
    decreases s.len(),
{
    if s.len() == 0 {
        Some(0u64)
    } else {
        match dec_u64(s.drop_last()) {
            Some(a) => {
                let d = s.last() - 48;
                if 0 <= d <= 9 && a <= (u64::MAX - d) / 10 {
                    Some((10 * a + d) as u64)
                } else {
                    None
                }
            },
            None => None,
        }
    }
}

/// A number literal read as an unsigned 64-bit integer: a non-empty run of
/// digits whose value fits. A sign, fraction or exponent disqualifies it.
pub open spec fn num_as_u64(lit: Seq<u8>) -> Option<u64> {
    if lit.len() > 0 {
        dec_u64(lit)
    } else {
        None
    }
}

/// A JSON value read as an unsigned 64-bit integer.
pub open spec fn json_u64(j: Json) -> Option<u64> {
    match j {
        Json::Num(lit) => num_as_u64(lit),
        _ => None,
    }
}

/// A JSON value read as a string's bytes.
pub open spec fn json_str(j: Json) -> Option<Seq<u8>> {
    match j {
        Json::Str(s) => Some(s),
        _ => None,
    }
}

/// The field name `meta`.
pub open spec fn meta_key() -> Seq<u8> {
    seq![109u8, 101u8, 116u8, 97u8]
}

/// The field name `status`.
pub open spec fn status_key() -> Seq<u8> {
    seq![115u8, 116u8, 97u8, 116u8, 117u8, 115u8]
}

/// The field name `msg`.
pub open spec fn msg_key() -> Seq<u8> {
    seq![109u8, 115u8, 103u8]
}

/// The field name `response`.
pub open spec fn response_key() -> Seq<u8> {
    seq![114u8, 101u8, 115u8, 112u8, 111u8, 110u8, 115u8, 101u8]
}

/// The field name `amount`.
pub open spec fn amount_key() -> Seq<u8> {
    seq![97u8, 109u8, 111u8, 117u8, 110u8, 116u8]
}

/// The field name `posts`.
pub open spec fn posts_key() -> Seq<u8> {
    seq![112u8, 111u8, 115u8, 116u8, 115u8]
}

/// The field name `id`.
pub open spec fn id_key() -> Seq<u8> {
    seq![105u8, 100u8]
}

/// The field name `photos`.
pub open spec fn photos_key() -> Seq<u8> {
    seq![112u8, 104u8, 111u8, 116u8, 111u8, 115u8]
}

/// The field name `alt_sizes`.
pub open spec fn alt_sizes_key() -> Seq<u8> {
    seq![97u8, 108u8, 116u8, 95u8, 115u8, 105u8, 122u8, 101u8, 115u8]
}

/// The field name `width`.
pub open spec fn width_key() -> Seq<u8> {
    seq![119u8, 105u8, 100u8, 116u8, 104u8]
}

/// The field name `height`.
pub open spec fn height_key() -> Seq<u8> {
    seq![104u8, 101u8, 105u8, 103u8, 104u8, 116u8]
}

/// The field name `url`.
pub open spec fn url_key() -> Seq<u8> {
    seq![117u8, 114u8, 108u8]
}

/// The status and message of an envelope's metadata section.
pub open spec fn meta_of(fs: Seq<(Seq<u8>, Json)>) -> Option<(u64, Seq<u8>)> {
    match obj_lookup(fs, meta_key()) {
        Some(Json::Obj(ms)) => {
            let st = match obj_lookup(ms, status_key()) {
                Some(x) => json_u64(x),
                None => None,
            };
            let mg = match obj_lookup(ms, msg_key()) {
                Some(x) => json_str(x),
                None => None,
            };
            match (st, mg) {
                (Some(a), Some(b)) => Some((a, b)),
                _ => None,
            }
        },
        _ => None,
    }
}

/// What the envelope of a response document holds: the status, the message,
/// and the (not yet typed) payload.
pub open spec fn envelope_of(s: Seq<u8>) -> Option<(u64, Seq<u8>, Json)> {
    match parse_doc(s) {
        Some(Json::Obj(fs)) => match (meta_of(fs), obj_lookup(fs, response_key())) {
            (Some((st, mg)), Some(p)) => Some((st, mg, p)),
            _ => None,
        },
        _ => None,
    }
}

/// The total-count payload: the `amount` field as an integer.
pub open spec fn amount_of_json(j: Json) -> Option<u64> {
    match j {
        Json::Obj(fs) => match obj_lookup(fs, amount_key()) {
            Some(x) => json_u64(x),
            None => None,
        },
        _ => None,
    }
}

/// The first `n` elements of `es`, each read by `f`; fails if any element
/// does.
pub open spec fn map_json<A>(es: Seq<Json>, n: int, f: spec_fn(Json) -> Option<A>) -> Option<
    Seq<A>,
>
    decreases n,
{
    if n <= 0 {
        Some(Seq::empty())
    } else {
        match map_json(es, n - 1, f) {
            Some(pre) => match f(es[n - 1]) {
                Some(m) => Some(pre.push(m)),
                None => None,
            },
            None => None,
        }
    }
}

proof fn lemma_map_json_fail<A>(es: Seq<Json>, n: int, f: spec_fn(Json) -> Option<A>, k: int)
    requires
        0 <= k < n,
        f(es[k]) is None,
    ensures
        map_json(es, n, f) is None,
    decreases n,
{
    if k < n - 1 {
        lemma_map_json_fail(es, n - 1, f, k);
    }
}

/// How one photo size is read from JSON.
pub open spec fn size_of_json(j: Json) -> Option<PhotoSizeModel> {
    match j {
        Json::Obj(fs) => {
            let w = match obj_lookup(fs, width_key()) {
                Some(x) => json_u64(x),
                None => None,
            };
            let h = match obj_lookup(fs, height_key()) {
                Some(x) => json_u64(x),
                None => None,
            };
            let u = match obj_lookup(fs, url_key()) {
                Some(x) => json_str(x),
                None => None,
            };
            match (w, h, u) {
                (Some(w2), Some(h2), Some(u2)) => Some(
                    PhotoSizeModel { width: w2, height: h2, url: u2 },
                ),
                _ => None,
            }
        },
        _ => None,
    }
}

/// The reader of one photo size, as a function value.
pub open spec fn size_f() -> spec_fn(Json) -> Option<PhotoSizeModel> {
    |x: Json| size_of_json(x)
}

/// How one photo is read from JSON: its renditions under `alt_sizes`.
pub open spec fn photo_of_json(j: Json) -> Option<PhotoModel> {
    match j {
        Json::Obj(fs) => match obj_lookup(fs, alt_sizes_key()) {
            Some(Json::Arr(es)) => match map_json(es, es.len() as int, size_f()) {
                Some(ms) => Some(PhotoModel { sizes: ms }),
                None => None,
            },
            _ => None,
        },
        _ => None,
    }
}

/// The reader of one photo, as a function value.
pub open spec fn photo_f() -> spec_fn(Json) -> Option<PhotoModel> {
    |x: Json| photo_of_json(x)
}

/// How one post is read from JSON: its `id` and its `photos`.
pub open spec fn post_of_json(j: Json) -> Option<PostModel> {
    match j {
        Json::Obj(fs) => {
            let idv = match obj_lookup(fs, id_key()) {
                Some(x) => json_u64(x),
                None => None,
            };
            match (idv, obj_lookup(fs, photos_key())) {
                (Some(n), Some(Json::Arr(es))) => match map_json(es, es.len() as int, photo_f()) {
                    Some(ps) => Some(PostModel { id: n, photos: ps }),
                    None => None,
                },
                _ => None,
            }
        },
        _ => None,
    }
}

/// The reader of one post, as a function value.
pub open spec fn post_f() -> spec_fn(Json) -> Option<PostModel> {
    |x: Json| post_of_json(x)
}

/// The page payload: the `posts` field as a sequence of posts, in order.
pub open spec fn page_of_json(j: Json) -> Option<Seq<PostModel>> {
    match j {
        Json::Obj(fs) => match obj_lookup(fs, posts_key()) {
            Some(Json::Arr(es)) => map_json(es, es.len() as int, post_f()),
            _ => None,
        },
        _ => None,
    }
}

fn bytes_eq(a: &Vec<u8>, b: &Vec<u8>) -> (r: bool)
    ensures
        r == (a@ == b@),
{
    if a.len() != b.len() {
        return false;
    }
    let mut i: usize = 0;
    while i < a.len()
        invariant
            i <= a.len(),
            a.len() == b.len(),
            forall|k: int| 0 <= k < i ==> a@[k] == b@[k],
        decreases a.len() - i,
    {
        if a[i] != b[i] {
            return false;
        }
        i = i + 1;
    }
    proof {
        assert(a@ =~= b@);
    }
    true
}

fn copy_bytes(v: &Vec<u8>) -> (r: Vec<u8>)
    ensures
        r@ == v@,
{
    let mut out: Vec<u8> = Vec::new();
    let mut i: usize = 0;
    while i < v.len()
        invariant
            i <= v.len(),
            out@ == v@.subrange(0, i as int),
        decreases v.len() - i,
    {
        out.push(v[i]);
        proof {
            assert(out@ =~= v@.subrange(0, i + 1));
        }
        i = i + 1;
    }
    proof {
        assert(v@.subrange(0, v@.len() as int) =~= v@);
    }
    out
}

fn meta_key_x() -> (r: Vec<u8>)
    ensures
        r@ == meta_key(),
{
    let v: Vec<u8> = vec![109u8, 101u8, 116u8, 97u8];
    proof {
        assert(v@ =~= meta_key());
    }
    v
}

fn status_key_x() -> (r: Vec<u8>)
    ensures
        r@ == status_key(),
{
    let v: Vec<u8> = vec![115u8, 116u8, 97u8, 116u8, 117u8, 115u8];
    proof {
        assert(v@ =~= status_key());
    }
    v
}

fn msg_key_x() -> (r: Vec<u8>)
    ensures
        r@ == msg_key(),
{
    let v: Vec<u8> = vec![109u8, 115u8, 103u8];
    proof {
        assert(v@ =~= msg_key());
    }
    v
}

fn response_key_x() -> (r: Vec<u8>)
    ensures
        r@ == response_key(),
{
    let v: Vec<u8> = vec![114u8, 101u8, 115u8, 112u8, 111u8, 110u8, 115u8, 101u8];
    proof {
        assert(v@ =~= response_key());
    }
    v
}

fn amount_key_x() -> (r: Vec<u8>)
    ensures
        r@ == amount_key(),
{
    let v: Vec<u8> = vec![97u8, 109u8, 111u8, 117u8, 110u8, 116u8];
    proof {
        assert(v@ =~= amount_key());
    }
    v
}

fn posts_key_x() -> (r: Vec<u8>)
    ensures
        r@ == posts_key(),
{
    let v: Vec<u8> = vec![112u8, 111u8, 115u8, 116u8, 115u8];
    proof {
        assert(v@ =~= posts_key());
    }
    v
}

fn id_key_x() -> (r: Vec<u8>)
    ensures
        r@ == id_key(),
{
    let v: Vec<u8> = vec![105u8, 100u8];
    proof {
        assert(v@ =~= id_key());
    }
    v
}

fn photos_key_x() -> (r: Vec<u8>)
    ensures
        r@ == photos_key(),
{
    let v: Vec<u8> = vec![112u8, 104u8, 111u8, 116u8, 111u8, 115u8];
    proof {
        assert(v@ =~= photos_key());
    }
    v
}

fn alt_sizes_key_x() -> (r: Vec<u8>)
    ensures
        r@ == alt_sizes_key(),
{
    let v: Vec<u8> = vec![97u8, 108u8, 116u8, 95u8, 115u8, 105u8, 122u8, 101u8, 115u8];
    proof {
        assert(v@ =~= alt_sizes_key());
    }
    v
}

fn width_key_x() -> (r: Vec<u8>)
    ensures
        r@ == width_key(),
{
    let v: Vec<u8> = vec![119u8, 105u8, 100u8, 116u8, 104u8];
    proof {
        assert(v@ =~= width_key());
    }
    v
}

fn height_key_x() -> (r: Vec<u8>)
    ensures
        r@ == height_key(),
{
    let v: Vec<u8> = vec![104u8, 101u8, 105u8, 103u8, 104u8, 116u8];
    proof {
        assert(v@ =~= height_key());
    }
    v
}

fn url_key_x() -> (r: Vec<u8>)
    ensures
        r@ == url_key(),
{
    let v: Vec<u8> = vec![117u8, 114u8, 108u8];
    proof {
        assert(v@ =~= url_key());
    }
    v
}

/// The value of the first field of `o` named `key`, if any.
fn get_field<'a>(o: &'a Vec<(Vec<u8>, JsonValue)>, key: &Vec<u8>) -> (r: Option<&'a JsonValue>)
    ensures
        match r {
            Some(v) => obj_lookup(jobj(*o), key@) == Some(jview(*v)),
            None => obj_lookup(jobj(*o), key@) is None,
        },
{
    proof {
        lemma_jobj_index(*o);
    }
    let mut k: usize = 0;
    while k < o.len()
        invariant
            k <= o.len(),
            jobj(*o).len() == o.len(),
            forall|i: int| 0 <= i < o.len() ==> jobj(*o)[i] == (o[i].0@, jview(o[i].1)),
            obj_get(jobj(*o), key@, 0) == obj_get(jobj(*o), key@, k as int),
        decreases o.len() - k,
    {
        if bytes_eq(&o[k].0, key) {
            return Some(&o[k].1);
        }
        k = k + 1;
    }
    None
}

proof fn lemma_dec_u64_none(s: Seq<u8>, k: int, n: int)
    requires
        0 <= k <= n <= s.len(),
        dec_u64(s.subrange(0, k)) is None,
    ensures
        dec_u64(s.subrange(0, n)) is None,
    decreases n - k,
{
    if k < n {
        assert(s.subrange(0, k + 1).drop_last() =~= s.subrange(0, k));
        lemma_dec_u64_none(s, k + 1, n);
    }
}

fn dec_digits(lit: &Vec<u8>) -> (r: Option<u64>)
    ensures
        r == num_as_u64(lit@),
{
    if lit.len() == 0 {
        return None;
    }
    let mut acc: u64 = 0;
    let mut k: usize = 0;
    while k < lit.len()
        invariant
            k <= lit.len(),
            dec_u64(lit@.subrange(0, k as int)) == Some(acc),
        decreases lit.len() - k,
    {
        proof {
            assert(lit@.subrange(0, k + 1).drop_last() =~= lit@.subrange(0, k as int));
            assert(lit@.subrange(0, k + 1).last() == lit@[k as int]);
        }
        let b = lit[k];
        if b < 48 || b > 57 {
            proof {
                lemma_dec_u64_none(lit@, k + 1, lit@.len() as int);
                assert(lit@.subrange(0, lit@.len() as int) =~= lit@);
            }
            return None;
        }
        let d = (b - 48) as u64;
        if acc > (u64::MAX - d) / 10 {
            proof {
                lemma_dec_u64_none(lit@, k + 1, lit@.len() as int);
                assert(lit@.subrange(0, lit@.len() as int) =~= lit@);
            }
            return None;
        }
        acc = acc * 10 + d;
        k = k + 1;
    }
    proof {
        assert(lit@.subrange(0, lit@.len() as int) =~= lit@);
    }
    Some(acc)
}

/// A parsed value read as an unsigned 64-bit integer.
fn as_u64_x(j: &JsonValue) -> (r: Option<u64>)
    ensures
        r == json_u64(jview(*j)),
{
    match j {
        JsonValue::Num(lit) => dec_digits(lit),
        _ => None,
    }
}

/// One photo size from a parsed value.
fn size_from(j: &JsonValue) -> (r: Option<PhotoSize>)
    ensures
        match r {
            Some(z) => size_of_json(jview(*j)) == Some(z@),
            None => size_of_json(jview(*j)) is None,
        },
{
    match j {
        JsonValue::Obj(o) => {
            let wk = width_key_x();
            let w = match get_field(o, &wk) {
                Some(x) => as_u64_x(x),
                None => None,
            };
            let hk = height_key_x();
            let h = match get_field(o, &hk) {
                Some(x) => as_u64_x(x),
                None => None,
            };
            let uk = url_key_x();
            let u: Option<Vec<u8>> = match get_field(o, &uk) {
                Some(x) => match x {
                    JsonValue::Str(sv) => Some(copy_bytes(sv)),
                    _ => None,
                },
                None => None,
            };
            match (w, h, u) {
                (Some(w2), Some(h2), Some(u2)) => Some(PhotoSize { width: w2, height: h2, url: u2 }),
                _ => None,
            }
        },
        _ => None,
    }
}

/// One photo from a parsed value.
#[verifier::loop_isolation(false)]
fn photo_from(j: &JsonValue) -> (r: Option<Photo>)
    ensures
        match r {
            Some(p) => photo_of_json(jview(*j)) == Some(p@),
            None => photo_of_json(jview(*j)) is None,
        },
{
    match j {
        JsonValue::Obj(o) => {
            let ak = alt_sizes_key_x();
            match get_field(o, &ak) {
                Some(x) => match x {
                    JsonValue::Arr(arr) => {
                        proof {
                            lemma_jvec_index(*arr);
                        }
                        let ghost es = jvec(*arr);
                        let mut out: Vec<PhotoSize> = Vec::new();
                        let mut k: usize = 0;
                        while k < arr.len()
                            invariant
                                k <= arr.len(),
                                es == jvec(*arr),
                                es.len() == arr.len(),
                                forall|i: int| 0 <= i < arr.len() ==> es[i] == jview(arr[i]),
                                map_json(es, k as int, size_f()) == Some(
                                    crate::photos::size_views(out@),
                                ),
                            decreases arr.len() - k,
                        {
                            match size_from(&arr[k]) {
                                Some(z) => {
                                    let ghost out0 = out@;
                                    let ghost gz = z;
                                    out.push(z);
                                    proof {
                                        assert(crate::photos::size_views(out@)
                                            =~= crate::photos::size_views(out0).push(gz@));
                                    }
                                },
                                None => {
                                    proof {
                                        assert(size_f()(es[k as int]) == size_of_json(
                                            es[k as int],
                                        ));
                                        lemma_map_json_fail(
                                            es,
                                            arr.len() as int,
                                            size_f(),
                                            k as int,
                                        );
                                    }
                                    return None;
                                },
                            }
                            k = k + 1;
                        }
                        Some(Photo { sizes: out })
                    },
                    _ => None,
                },
                None => None,
            }
        },
        _ => None,
    }
}

/// One post from a parsed value.
#[verifier::loop_isolation(false)]
fn post_from(j: &JsonValue) -> (r: Option<Post>)
    ensures
        match r {
            Some(p) => post_of_json(jview(*j)) == Some(p@),
            None => post_of_json(jview(*j)) is None,
        },
{
    match j {
        JsonValue::Obj(o) => {
            let ik = id_key_x();
            let idv = match get_field(o, &ik) {
                Some(x) => as_u64_x(x),
                None => None,
            };
            let n = match idv {
                Some(n) => n,
                None => {
                    return None;
                },
            };
            let pk = photos_key_x();
            match get_field(o, &pk) {
                Some(x) => match x {
                    JsonValue::Arr(arr) => {
                        proof {
                            lemma_jvec_index(*arr);
                        }
                        let ghost es = jvec(*arr);
                        let mut out: Vec<Photo> = Vec::new();
                        let mut k: usize = 0;
                        while k < arr.len()
                            invariant
                                k <= arr.len(),
                                es == jvec(*arr),
                                es.len() == arr.len(),
                                forall|i: int| 0 <= i < arr.len() ==> es[i] == jview(arr[i]),
                                map_json(es, k as int, photo_f()) == Some(
                                    crate::photos::photo_views(out@),
                                ),
                            decreases arr.len() - k,
                        {
                            match photo_from(&arr[k]) {
                                Some(p) => {
                                    let ghost out0 = out@;
                                    let ghost gp = p;
                                    out.push(p);
                                    proof {
                                        assert(crate::photos::photo_views(out@)
                                            =~= crate::photos::photo_views(out0).push(gp@));
                                    }
                                },
                                None => {
                                    proof {
                                        assert(photo_f()(es[k as int]) == photo_of_json(
                                            es[k as int],
                                        ));
                                        lemma_map_json_fail(
                                            es,
                                            arr.len() as int,
                                            photo_f(),
                                            k as int,
                                        );
                                    }
                                    return None;
                                },
                            }
                            k = k + 1;
                        }
                        Some(Post { id: n, photos: out })
                    },
                    _ => None,
                },
                None => None,
            }
        },
        _ => None,
    }
}

/// The posts of a page payload, in order.
#[verifier::loop_isolation(false)]
fn posts_from(j: &JsonValue) -> (r: Option<Vec<Post>>)
    ensures
        match r {
            Some(v) => page_of_json(jview(*j)) == Some(crate::photos::post_views(v@)),
            None => page_of_json(jview(*j)) is None,
        },
{
    match j {
        JsonValue::Obj(o) => {
            let pk = posts_key_x();
            match get_field(o, &pk) {
                Some(x) => match x {
                    JsonValue::Arr(arr) => {
                        proof {
                            lemma_jvec_index(*arr);
                        }
                        let ghost es = jvec(*arr);
                        let mut out: Vec<Post> = Vec::new();
                        let mut k: usize = 0;
                        while k < arr.len()
                            invariant
                                k <= arr.len(),
                                es == jvec(*arr),
                                es.len() == arr.len(),
                                forall|i: int| 0 <= i < arr.len() ==> es[i] == jview(arr[i]),
                                map_json(es, k as int, post_f()) == Some(
                                    crate::photos::post_views(out@),
                                ),
                            decreases arr.len() - k,
                        {
                            match post_from(&arr[k]) {
                                Some(p) => {
                                    let ghost out0 = out@;
                                    let ghost gp = p;
                                    out.push(p);
                                    proof {
                                        assert(crate::photos::post_views(out@)
                                            =~= crate::photos::post_views(out0).push(gp@));
                                    }
                                },
                                None => {
                                    proof {
                                        assert(post_f()(es[k as int]) == post_of_json(
                                            es[k as int],
                                        ));
                                        lemma_map_json_fail(
                                            es,
                                            arr.len() as int,
                                            post_f(),
                                            k as int,
                                        );
                                    }
                                    return None;
                                },
                            }
                            k = k + 1;
                        }
                        Some(out)
                    },
                    _ => None,
                },
                None => None,
            }
        },
        _ => None,
    }
}

/// The amount of a total-count payload.
fn amount_from(j: &JsonValue) -> (r: Option<u64>)
    ensures
        r == amount_of_json(jview(*j)),
{
    match j {
        JsonValue::Obj(o) => {
            let ak = amount_key_x();
            match get_field(o, &ak) {
                Some(x) => as_u64_x(x),
                None => None,
            }
        },
        _ => None,
    }
}

/// The metadata section of a decoded document's fields.
fn meta_from(fs: &Vec<(Vec<u8>, JsonValue)>) -> (r: Option<Meta>)
    ensures
        match r {
            Some(m) => meta_of(jobj(*fs)) == Some((m.status, m.msg@)),
            None => meta_of(jobj(*fs)) is None,
        },
{
    let mk = meta_key_x();
    match get_field(fs, &mk) {
        Some(x) => match x {
            JsonValue::Obj(ms) => {
                let sk = status_key_x();
                let st = match get_field(ms, &sk) {
                    Some(y) => as_u64_x(y),
                    None => None,
                };
                let gk = msg_key_x();
                let mg: Option<Vec<u8>> = match get_field(ms, &gk) {
                    Some(y) => match y {
                        JsonValue::Str(sv) => Some(copy_bytes(sv)),
                        _ => None,
                    },
                    None => None,
                };
                match (st, mg) {
                    (Some(a), Some(b)) => Some(Meta { status: a, msg: b }),
                    _ => None,
                }
            },
            _ => None,
        },
        None => None,
    }
}

/// Decode one photo size from a JSON document of its own.
pub fn decode_photo_size(bytes: &[u8]) -> (r: Option<PhotoSize>)
    ensures
        match r {
            Some(z) => parse_doc(bytes@) matches Some(j) && size_of_json(j) == Some(z@),
            None => match parse_doc(bytes@) {
                Some(j) => size_of_json(j) is None,
                None => true,
            },
        },
{
    match parse_doc_x(bytes) {
        Some(v) => size_from(&v),
        None => None,
    }
}

/// Decode an envelope whose payload is the total count. Returns the decoded
/// envelope exactly when the bytes parse as an envelope whose payload holds
/// an integral `amount` that fits the platform's size type; every other
/// input is a `Decode` error. The payload is decoded whatever the status
/// says; a caller must consult `is_success` before trusting it.
pub fn decode_total(bytes: &[u8]) -> (r: Result<Response<TotalPosts>, Error>)
    ensures
        match r {
            Ok(resp) => envelope_of(bytes@) matches Some((st, msg, p)) && resp.meta.status == st
                && resp.meta.msg@ == msg && amount_of_json(p) == Some(resp.response.amount as u64),
            Err(e) => e == Error::Decode && match envelope_of(bytes@) {
                Some((st, msg, p)) => amount_of_json(p) is None || (amount_of_json(p) matches
                    Some(a) && a > usize::MAX as u64),
                None => true,
            },
        },
{
    let doc = match parse_doc_x(bytes) {
        Some(v) => v,
        None => {
            return Err(Error::Decode);
        },
    };
    match doc {
        JsonValue::Obj(fs) => {
            let m = match meta_from(&fs) {
                Some(m) => m,
                None => {
                    return Err(Error::Decode);
                },
            };
            let rk = response_key_x();
            let p = match get_field(&fs, &rk) {
                Some(p) => p,
                None => {
                    return Err(Error::Decode);
                },
            };
            let a = match amount_from(p) {
                Some(a) => a,
                None => {
                    return Err(Error::Decode);
                },
            };
            if a > usize::MAX as u64 {
                Err(Error::Decode)
            } else {
                Ok(Response { meta: m, response: TotalPosts { amount: a as usize } })
            }
        },
        _ => Err(Error::Decode),
    }
}

/// Decode an envelope whose payload is a page of posts. Returns the decoded
/// envelope exactly when the bytes parse as an envelope whose payload holds
/// a well-formed `posts` array; every other input is a `Decode` error. The
/// payload is decoded whatever the status says; a caller must consult
/// `is_success` before trusting it.
pub fn decode_posts(bytes: &[u8]) -> (r: Result<Response<Posts>, Error>)
    ensures
        match r {
            Ok(resp) => envelope_of(bytes@) matches Some((st, msg, p)) && resp.meta.status == st
                && resp.meta.msg@ == msg && page_of_json(p) == Some(resp.response@.posts),
            Err(e) => e == Error::Decode && match envelope_of(bytes@) {
                Some((st, msg, p)) => page_of_json(p) is None,
                None => true,
            },
        },
{
    let doc = match parse_doc_x(bytes) {
        Some(v) => v,
        None => {
            return Err(Error::Decode);
        },
    };
    match doc {
        JsonValue::Obj(fs) => {
            let m = match meta_from(&fs) {
                Some(m) => m,
                None => {
                    return Err(Error::Decode);
                },
            };
            let rk = response_key_x();
            let p = match get_field(&fs, &rk) {
                Some(p) => p,
                None => {
                    return Err(Error::Decode);
                },
            };
            match posts_from(p) {
                Some(v) => Ok(Response { meta: m, response: Posts { posts: v } }),
                None => Err(Error::Decode),
            }
        },
        _ => Err(Error::Decode),
    }
}

/// The total count out of a response's bytes: decode the envelope, let its
/// status decide, and only then read the payload. A non-success status is
/// the API's own failure, reported with its message; bytes that do not hold
/// an envelope, or a success envelope without a usable `amount`, are a
/// `Decode` error.
pub fn decode_post_count(bytes: &[u8]) -> (r: Result<usize, Error>)
    ensures
        match r {
            Ok(n) => envelope_of(bytes@) matches Some((st, msg, p)) && st == 200 && amount_of_json(
                p,
            ) == Some(n as u64),
            Err(e) => match e {
                Error::Api(m) => envelope_of(bytes@) matches Some((st, msg, p)) && st != 200 && m@
                    == msg,
                Error::Decode => match envelope_of(bytes@) {
                    Some((st, msg, p)) => st == 200 && (amount_of_json(p) is None || (
                    amount_of_json(p) matches Some(a) && a > usize::MAX as u64)),
                    None => true,
                },
                _ => false,
            },
        },
{
    let doc = match parse_doc_x(bytes) {
        Some(v) => v,
        None => {
            return Err(Error::Decode);
        },
    };
    match doc {
        JsonValue::Obj(fs) => {
            let m = match meta_from(&fs) {
                Some(m) => m,
                None => {
                    return Err(Error::Decode);
                },
            };
            let rk = response_key_x();
            let p = match get_field(&fs, &rk) {
                Some(p) => p,
                None => {
                    return Err(Error::Decode);
                },
            };
            if !m.is_success() {
                return Err(Error::Api(m.msg));
            }
            let a = match amount_from(p) {
                Some(a) => a,
                None => {
                    return Err(Error::Decode);
                },
            };
            if a > usize::MAX as u64 {
                Err(Error::Decode)
            } else {
                Ok(a as usize)
            }
        },
        _ => Err(Error::Decode),
    }
}

/// One page of posts out of a response's bytes: decode the envelope, let
/// its status decide, and only then read the payload. A non-success status
/// is the API's own failure, reported with its message; bytes that do not
/// hold an envelope, or a success envelope without a well-formed `posts`
/// array, are a `Decode` error.
pub fn decode_posts_page(bytes: &[u8]) -> (r: Result<Vec<Post>, Error>)
    ensures
        match r {
            Ok(v) => envelope_of(bytes@) matches Some((st, msg, p)) && st == 200 && page_of_json(p)
                == Some(crate::photos::post_views(v@)),
            Err(e) => match e {
                Error::Api(m) => envelope_of(bytes@) matches Some((st, msg, p)) && st != 200 && m@
                    == msg,
                Error::Decode => match envelope_of(bytes@) {
                    Some((st, msg, p)) => st == 200 && page_of_json(p) is None,
                    None => true,
                },
                _ => false,
            },
        },
{
    let doc = match parse_doc_x(bytes) {
        Some(v) => v,
        None => {
            return Err(Error::Decode);
        },
    };
    match doc {
        JsonValue::Obj(fs) => {
            let m = match meta_from(&fs) {
                Some(m) => m,
                None => {
                    return Err(Error::Decode);
                },
            };
            let rk = response_key_x();
            let p = match get_field(&fs, &rk) {
                Some(p) => p,
                None => {
                    return Err(Error::Decode);
                },
            };
            if !m.is_success() {
                return Err(Error::Api(m.msg));
            }
            match posts_from(p) {
                Some(v) => Ok(v),
                None => Err(Error::Decode),
            }
        },
        _ => Err(Error::Decode),
    }
}

} // verus!
