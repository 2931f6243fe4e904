//! The wire format of the API: JSON documents, as bytes.
//!
//! The grammar is stated as a mathematical parser over byte sequences, and
//! the executable parser is proved to return exactly what the grammar gives.
//! A number is kept as its literal bytes, so no precision is lost and no
//! floating point is needed; a string is kept as its bytes with the escape
//! sequences resolved, a `\uXXXX` escape as the UTF-8 of its scalar value.
//! A surrogate value in such an escape is not part of the grammar, nor is an
//! unescaped control byte.

use vstd::prelude::*;

verus! {

broadcast use vstd::std_specs::vec::axiom_vec_index_decreases;

/// The mathematical model of a JSON value.
pub ghost enum Json {
    Null,
    Bool(bool),
    /// The literal bytes of a number, e.g. `-12.5e3`.
    Num(Seq<u8>),
    /// The bytes of a string with escapes resolved.
    Str(Seq<u8>),
    Arr(Seq<Json>),
    /// Fields in document order; a lookup takes the first match.
    Obj(Seq<(Seq<u8>, Json)>),
}

/// JSON whitespace: space, tab, line feed, carriage return.
pub open spec fn is_ws(b: u8) -> bool {
    b == 32 || b == 9 || b == 10 || b == 13
}

/// A decimal digit.
pub open spec fn is_digit(b: u8) -> bool {
    48 <= b <= 57
}

/// The first position at or after `i` that does not hold whitespace.
pub open spec fn skip_ws(s: Seq<u8>, i: int) -> int
    decreases s.len() - i,
{
    if 0 <= i < s.len() && is_ws(s[i]) {
        skip_ws(s, i + 1)
    } else {
        i
    }
}

/// The first position at or after `i` that does not hold a digit.
pub open spec fn digit_end(s: Seq<u8>, i: int) -> int
    decreases s.len() - i,
{
    if 0 <= i < s.len() && is_digit(s[i]) {
        digit_end(s, i + 1)
    } else {
        i
    }
}

/// What a string escape character stands for, if it is one.
pub open spec fn esc(b: u8) -> Option<u8> {
    if b == 34 {
        Some(34u8)  // "
    } else if b == 92 {
        Some(92u8)  // \
    } else if b == 47 {
        Some(47u8)  // /
    } else if b == 98 {
        Some(8u8)  // backspace
    } else if b == 102 {
        Some(12u8)  // form feed
    } else if b == 110 {
        Some(10u8)  // line feed
    } else if b == 114 {
        Some(13u8)  // carriage return
    } else if b == 116 {
        Some(9u8)  // tab
    } else {
        None
    }
}

/// The value of a hexadecimal digit, either case.
pub open spec fn hex_val(b: u8) -> Option<u8> {
    if 48 <= b <= 57 {
        Some((b - 48) as u8)
    } else if 65 <= b <= 70 {
        Some((b - 55) as u8)
    } else if 97 <= b <= 102 {
        Some((b - 87) as u8)
    } else {
        None
    }
}

/// The UTF-8 encoding of a scalar value.
pub open spec fn utf8_of(cp: int) -> Seq<u8> {
    if cp < 0x80 {
        seq![cp as u8]
    } else if cp < 0x800 {
        seq![(192 + cp / 64) as u8, (128 + cp % 64) as u8]
    } else if cp < 0x10000 {
        seq![(224 + cp / 4096) as u8, (128 + (cp / 64) % 64) as u8, (128 + cp % 64) as u8]
    } else {
        seq![
            (240 + cp / 262144) as u8,
            (128 + (cp / 4096) % 64) as u8,
            (128 + (cp / 64) % 64) as u8,
            (128 + cp % 64) as u8,
        ]
    }
}

/// Parse the body of a string from position `i` (just past the opening
/// quote), accumulating the resolved bytes onto `acc`; on success the
/// result holds the full contents and the position just past the closing
/// quote. A `\uXXXX` escape stands for a scalar value of the basic plane,
/// kept as UTF-8; a surrogate value there has no place in the grammar.
pub open spec fn str_body(s: Seq<u8>, i: int, acc: Seq<u8>) -> Option<(Seq<u8>, int)>
    decreases s.len() - i,
{
    if !(0 <= i < s.len()) {
        None
    } else if s[i] == 34 {
        Some((acc, i + 1))
    } else if s[i] == 92 {
        if i + 1 < s.len() {
            if s[i + 1] == 117 {  // u
                if i + 5 < s.len() {
                    match (hex_val(s[i + 2]), hex_val(s[i + 3]), hex_val(s[i + 4]), hex_val(
                        s[i + 5],
                    )) {
                        (Some(h0), Some(h1), Some(h2), Some(h3)) => {
                            let cp = 4096 * h0 + 256 * h1 + 16 * h2 + h3;
                            if 0xDC00 <= cp <= 0xDFFF {
                                None
                            } else if 0xD800 <= cp <= 0xDBFF {
                                // a high surrogate must pair with a low one
                                if i + 11 < s.len() && s[i + 6] == 92 && s[i + 7] == 117 {
                                    match (hex_val(s[i + 8]), hex_val(s[i + 9]), hex_val(
                                        s[i + 10],
                                    ), hex_val(s[i + 11])) {
                                        (Some(g0), Some(g1), Some(g2), Some(g3)) => {
                                            let lo = 4096 * g0 + 256 * g1 + 16 * g2 + g3;
                                            if 0xDC00 <= lo <= 0xDFFF {
                                                let scalar = 0x10000 + (cp - 0xD800) * 1024 + (lo
                                                    - 0xDC00);
                                                str_body(s, i + 12, acc + utf8_of(scalar))
                                            } else {
                                                None
                                            }
                                        },
                                        _ => None,
                                    }
                                } else {
                                    None
                                }
                            } else {
                                str_body(s, i + 6, acc + utf8_of(cp))
                            }
                        },
                        _ => None,
                    }
                } else {
                    None
                }
            } else {
                match esc(s[i + 1]) {
                    Some(b) => str_body(s, i + 2, acc.push(b)),
                    None => None,
                }
            }
        } else {
            None
        }
    } else if s[i] >= 32 {
        str_body(s, i + 1, acc.push(s[i]))
    } else {
        None
    }
}

/// The end of the integer part of a number starting at `i`: an optional
/// minus sign, then either a single zero or a non-zero digit run.
pub open spec fn num_int_end(s: Seq<u8>, i: int) -> Option<int> {
    let p = if 0 <= i < s.len() && s[i] == 45 {
        i + 1
    } else {
        i
    };
    if 0 <= p < s.len() && is_digit(s[p]) {
        if s[p] == 48 {
            Some(p + 1)
        } else {
            Some(digit_end(s, p))
        }
    } else {
        None
    }
}

/// The end of the optional fraction part starting at `q`.
pub open spec fn num_frac_end(s: Seq<u8>, q: int) -> Option<int> {
    if 0 <= q < s.len() && s[q] == 46 {
        let e = digit_end(s, q + 1);
        if e > q + 1 {
            Some(e)
        } else {
            None
        }
    } else {
        Some(q)
    }
}

/// The end of the optional exponent part starting at `q`.
pub open spec fn num_exp_end(s: Seq<u8>, q: int) -> Option<int> {
    if 0 <= q < s.len() && (s[q] == 101 || s[q] == 69) {
        let p = if q + 1 < s.len() && (s[q + 1] == 43 || s[q + 1] == 45) {
            q + 2
        } else {
            q + 1
        };
        let e = digit_end(s, p);
        if e > p {
            Some(e)
        } else {
            None
        }
    } else {
        Some(q)
    }
}

/// The end of a number literal starting at `i`, if the bytes there follow
/// the JSON number grammar.
pub open spec fn num_end(s: Seq<u8>, i: int) -> Option<int> {
    match num_int_end(s, i) {
        Some(q) => match num_frac_end(s, q) {
            Some(r) => num_exp_end(s, r),
            None => None,
        },
        None => None,
    }
}

/// Parse one JSON value starting at `i` (no leading whitespace); on success
/// the result holds the value and the position just past it.
pub open spec fn parse_val(s: Seq<u8>, i: int) -> Option<(Json, int)>
    decreases s.len() - i, 0int,
{
    if !(0 <= i < s.len()) {
        None
    } else {
        let b = s[i];
        if b == 123 {  // {
            let k = skip_ws(s, i + 1);
            if !(i + 1 <= k <= s.len()) {
                None
            } else if k < s.len() && s[k] == 125 {
                Some((Json::Obj(Seq::empty()), k + 1))
            } else {
                match parse_membs(s, i + 1, Seq::empty()) {
                    Some((fs, j)) => Some((Json::Obj(fs), j)),
                    None => None,
                }
            }
        } else if b == 91 {  // [
            let k = skip_ws(s, i + 1);
            if !(i + 1 <= k <= s.len()) {
                None
            } else if k < s.len() && s[k] == 93 {
                Some((Json::Arr(Seq::empty()), k + 1))
            } else {
                match parse_elems(s, i + 1, Seq::empty()) {
                    Some((es, j)) => Some((Json::Arr(es), j)),
                    None => None,
                }
            }
        } else if b == 34 {  // "
            match str_body(s, i + 1, Seq::empty()) {
                Some((cs, j)) => Some((Json::Str(cs), j)),
                None => None,
            }
        } else if b == 116 {  // t
            if i + 3 < s.len() && s[i + 1] == 114 && s[i + 2] == 117 && s[i + 3] == 101 {
                Some((Json::Bool(true), i + 4))
            } else {
                None
            }
        } else if b == 102 {  // f
            if i + 4 < s.len() && s[i + 1] == 97 && s[i + 2] == 108 && s[i + 3] == 115 && s[i + 4]
                == 101 {
                Some((Json::Bool(false), i + 5))
            } else {
                None
            }
        } else if b == 110 {  // n
            if i + 3 < s.len() && s[i + 1] == 117 && s[i + 2] == 108 && s[i + 3] == 108 {
                Some((Json::Null, i + 4))
            } else {
                None
            }
        } else if b == 45 || is_digit(b) {
            match num_end(s, i) {
                Some(j) => Some((Json::Num(s.subrange(i, j)), j)),
                None => None,
            }
        } else {
            None
        }
    }
}

/// Parse the elements of an array from `i` (just past `[` or a comma),
/// accumulating onto `acc`: whitespace, one value, then either a comma and
/// more elements or the closing bracket.
pub open spec fn parse_elems(s: Seq<u8>, i: int, acc: Seq<Json>) -> Option<(Seq<Json>, int)>
    decreases s.len() - i, 1int,
{
    if !(0 <= i <= s.len()) {
        None
    } else {
        let k = skip_ws(s, i);
        if !(i <= k <= s.len()) {
            None
        } else {
            match parse_val(s, k) {
                Some((v, j)) => if k < j <= s.len() {
                    parse_more_elems(s, j, acc.push(v))
                } else {
                    None
                },
                None => None,
            }
        }
    }
}

/// After an array element: whitespace, then a comma and more elements, or
/// the closing bracket.
pub open spec fn parse_more_elems(s: Seq<u8>, i: int, acc: Seq<Json>) -> Option<(Seq<Json>, int)>
    decreases s.len() - i, 2int,
{
    if !(0 <= i <= s.len()) {
        None
    } else {
        let m = skip_ws(s, i);
        if !(i <= m < s.len()) {
            None
        } else if s[m] == 44 {  // ,
            parse_elems(s, m + 1, acc)
        } else if s[m] == 93 {  // ]
            Some((acc, m + 1))
        } else {
            None
        }
    }
}

/// Parse the members of an object from `i` (just past `{` or a comma),
/// accumulating onto `acc`: whitespace, a string key, a colon, a value,
/// then either a comma and more members or the closing brace.
pub open spec fn parse_membs(s: Seq<u8>, i: int, acc: Seq<(Seq<u8>, Json)>) -> Option<
    (Seq<(Seq<u8>, Json)>, int),
>
    decreases s.len() - i, 1int,
{
    if !(0 <= i <= s.len()) {
        None
    } else {
        let k = skip_ws(s, i);
        if !(i <= k < s.len()) {
            None
        } else if s[k] != 34 {
            None
        } else {
            match str_body(s, k + 1, Seq::empty()) {
                Some((key, j1)) => if k + 1 <= j1 <= s.len() {
                    let m = skip_ws(s, j1);
                    if !(j1 <= m < s.len()) {
                        None
                    } else if s[m] != 58 {  // :
                        None
                    } else {
                        let w = skip_ws(s, m + 1);
                        if !(m + 1 <= w <= s.len()) {
                            None
                        } else {
                            match parse_val(s, w) {
                                Some((v, j2)) => if w < j2 <= s.len() {
                                    parse_more_membs(s, j2, acc.push((key, v)))
                                } else {
                                    None
                                },
                                None => None,
                            }
                        }
                    }
                } else {
                    None
                },
                None => None,
            }
        }
    }
}

/// After an object member: whitespace, then a comma and more members, or
/// the closing brace.
pub open spec fn parse_more_membs(s: Seq<u8>, i: int, acc: Seq<(Seq<u8>, Json)>) -> Option<
    (Seq<(Seq<u8>, Json)>, int),
>
    decreases s.len() - i, 2int,
{
    if !(0 <= i <= s.len()) {
        None
    } else {
        let m = skip_ws(s, i);
        if !(i <= m < s.len()) {
            None
        } else if s[m] == 44 {  // ,
            parse_membs(s, m + 1, acc)
        } else if s[m] == 125 {  // }
            Some((acc, m + 1))
        } else {
            None
        }
    }
}

/// A parsed JSON value.
pub enum JsonValue {
    Null,
    Bool(bool),
    /// The literal bytes of a number.
    Num(Vec<u8>),
    /// The bytes of a string with escapes resolved.
    Str(Vec<u8>),
    Arr(Vec<JsonValue>),
    /// Fields in document order.
    Obj(Vec<(Vec<u8>, JsonValue)>),
}

/// The mathematical value a parsed value stands for.
pub open spec fn jview(v: JsonValue) -> Json
    decreases v, 0int,
{
    match v {
        JsonValue::Null => Json::Null,
        JsonValue::Bool(b) => Json::Bool(b),
        JsonValue::Num(n) => Json::Num(n@),
        JsonValue::Str(st) => Json::Str(st@),
        JsonValue::Arr(a) => Json::Arr(jview_arr(a, a.len() as int)),
        JsonValue::Obj(o) => Json::Obj(jview_obj(o, o.len() as int)),
    }
}

/// The models of the first `n` elements of an array.
pub open spec fn jview_arr(a: Vec<JsonValue>, n: int) -> Seq<Json>
    decreases a, n,
{
    if !(1 <= n <= a.len()) {
        Seq::empty()
    } else {
        jview_arr(a, n - 1).push(jview(a[n - 1]))
    }
}

/// The models of the first `n` fields of an object.
pub open spec fn jview_obj(o: Vec<(Vec<u8>, JsonValue)>, n: int) -> Seq<(Seq<u8>, Json)>
    decreases o, n,
{
    if !(1 <= n <= o.len()) {
        Seq::empty()
    } else {
        jview_obj(o, n - 1).push((o[n - 1].0@, jview(o[n - 1].1)))
    }
}

/// The models of all elements of an array.
pub open spec fn jvec(a: Vec<JsonValue>) -> Seq<Json> {
    jview_arr(a, a.len() as int)
}

/// The models of all fields of an object.
pub open spec fn jobj(o: Vec<(Vec<u8>, JsonValue)>) -> Seq<(Seq<u8>, Json)> {
    jview_obj(o, o.len() as int)
}

proof fn lemma_jview_arr_prefix(a: Vec<JsonValue>, b: Vec<JsonValue>, n: int)
    requires
        0 <= n <= a.len(),
        n <= b.len(),
        forall|i: int| 0 <= i < n ==> a[i] == b[i],
    ensures
        jview_arr(a, n) == jview_arr(b, n),
    decreases n,
{
    if n > 0 {
        lemma_jview_arr_prefix(a, b, n - 1);
    }
}

proof fn lemma_jview_obj_prefix(a: Vec<(Vec<u8>, JsonValue)>, b: Vec<(Vec<u8>, JsonValue)>, n: int)
    requires
        0 <= n <= a.len(),
        n <= b.len(),
        forall|i: int| 0 <= i < n ==> a[i] == b[i],
    ensures
        jview_obj(a, n) == jview_obj(b, n),
    decreases n,
{
    if n > 0 {
        lemma_jview_obj_prefix(a, b, n - 1);
    }
}

/// Pushing an element extends the model by its view.
proof fn lemma_jvec_push(a: Vec<JsonValue>, b: Vec<JsonValue>, v: JsonValue)
    requires
        b@ == a@.push(v),
    ensures
        jvec(b) == jvec(a).push(jview(v)),
{
    lemma_jview_arr_prefix(b, a, a.len() as int);
    assert(b[b.len() - 1] == v);
}

/// Pushing a field extends the model by its view.
proof fn lemma_jobj_push(a: Vec<(Vec<u8>, JsonValue)>, b: Vec<(Vec<u8>, JsonValue)>, k: Vec<u8>, v: JsonValue)
    requires
        b@ == a@.push((k, v)),
    ensures
        jobj(b) == jobj(a).push((k@, jview(v))),
{
    lemma_jview_obj_prefix(b, a, a.len() as int);
    assert(b[b.len() - 1] == (k, v));
}

proof fn lemma_jview_arr_props(a: Vec<JsonValue>, n: int)
    requires
        0 <= n <= a.len(),
    ensures
        jview_arr(a, n).len() == n,
        forall|i: int| 0 <= i < n ==> jview_arr(a, n)[i] == jview(a[i]),
    decreases n,
{
    if n > 0 {
        lemma_jview_arr_props(a, n - 1);
    }
}

proof fn lemma_jview_obj_props(o: Vec<(Vec<u8>, JsonValue)>, n: int)
    requires
        0 <= n <= o.len(),
    ensures
        jview_obj(o, n).len() == n,
        forall|i: int| 0 <= i < n ==> jview_obj(o, n)[i] == (o[i].0@, jview(o[i].1)),
    decreases n,
{
    if n > 0 {
        lemma_jview_obj_props(o, n - 1);
    }
}

/// The model of an array has one entry per element, the element's view.
pub proof fn lemma_jvec_index(a: Vec<JsonValue>)
    ensures
        jvec(a).len() == a.len(),
        forall|i: int| 0 <= i < a.len() ==> jvec(a)[i] == jview(a[i]),
{
    lemma_jview_arr_props(a, a.len() as int);
}

/// The model of an object has one entry per field: the key's bytes and the
/// value's view.
pub proof fn lemma_jobj_index(o: Vec<(Vec<u8>, JsonValue)>)
    ensures
        jobj(o).len() == o.len(),
        forall|i: int| 0 <= i < o.len() ==> jobj(o)[i] == (o[i].0@, jview(o[i].1)),
{
    lemma_jview_obj_props(o, o.len() as int);
}

fn is_ws_x(b: u8) -> (r: bool)
    ensures
        r == is_ws(b),
{
    b == 32 || b == 9 || b == 10 || b == 13
}

fn is_digit_x(b: u8) -> (r: bool)
    ensures
        r == is_digit(b),
{
    48 <= b && b <= 57
}

fn skip_ws_x(s: &[u8], i: usize) -> (r: usize)
    requires
        i <= s.len(),
    ensures
        r == skip_ws(s@, i as int),
        i <= r <= s.len(),
{
    let mut j = i;
    while j < s.len() && is_ws_x(s[j])
        invariant
            i <= j <= s.len(),
            skip_ws(s@, i as int) == skip_ws(s@, j as int),
        decreases s.len() - j,
    {
        j = j + 1;
    }
    j
}

fn digit_end_x(s: &[u8], i: usize) -> (r: usize)
    requires
        i <= s.len(),
    ensures
        r == digit_end(s@, i as int),
        i <= r <= s.len(),
{
    let mut j = i;
    while j < s.len() && is_digit_x(s[j])
        invariant
            i <= j <= s.len(),
            digit_end(s@, i as int) == digit_end(s@, j as int),
        decreases s.len() - j,
    {
        j = j + 1;
    }
    j
}

fn hex_val_x(b: u8) -> (r: Option<u8>)
    ensures
        r == hex_val(b),
{
    if 48 <= b && b <= 57 {
        Some(b - 48)
    } else if 65 <= b && b <= 70 {
        Some(b - 55)
    } else if 97 <= b && b <= 102 {
        Some(b - 87)
    } else {
        None
    }
}

fn esc_x(b: u8) -> (r: Option<u8>)
    ensures
        r == esc(b),
{
    if b == 34 {
        Some(34)
    } else if b == 92 {
        Some(92)
    } else if b == 47 {
        Some(47)
    } else if b == 98 {
        Some(8)
    } else if b == 102 {
        Some(12)
    } else if b == 110 {
        Some(10)
    } else if b == 114 {
        Some(13)
    } else if b == 116 {
        Some(9)
    } else {
        None
    }
}

#[verifier::rlimit(60)]
fn str_body_x(s: &[u8], i: usize) -> (r: Option<(Vec<u8>, usize)>)
    requires
        i <= s.len(),
    ensures
        match r {
            Some((v, j)) => str_body(s@, i as int, Seq::empty()) == Some((v@, j as int)) && i < j
                <= s.len(),
            None => str_body(s@, i as int, Seq::empty()) is None,
        },
{
    let mut acc: Vec<u8> = Vec::new();
    let mut j = i;
    loop
        invariant
            i <= j <= s.len(),
            str_body(s@, i as int, Seq::empty()) == str_body(s@, j as int, acc@),
        decreases s.len() - j,
    {
        if j >= s.len() {
            return None;
        }
        let b = s[j];
        if b == 34 {
            return Some((acc, j + 1));
        } else if b == 92 {
            if j + 1 >= s.len() {
                return None;
            }
            if s[j + 1] == 117 {
                if s.len() - j <= 5 {
                    return None;
                }
                let h0 = match hex_val_x(s[j + 2]) {
                    Some(h) => h,
                    None => {
                        return None;
                    },
                };
                let h1 = match hex_val_x(s[j + 3]) {
                    Some(h) => h,
                    None => {
                        return None;
                    },
                };
                let h2 = match hex_val_x(s[j + 4]) {
                    Some(h) => h,
                    None => {
                        return None;
                    },
                };
                let h3 = match hex_val_x(s[j + 5]) {
                    Some(h) => h,
                    None => {
                        return None;
                    },
                };
                let cp: u32 = 4096 * (h0 as u32) + 256 * (h1 as u32) + 16 * (h2 as u32) + (
                h3 as u32);
                if 0xDC00 <= cp && cp <= 0xDFFF {
                    return None;
                }
                if 0xD800 <= cp && cp <= 0xDBFF {
                    if !(s.len() - j > 11 && s[j + 6] == 92 && s[j + 7] == 117) {
                        return None;
                    }
                    let g0 = match hex_val_x(s[j + 8]) {
                        Some(h) => h,
                        None => {
                            return None;
                        },
                    };
                    let g1 = match hex_val_x(s[j + 9]) {
                        Some(h) => h,
                        None => {
                            return None;
                        },
                    };
                    let g2 = match hex_val_x(s[j + 10]) {
                        Some(h) => h,
                        None => {
                            return None;
                        },
                    };
                    let g3 = match hex_val_x(s[j + 11]) {
                        Some(h) => h,
                        None => {
                            return None;
                        },
                    };
                    let lo: u32 = 4096 * (g0 as u32) + 256 * (g1 as u32) + 16 * (g2 as u32) + (
                    g3 as u32);
                    if !(0xDC00 <= lo && lo <= 0xDFFF) {
                        return None;
                    }
                    let scalar: u32 = 0x10000 + (cp - 0xD800) * 1024 + (lo - 0xDC00);
                    let ghost acc0 = acc@;
                    acc.push((240 + scalar / 262144) as u8);
                    acc.push((128 + (scalar / 4096) % 64) as u8);
                    acc.push((128 + (scalar / 64) % 64) as u8);
                    acc.push((128 + scalar % 64) as u8);
                    proof {
                        assert(acc@ =~= acc0 + utf8_of(scalar as int));
                    }
                    j = j + 12;
                } else {
                    let ghost acc0 = acc@;
                    if cp < 0x80 {
                        acc.push(cp as u8);
                    } else if cp < 0x800 {
                        acc.push((192 + cp / 64) as u8);
                        acc.push((128 + cp % 64) as u8);
                    } else {
                        acc.push((224 + cp / 4096) as u8);
                        acc.push((128 + (cp / 64) % 64) as u8);
                        acc.push((128 + cp % 64) as u8);
                    }
                    proof {
                        assert(acc@ =~= acc0 + utf8_of(cp as int));
                    }
                    j = j + 6;
                }
            } else {
                match esc_x(s[j + 1]) {
                    Some(e) => {
                        acc.push(e);
                        j = j + 2;
                    },
                    None => {
                        return None;
                    },
                }
            }
        } else if b >= 32 {
            acc.push(b);
            j = j + 1;
        } else {
            return None;
        }
    }
}

fn num_end_x(s: &[u8], i: usize) -> (r: Option<usize>)
    requires
        i < s.len(),
    ensures
        match r {
            Some(j) => num_end(s@, i as int) == Some(j as int) && i < j <= s.len(),
            None => num_end(s@, i as int) is None,
        },
{
    let p = if s[i] == 45 {
        i + 1
    } else {
        i
    };
    if !(p < s.len() && is_digit_x(s[p])) {
        return None;
    }
    let q = if s[p] == 48 {
        p + 1
    } else {
        let q0 = digit_end_x(s, p + 1);
        proof {
            assert(digit_end(s@, p as int) == digit_end(s@, p as int + 1));
        }
        q0
    };
    // fraction part
    let r1 = if q < s.len() && s[q] == 46 {
        let e = digit_end_x(s, q + 1);
        if e > q + 1 {
            e
        } else {
            return None;
        }
    } else {
        q
    };
    // exponent part
    if r1 < s.len() && (s[r1] == 101 || s[r1] == 69) {
        let p2 = if r1 + 1 < s.len() && (s[r1 + 1] == 43 || s[r1 + 1] == 45) {
            r1 + 2
        } else {
            r1 + 1
        };
        let e = digit_end_x(s, p2);
        if e > p2 {
            Some(e)
        } else {
            None
        }
    } else {
        Some(r1)
    }
}

/// The bytes of `s` from `i` up to `j`.
fn copy_range(s: &[u8], i: usize, j: usize) -> (r: Vec<u8>)
    requires
        i <= j <= s.len(),
    ensures
        r@ == s@.subrange(i as int, j as int),
{
    let mut v: Vec<u8> = Vec::new();
    let mut k = i;
    while k < j
        invariant
            i <= k <= j <= s.len(),
            v@ == s@.subrange(i as int, k as int),
        decreases j - k,
    {
        v.push(s[k]);
        proof {
            assert(v@ =~= s@.subrange(i as int, k + 1));
        }
        k = k + 1;
    }
    v
}

/// Parse one JSON value starting at `i`; returns exactly what the grammar
/// gives there.
fn parse_val_x(s: &[u8], i: usize) -> (r: Option<(JsonValue, usize)>)
    requires
        i <= s.len(),
    ensures
        match r {
            Some((v, j)) => parse_val(s@, i as int) == Some((jview(v), j as int)) && i < j
                <= s.len(),
            None => parse_val(s@, i as int) is None,
        },
    decreases s.len() - i, 0int,
{
    if i >= s.len() {
        return None;
    }
    let b = s[i];
    if b == 123 {
        let k = skip_ws_x(s, i + 1);
        if k < s.len() && s[k] == 125 {
            let r = JsonValue::Obj(Vec::new());
            proof {
                assert(jview(r) == Json::Obj(Seq::<(Seq<u8>, Json)>::empty()));
            }
            Some((r, k + 1))
        } else {
            match parse_membs_x(s, i + 1, Vec::new()) {
                Some((fields, j)) => Some((JsonValue::Obj(fields), j)),
                None => None,
            }
        }
    } else if b == 91 {
        let k = skip_ws_x(s, i + 1);
        if k < s.len() && s[k] == 93 {
            let r = JsonValue::Arr(Vec::new());
            proof {
                assert(jview(r) == Json::Arr(Seq::<Json>::empty()));
            }
            Some((r, k + 1))
        } else {
            match parse_elems_x(s, i + 1, Vec::new()) {
                Some((es, j)) => Some((JsonValue::Arr(es), j)),
                None => None,
            }
        }
    } else if b == 34 {
        match str_body_x(s, i + 1) {
            Some((cs, j)) => Some((JsonValue::Str(cs), j)),
            None => None,
        }
    } else if b == 116 {
        if s.len() - i > 3 && s[i + 1] == 114 && s[i + 2] == 117 && s[i + 3] == 101 {
            Some((JsonValue::Bool(true), i + 4))
        } else {
            None
        }
    } else if b == 102 {
        if s.len() - i > 4 && s[i + 1] == 97 && s[i + 2] == 108 && s[i + 3] == 115 && s[i + 4]
            == 101 {
            Some((JsonValue::Bool(false), i + 5))
        } else {
            None
        }
    } else if b == 110 {
        if s.len() - i > 3 && s[i + 1] == 117 && s[i + 2] == 108 && s[i + 3] == 108 {
            Some((JsonValue::Null, i + 4))
        } else {
            None
        }
    } else if b == 45 || is_digit_x(b) {
        match num_end_x(s, i) {
            Some(j) => Some((JsonValue::Num(copy_range(s, i, j)), j)),
            None => None,
        }
    } else {
        None
    }
}

fn parse_elems_x(s: &[u8], i: usize, acc: Vec<JsonValue>) -> (r: Option<(Vec<JsonValue>, usize)>)
    requires
        i <= s.len(),
    ensures
        match r {
            Some((es, j)) => parse_elems(s@, i as int, jvec(acc)) == Some((jvec(es), j as int))
                && i < j <= s.len(),
            None => parse_elems(s@, i as int, jvec(acc)) is None,
        },
    decreases s.len() - i, 1int,
{
    let k = skip_ws_x(s, i);
    match parse_val_x(s, k) {
        Some((v, j)) => {
            let ghost acc0 = acc;
            let mut acc2 = acc;
            let ghost gv = v;
            acc2.push(v);
            proof {
                lemma_jvec_push(acc0, acc2, gv);
            }
            parse_more_elems_x(s, j, acc2)
        },
        None => None,
    }
}

fn parse_more_elems_x(s: &[u8], i: usize, acc: Vec<JsonValue>) -> (r: Option<
    (Vec<JsonValue>, usize),
>)
    requires
        i <= s.len(),
    ensures
        match r {
            Some((es, j)) => parse_more_elems(s@, i as int, jvec(acc)) == Some(
                (jvec(es), j as int),
            ) && i < j <= s.len(),
            None => parse_more_elems(s@, i as int, jvec(acc)) is None,
        },
    decreases s.len() - i, 2int,
{
    let m = skip_ws_x(s, i);
    if m >= s.len() {
        return None;
    }
    if s[m] == 44 {
        parse_elems_x(s, m + 1, acc)
    } else if s[m] == 93 {
        Some((acc, m + 1))
    } else {
        None
    }
}

fn parse_membs_x(s: &[u8], i: usize, acc: Vec<(Vec<u8>, JsonValue)>) -> (r: Option<
    (Vec<(Vec<u8>, JsonValue)>, usize),
>)
    requires
        i <= s.len(),
    ensures
        match r {
            Some((fs, j)) => parse_membs(s@, i as int, jobj(acc)) == Some((jobj(fs), j as int))
                && i < j <= s.len(),
            None => parse_membs(s@, i as int, jobj(acc)) is None,
        },
    decreases s.len() - i, 1int,
{
    let k = skip_ws_x(s, i);
    if k >= s.len() {
        return None;
    }
    if s[k] != 34 {
        return None;
    }
    match str_body_x(s, k + 1) {
        Some((key, j1)) => {
            let m = skip_ws_x(s, j1);
            if m >= s.len() {
                return None;
            }
            if s[m] != 58 {
                return None;
            }
            let w = skip_ws_x(s, m + 1);
            match parse_val_x(s, w) {
                Some((v, j2)) => {
                    let ghost acc0 = acc;
                    let ghost gk = key;
                    let ghost gv = v;
                    let mut acc2 = acc;
                    acc2.push((key, v));
                    proof {
                        lemma_jobj_push(acc0, acc2, gk, gv);
                    }
                    parse_more_membs_x(s, j2, acc2)
                },
                None => None,
            }
        },
        None => None,
    }
}

fn parse_more_membs_x(s: &[u8], i: usize, acc: Vec<(Vec<u8>, JsonValue)>) -> (r: Option<
    (Vec<(Vec<u8>, JsonValue)>, usize),
>)
    requires
        i <= s.len(),
    ensures
        match r {
            Some((fs, j)) => parse_more_membs(s@, i as int, jobj(acc)) == Some(
                (jobj(fs), j as int),
            ) && i < j <= s.len(),
            None => parse_more_membs(s@, i as int, jobj(acc)) is None,
        },
    decreases s.len() - i, 2int,
{
    let m = skip_ws_x(s, i);
    if m >= s.len() {
        return None;
    }
    if s[m] == 44 {
        parse_membs_x(s, m + 1, acc)
    } else if s[m] == 125 {
        Some((acc, m + 1))
    } else {
        None
    }
}

/// Parse a whole document; returns exactly what the grammar gives.
pub fn parse_doc_x(s: &[u8]) -> (r: Option<JsonValue>)
    ensures
        match r {
            Some(v) => parse_doc(s@) == Some(jview(v)),
            None => parse_doc(s@) is None,
        },
{
    let i = skip_ws_x(s, 0);
    match parse_val_x(s, i) {
        Some((v, j)) => {
            let t = skip_ws_x(s, j);
            if t == s.len() {
                Some(v)
            } else {
                None
            }
        },
        None => None,
    }
}

/// Parse a whole document: one value surrounded by whitespace, with
/// nothing after it.
pub open spec fn parse_doc(s: Seq<u8>) -> Option<Json> {
    let i = skip_ws(s, 0);
    if !(0 <= i <= s.len()) {
        None
    } else {
        match parse_val(s, i) {
            Some((v, j)) => if 0 <= j <= s.len() && skip_ws(s, j) == s.len() {
                Some(v)
            } else {
                None
            },
            None => None,
        }
    }
}

} // verus!
