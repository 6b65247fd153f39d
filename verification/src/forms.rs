use vstd::prelude::*;
use vstd::string::StringSliceAdditionalSpecFns;
use vstd::utf8::{decode_utf8, encode_utf8, is_ascii_chars, is_ascii_chars_encode_utf8, valid_utf8};

verus! {

/// The raw subscription form record: both fields exactly as they were decoded
/// from the request body, before any domain validation.
#[derive(Debug)]
pub struct FormData {
    pub email: String,
    pub name: String,
}

/// Why a request body could not be read as a subscription form. Every variant
/// is answered with a client error.
#[derive(Clone, Copy, Debug, PartialEq, Eq, Structural)]
pub enum FormError {
    MissingEmail,
    MissingName,
    DuplicateEmail,
    DuplicateName,
}

/// An ASCII hexadecimal digit, either case.
pub open spec fn is_hex_digit(b: u8) -> bool {
    (0x30 <= b && b <= 0x39) || (0x41 <= b && b <= 0x46) || (0x61 <= b && b <= 0x66)
}

/// The value of an ASCII hexadecimal digit.
pub open spec fn hex_value(b: u8) -> u8 {
    if 0x30 <= b && b <= 0x39 {
        (b - 0x30) as u8
    } else if 0x41 <= b && b <= 0x46 {
        (b - 0x37) as u8
    } else {
        (b - 0x57) as u8
    }
}

/// URL-encoded text decoding: `+` becomes a space, a `%` followed by two
/// hexadecimal digits becomes that byte, and everything else — a stray `%`
/// included — stands unchanged.
pub open spec fn www_decode(s: Seq<u8>) -> Seq<u8>
    decreases s.len(),
{
    if s.len() == 0 {
        Seq::empty()
    } else if s[0] == 0x25 && s.len() >= 3 && is_hex_digit(s[1]) && is_hex_digit(s[2]) {
        seq![(16 * hex_value(s[1]) + hex_value(s[2])) as u8] + www_decode(s.skip(3))
    } else if s[0] == 0x2b {
        seq![0x20u8] + www_decode(s.skip(1))
    } else {
        seq![s[0]] + www_decode(s.skip(1))
    }
}

/// The first position of `b` in `s`, or `s.len()` when `s` does not hold it.
pub open spec fn find_byte(s: Seq<u8>, b: u8) -> int
    decreases s.len(),
{
    if s.len() == 0 {
        0
    } else if s[0] == b {
        0
    } else {
        1 + find_byte(s.skip(1), b)
    }
}

proof fn lemma_find_byte_bounds(s: Seq<u8>, b: u8)
    ensures
        0 <= find_byte(s, b) <= s.len(),
        find_byte(s, b) < s.len() ==> s[find_byte(s, b)] == b,
        forall|j: int| 0 <= j < find_byte(s, b) ==> s[j] != b,
    decreases s.len(),
{
    if s.len() == 0 {
    } else if s[0] == b {
    } else {
        lemma_find_byte_bounds(s.skip(1), b);
        assert forall|j: int| 0 <= j < find_byte(s, b) implies s[j] != b by {
            if j > 0 {
                assert(s.skip(1)[j - 1] == s[j]);
            }
        }
    }
}

proof fn lemma_find_byte_is(s: Seq<u8>, b: u8, m: int)
    requires
        0 <= m <= s.len(),
        forall|k: int| 0 <= k < m ==> s[k] != b,
        m < s.len() ==> s[m] == b,
    ensures
        find_byte(s, b) == m,
    decreases s.len(),
{
    if s.len() == 0 {
    } else if s[0] == b {
        assert(m == 0);
    } else {
        assert(m > 0) by {
            if m == 0 {
                assert(s[0] == b);
            }
        }
        assert forall|k: int| 0 <= k < m - 1 implies s.skip(1)[k] != b by {
            assert(s.skip(1)[k] == s[k + 1]);
        }
        if m - 1 < s.len() - 1 {
            assert(s.skip(1)[m - 1] == s[m]);
        }
        lemma_find_byte_is(s.skip(1), b, m - 1);
    }
}

/// The decoded key and value of one `&`-separated segment: the part before
/// the first `=` is the key, the part after it the value, and a segment
/// without `=` is a key with an empty value.
pub open spec fn segment_pair(seg: Seq<u8>) -> (Seq<u8>, Seq<u8>) {
    let e = find_byte(seg, 0x3d);
    if e == seg.len() {
        (www_decode(seg), Seq::<u8>::empty())
    } else {
        (www_decode(seg.take(e)), www_decode(seg.skip(e + 1)))
    }
}

/// The decoded key/value pairs of a URL-encoded form body: split on `&`,
/// empty segments skipped, each segment decoded by `segment_pair`.
pub open spec fn form_pairs(s: Seq<u8>) -> Seq<(Seq<u8>, Seq<u8>)>
    decreases s.len(),
    via form_pairs_decreases
{
    if s.len() == 0 {
        Seq::empty()
    } else {
        let a = find_byte(s, 0x26);
        let seg = s.take(a);
        let rest = if a == s.len() {
            Seq::<u8>::empty()
        } else {
            s.skip(a + 1)
        };
        (if seg.len() > 0 {
            seq![segment_pair(seg)]
        } else {
            Seq::empty()
        }) + form_pairs(rest)
    }
}

#[via_fn]
proof fn form_pairs_decreases(s: Seq<u8>) {
    if s.len() != 0 {
        lemma_find_byte_bounds(s, 0x26);
    }
}

/// How many pairs carry the key `k`.
pub open spec fn key_count(ps: Seq<(Seq<u8>, Seq<u8>)>, k: Seq<u8>) -> nat
    decreases ps.len(),
{
    if ps.len() == 0 {
        0
    } else {
        key_count(ps.drop_last(), k) + if ps.last().0 == k {
            1nat
        } else {
            0nat
        }
    }
}

proof fn lemma_key_count_step(ps: Seq<(Seq<u8>, Seq<u8>)>, k: Seq<u8>, i: int)
    requires
        0 <= i < ps.len(),
    ensures
        key_count(ps.take(i + 1), k) == key_count(ps.take(i), k) + if ps[i].0 == k {
            1nat
        } else {
            0nat
        },
{
    assert(ps.take(i + 1).drop_last() =~= ps.take(i));
    assert(ps.take(i + 1).last() == ps[i]);
}

/// The views of a vector of decoded pairs.
pub open spec fn pair_views(ps: Seq<(Vec<u8>, Vec<u8>)>) -> Seq<(Seq<u8>, Seq<u8>)> {
    ps.map_values(|p: (Vec<u8>, Vec<u8>)| (p.0@, p.1@))
}

/// The form key the email field is sent under.
pub open spec fn email_key() -> Seq<u8> {
    encode_utf8("email"@)
}

/// The form key the name field is sent under.
pub open spec fn name_key() -> Seq<u8> {
    encode_utf8("name"@)
}

/// What a byte sequence reads as when it is taken as UTF-8 with invalid
/// sequences replaced; it depends on the bytes alone.
pub uninterp spec fn utf8_lossy(b: Seq<u8>) -> Seq<char>;

/// Relies on `String::from_utf8_lossy`: valid UTF-8 decodes to exactly its
/// characters, anything else gets replacement characters in a way that
/// depends only on the bytes.
#[verifier::external_body]
fn bytes_to_string_lossy(b: Vec<u8>) -> (r: String)
    ensures
        r@ == utf8_lossy(b@),
        valid_utf8(b@) ==> r@ == decode_utf8(b@),
{
    String::from_utf8_lossy(&b).into_owned()
}

fn hex_digit(b: u8) -> (r: bool)
    ensures
        r == is_hex_digit(b),
{
    (0x30 <= b && b <= 0x39) || (0x41 <= b && b <= 0x46) || (0x61 <= b && b <= 0x66)
}

fn hex_digit_value(b: u8) -> (r: u8)
    requires
        is_hex_digit(b),
    ensures
        r == hex_value(b),
{
    if 0x30 <= b && b <= 0x39 {
        b - 0x30
    } else if 0x41 <= b && b <= 0x46 {
        b - 0x37
    } else {
        b - 0x57
    }
}

/// Decodes one URL-encoded piece of text.
fn www_decode_exec(s: &[u8]) -> (r: Vec<u8>)
    ensures
        r@ == www_decode(s@),
{
    let n = s.len();
    let mut out: Vec<u8> = Vec::new();
    let mut i: usize = 0;
    proof {
        assert(s@.skip(0) =~= s@);
        assert(out@ + www_decode(s@) =~= www_decode(s@));
    }
    while i < n
        invariant
            n == s@.len(),
            i <= n,
            out@ + www_decode(s@.skip(i as int)) == www_decode(s@),
        decreases n - i,
    {
        let ghost pre = s@.skip(i as int);
        let b = *vstd::slice::slice_index_get(s, i);
        proof {
            assert(pre[0] == s@[i as int]);
            if n - i >= 3 {
                assert(pre[1] == s@[i as int + 1]);
                assert(pre[2] == s@[i as int + 2]);
            }
        }
        if b == 0x25 && n - i >= 3 && hex_digit(*vstd::slice::slice_index_get(s, i + 1))
            && hex_digit(*vstd::slice::slice_index_get(s, i + 2)) {
            let hi = hex_digit_value(*vstd::slice::slice_index_get(s, i + 1));
            let lo = hex_digit_value(*vstd::slice::slice_index_get(s, i + 2));
            out.push(16 * hi + lo);
            proof {
                assert(pre.skip(3) =~= s@.skip(i + 3));
            }
            i += 3;
        } else if b == 0x2b {
            out.push(0x20);
            proof {
                assert(pre.skip(1) =~= s@.skip(i + 1));
            }
            i += 1;
        } else {
            out.push(b);
            proof {
                assert(pre.skip(1) =~= s@.skip(i + 1));
            }
            i += 1;
        }
    }
    proof {
        assert(s@.skip(n as int) =~= Seq::<u8>::empty());
    }
    out
}

/// Whether two byte slices hold the same bytes.
fn bytes_eq(a: &[u8], b: &[u8]) -> (r: bool)
    ensures
        r == (a@ == b@),
{
    let n = a.len();
    if n != b.len() {
        return false;
    }
    let mut i: usize = 0;
    while i < n
        invariant
            n == a@.len(),
            n == b@.len(),
            i <= n,
            forall|j: int| 0 <= j < i ==> a@[j] == b@[j],
        decreases n - i,
    {
        if *vstd::slice::slice_index_get(a, i) != *vstd::slice::slice_index_get(b, i) {
            return false;
        }
        i += 1;
    }
    proof {
        assert(a@ =~= b@);
    }
    true
}

/// Splits one segment at its first `=` and decodes both halves.
fn segment_pair_exec(seg: &[u8]) -> (r: (Vec<u8>, Vec<u8>))
    ensures
        (r.0@, r.1@) == segment_pair(seg@),
{
    let n = seg.len();
    let mut e: usize = 0;
    while e < n && *vstd::slice::slice_index_get(seg, e) != 0x3d
        invariant
            n == seg@.len(),
            e <= n,
            forall|k: int| 0 <= k < e ==> seg@[k] != 0x3d,
        decreases n - e,
    {
        e += 1;
    }
    proof {
        lemma_find_byte_is(seg@, 0x3d, e as int);
    }
    if e == n {
        let key = www_decode_exec(seg);
        (key, Vec::new())
    } else {
        let key = www_decode_exec(vstd::slice::slice_subrange(seg, 0, e));
        let value = www_decode_exec(vstd::slice::slice_subrange(seg, e + 1, n));
        proof {
            assert(seg@.subrange(0, e as int) =~= seg@.take(e as int));
            assert(seg@.subrange(e + 1, n as int) =~= seg@.skip(e + 1));
        }
        (key, value)
    }
}

/// Splits a body on `&` and decodes every non-empty segment.
fn form_pairs_exec(body: &[u8]) -> (r: Vec<(Vec<u8>, Vec<u8>)>)
    ensures
        pair_views(r@) == form_pairs(body@),
{
    let n = body.len();
    let mut pairs: Vec<(Vec<u8>, Vec<u8>)> = Vec::new();
    let mut start: usize = 0;
    proof {
        assert(body@.skip(0) =~= body@);
        assert(pair_views(pairs@) + form_pairs(body@) =~= form_pairs(body@));
    }
    while start < n
        invariant
            n == body@.len(),
            start <= n,
            pair_views(pairs@) + form_pairs(body@.skip(start as int)) == form_pairs(body@),
        decreases n - start,
    {
        let ghost pre = body@.skip(start as int);
        let ghost done = pair_views(pairs@);
        let mut j: usize = start;
        while j < n && *vstd::slice::slice_index_get(body, j) != 0x26
            invariant
                n == body@.len(),
                start <= j <= n,
                forall|k: int| start <= k < j ==> body@[k] != 0x26,
            decreases n - j,
        {
            j += 1;
        }
        let ghost a = j - start;
        let ghost segv = pre.take(a);
        let ghost restv = if a == pre.len() {
            Seq::<u8>::empty()
        } else {
            pre.skip(a + 1)
        };
        proof {
            assert forall|k: int| 0 <= k < a implies pre[k] != 0x26 by {
                assert(pre[k] == body@[start + k]);
            }
            if j < n {
                assert(pre[a] == body@[j as int]);
            }
            lemma_find_byte_is(pre, 0x26, a);
            assert(form_pairs(pre) == (if segv.len() > 0 {
                seq![segment_pair(segv)]
            } else {
                Seq::<(Seq<u8>, Seq<u8>)>::empty()
            }) + form_pairs(restv));
            assert(segv =~= body@.subrange(start as int, j as int));
        }
        if j > start {
            let seg = vstd::slice::slice_subrange(body, start, j);
            let pair = segment_pair_exec(seg);
            pairs.push(pair);
            proof {
                assert(pair_views(pairs@) =~= done + seq![segment_pair(segv)]);
                assert(done + seq![segment_pair(segv)] + form_pairs(restv) =~= done + (seq![
                    segment_pair(segv),
                ] + form_pairs(restv)));
            }
        } else {
            proof {
                assert(form_pairs(pre) == form_pairs(restv));
            }
        }
        if j == n {
            start = n;
            proof {
                assert(a == pre.len());
                assert(body@.skip(n as int) =~= Seq::<u8>::empty());
                assert(restv =~= body@.skip(n as int));
            }
        } else {
            start = j + 1;
            proof {
                assert(restv =~= body@.skip(j + 1));
            }
        }
    }
    proof {
        assert(body@.skip(n as int) =~= Seq::<u8>::empty());
        assert(pair_views(pairs@) + Seq::<(Seq<u8>, Seq<u8>)>::empty() =~= pair_views(pairs@));
    }
    pairs
}

proof fn lemma_keys_distinct()
    ensures
        email_key() != name_key(),
{
    reveal_strlit("email");
    reveal_strlit("name");
    assert(is_ascii_chars("email"@));
    assert(is_ascii_chars("name"@));
    is_ascii_chars_encode_utf8("email"@);
    is_ascii_chars_encode_utf8("name"@);
    assert(email_key().len() == 5);
    assert(name_key().len() == 4);
}

/// Reads a URL-encoded request body as a subscription form. It succeeds
/// exactly when the body carries the `email` key once and the `name` key
/// once; each field is the key's decoded value read as UTF-8 with invalid
/// sequences replaced. A missing key is reported — email first, as the form
/// record declares it — and so is a repeated one.
pub fn parse_form_body(body: &[u8]) -> (r: Result<FormData, FormError>)
    ensures
        r is Ok <==> key_count(form_pairs(body@), email_key()) == 1 && key_count(
            form_pairs(body@),
            name_key(),
        ) == 1,
        r matches Ok(fd) ==> exists|i: int|
            0 <= i < form_pairs(body@).len() && form_pairs(body@)[i].0 == email_key() && fd.email@
                == utf8_lossy(form_pairs(body@)[i].1) && (valid_utf8(form_pairs(body@)[i].1)
                ==> fd.email@ == decode_utf8(form_pairs(body@)[i].1)),
        r matches Ok(fd) ==> exists|i: int|
            0 <= i < form_pairs(body@).len() && form_pairs(body@)[i].0 == name_key() && fd.name@
                == utf8_lossy(form_pairs(body@)[i].1) && (valid_utf8(form_pairs(body@)[i].1)
                ==> fd.name@ == decode_utf8(form_pairs(body@)[i].1)),
        r matches Err(e) ==> (e is DuplicateEmail <==> key_count(form_pairs(body@), email_key())
            >= 2),
        r matches Err(e) ==> (e is DuplicateName <==> key_count(form_pairs(body@), email_key())
            <= 1 && key_count(form_pairs(body@), name_key()) >= 2),
        r matches Err(e) ==> (e is MissingEmail <==> key_count(form_pairs(body@), email_key())
            == 0 && key_count(form_pairs(body@), name_key()) <= 1),
        r matches Err(e) ==> (e is MissingName <==> key_count(form_pairs(body@), email_key()) == 1
            && key_count(form_pairs(body@), name_key()) == 0),
{
    let pairs = form_pairs_exec(body);
    let ghost ps = form_pairs(body@);
    let n = pairs.len();
    let mut email: Option<Vec<u8>> = None;
    let mut name: Option<Vec<u8>> = None;
    let mut email_count: usize = 0;
    let mut name_count: usize = 0;
    let mut i: usize = 0;
    while i < n
        invariant
            n == pairs@.len(),
            i <= n,
            pair_views(pairs@) == ps,
            email_count == key_count(ps.take(i as int), email_key()),
            name_count == key_count(ps.take(i as int), name_key()),
            email_count <= i,
            name_count <= i,
            email is Some <==> email_count >= 1,
            name is Some <==> name_count >= 1,
            email matches Some(v) ==> exists|j: int|
                0 <= j < i && ps[j].0 == email_key() && v@ == ps[j].1,
            name matches Some(v) ==> exists|j: int|
                0 <= j < i && ps[j].0 == name_key() && v@ == ps[j].1,
        decreases n - i,
    {
        let p = vstd::std_specs::vec::vec_index(&pairs, i);
        proof {
            lemma_keys_distinct();
            assert(ps[i as int] == (p.0@, p.1@));
            lemma_key_count_step(ps, email_key(), i as int);
            lemma_key_count_step(ps, name_key(), i as int);
        }
        if bytes_eq(p.0.as_slice(), "email".as_bytes()) {
            if email.is_none() {
                email = Some(vstd::slice::slice_to_vec(p.1.as_slice()));
            }
            email_count += 1;
        } else if bytes_eq(p.0.as_slice(), "name".as_bytes()) {
            if name.is_none() {
                name = Some(vstd::slice::slice_to_vec(p.1.as_slice()));
            }
            name_count += 1;
        }
        i += 1;
    }
    proof {
        assert(ps.take(n as int) =~= ps);
    }
    if email_count >= 2 {
        Err(FormError::DuplicateEmail)
    } else if name_count >= 2 {
        Err(FormError::DuplicateName)
    } else if email_count == 0 {
        Err(FormError::MissingEmail)
    } else if name_count == 0 {
        Err(FormError::MissingName)
    } else {
        let email_bytes = match email {
            Some(v) => v,
            None => {
                return Err(FormError::MissingEmail);
            },
        };
        let name_bytes = match name {
            Some(v) => v,
            None => {
                return Err(FormError::MissingName);
            },
        };
        Ok(
            FormData {
                email: bytes_to_string_lossy(email_bytes),
                name: bytes_to_string_lossy(name_bytes),
            },
        )
    }
}

} // verus!
