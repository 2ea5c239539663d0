use vstd::prelude::*;

verus! {

/// Relies on `String`'s `FromIterator<char>` impl: collecting a sequence of
/// chars yields a string of exactly those chars.
#[verifier::external_body]
pub fn chars_to_string(v: &Vec<char>) -> (s: String)
    ensures
        s@ == v@,
{
    v.iter().collect()
}

/// ASCII lowercasing of a single character, the case rule that the
/// storage engine's `LIKE` also applies.
pub open spec fn lower_char(c: char) -> char {
    if 'A' <= c && c <= 'Z' {
        ((c as u32) + 32) as char
    } else {
        c
    }
}

/// A whole sequence, lowercased character by character.
pub open spec fn lower_of(s: Seq<char>) -> Seq<char> {
    s.map_values(|c: char| lower_char(c))
}

pub fn lower_char_exec(c: char) -> (r: char)
    ensures
        r == lower_char(c),
{
    if 'A' <= c && c <= 'Z' {
        let b: u8 = (c as u8) + 32;
        b as char
    } else {
        c
    }
}

/// Lowercases a string character by character.
pub fn lower_str(s: &str) -> (r: String)
    ensures
        r@ == lower_of(s@),
{
    let n = s.unicode_len();
    let mut out: Vec<char> = Vec::new();
    for i in 0..n
        invariant
            n == s@.len(),
            out@ == lower_of(s@.take(i as int)),
    {
        let c = lower_char_exec(s.get_char(i));
        out.push(c);
        proof {
            assert(lower_of(s@.take(i + 1)) =~= lower_of(s@.take(i as int)).push(
                lower_char(s@[i as int]),
            ));
        }
    }
    proof {
        assert(s@.take(n as int) =~= s@);
    }
    chars_to_string(&out)
}

/// The slug image of one character: spaces become hyphens, upper case
/// becomes lower case.
pub open spec fn slug_char(c: char) -> char {
    if c == ' ' {
        '-'
    } else {
        lower_char(c)
    }
}

/// The slug of a category name: lower-cased, spaces turned into hyphens.
pub open spec fn slug_of(s: Seq<char>) -> Seq<char> {
    s.map_values(|c: char| slug_char(c))
}

/// The slug of a definition name: as [`slug_of`], with parentheses dropped.
pub open spec fn def_slug_of(s: Seq<char>) -> Seq<char>
    decreases s.len(),
{
    if s.len() == 0 {
        Seq::empty()
    } else {
        let rest = def_slug_of(s.drop_last());
        if s.last() == '(' || s.last() == ')' {
            rest
        } else {
            rest.push(slug_char(s.last()))
        }
    }
}

pub fn slug_char_exec(c: char) -> (r: char)
    ensures
        r == slug_char(c),
{
    if c == ' ' {
        '-'
    } else {
        lower_char_exec(c)
    }
}

/// Derives the id of a user-created category from its name.
pub fn slugify(name: &str) -> (r: String)
    ensures
        r@ == slug_of(name@),
{
    let n = name.unicode_len();
    let mut out: Vec<char> = Vec::new();
    for i in 0..n
        invariant
            n == name@.len(),
            out@ == slug_of(name@.take(i as int)),
    {
        let c = slug_char_exec(name.get_char(i));
        out.push(c);
        proof {
            assert(slug_of(name@.take(i + 1)) =~= slug_of(name@.take(i as int)).push(
                slug_char(name@[i as int]),
            ));
        }
    }
    proof {
        assert(name@.take(n as int) =~= name@);
    }
    chars_to_string(&out)
}

/// Derives the id of a user-created definition from its name.
pub fn slugify_def(name: &str) -> (r: String)
    ensures
        r@ == def_slug_of(name@),
{
    let n = name.unicode_len();
    let mut out: Vec<char> = Vec::new();
    for i in 0..n
        invariant
            n == name@.len(),
            out@ == def_slug_of(name@.take(i as int)),
    {
        let c = name.get_char(i);
        proof {
            assert(name@.take(i + 1).drop_last() =~= name@.take(i as int));
        }
        if !(c == '(' || c == ')') {
            let d = slug_char_exec(c);
            out.push(d);
        }
    }
    proof {
        assert(name@.take(n as int) =~= name@);
    }
    chars_to_string(&out)
}

/// Whether two strings hold exactly the same characters.
pub fn str_eq(a: &str, b: &str) -> (r: bool)
    ensures
        r == (a@ == b@),
{
    let alen = a.unicode_len();
    let blen = b.unicode_len();
    if alen != blen {
        return false;
    }
    for i in 0..alen
        invariant
            alen == a@.len(),
            blen == b@.len(),
            alen == blen,
            forall|k: int| 0 <= k < i ==> a@[k] == b@[k],
    {
        if a.get_char(i) != b.get_char(i) {
            return false;
        }
    }
    proof {
        assert(a@ =~= b@);
    }
    true
}

/// Lexicographic order on character sequences, by Unicode scalar value;
/// this is the order the storage engine's binary collation gives strings.
pub open spec fn chars_le(a: Seq<char>, b: Seq<char>) -> bool
    decreases a.len(),
{
    if a.len() == 0 {
        true
    } else if b.len() == 0 {
        false
    } else if a[0] == b[0] {
        chars_le(a.drop_first(), b.drop_first())
    } else {
        (a[0] as u32) < (b[0] as u32)
    }
}

/// The order is total.
pub proof fn chars_le_total(a: Seq<char>, b: Seq<char>)
    ensures
        chars_le(a, b) || chars_le(b, a),
    decreases a.len(),
{
    if a.len() == 0 || b.len() == 0 {
    } else if a[0] == b[0] {
        chars_le_total(a.drop_first(), b.drop_first());
    } else {
        assert((a[0] as u32) != (b[0] as u32)) by {
            vstd::utf8::char_u32_cast(a[0], a[0] as u32);
            vstd::utf8::char_u32_cast(b[0], b[0] as u32);
        }
    }
}

/// The order is transitive.
pub proof fn chars_le_trans(a: Seq<char>, b: Seq<char>, c: Seq<char>)
    requires
        chars_le(a, b),
        chars_le(b, c),
    ensures
        chars_le(a, c),
    decreases a.len(),
{
    if a.len() == 0 || b.len() == 0 || c.len() == 0 {
    } else if a[0] == b[0] && b[0] == c[0] {
        chars_le_trans(a.drop_first(), b.drop_first(), c.drop_first());
    }
}

/// Compares two strings in the order of [`chars_le`].
pub fn str_le(a: &str, b: &str) -> (r: bool)
    ensures
        r == chars_le(a@, b@),
{
    let alen = a.unicode_len();
    let blen = b.unicode_len();
    let mut i: usize = 0;
    proof {
        assert(a@.skip(0) =~= a@);
        assert(b@.skip(0) =~= b@);
    }
    loop
        invariant
            alen == a@.len(),
            blen == b@.len(),
            i <= alen,
            i <= blen,
            chars_le(a@, b@) == chars_le(a@.skip(i as int), b@.skip(i as int)),
        ensures
            chars_le(a@, b@) == (if i < alen && i < blen {
                (a@[i as int] as u32) < (b@[i as int] as u32)
            } else {
                i >= alen
            }),
        decreases alen - i,
    {
        if i >= alen || i >= blen {
            break ;
        }
        let ca = a.get_char(i);
        let cb = b.get_char(i);
        if ca != cb {
            break ;
        }
        proof {
            assert(a@.skip(i as int).drop_first() =~= a@.skip(i + 1));
            assert(b@.skip(i as int).drop_first() =~= b@.skip(i + 1));
        }
        i = i + 1;
    }
    if i < alen && i < blen {
        let ca = a.get_char(i);
        let cb = b.get_char(i);
        (ca as u32) < (cb as u32)
    } else {
        i >= alen
    }
}

/// Whether `needle` occurs contiguously inside `hay`.
pub open spec fn is_substring(hay: Seq<char>, needle: Seq<char>) -> bool {
    exists|i: int|
        0 <= i && i + needle.len() <= hay.len() && #[trigger] hay.subrange(i, i + needle.len())
            == needle
}

/// Case-insensitive containment, the meaning of a `LIKE '%needle%'` filter.
pub open spec fn like_match(hay: Seq<char>, needle: Seq<char>) -> bool {
    is_substring(lower_of(hay), lower_of(needle))
}

fn match_at(hay: &Vec<char>, needle: &Vec<char>, at: usize) -> (r: bool)
    requires
        at + needle@.len() <= hay@.len(),
    ensures
        r == (hay@.subrange(at as int, at + needle@.len()) == needle@),
{
    let n = needle.len();
    let hn = hay.len();
    for j in 0..n
        invariant
            at + n <= hn,
            hn == hay@.len(),
            n == needle@.len(),
            forall|k: int| 0 <= k < j ==> hay@[at + k] == needle@[k],
    {
        if hay[at + j] != needle[j] {
            proof {
                assert(hay@.subrange(at as int, at + needle@.len())[j as int] != needle@[j as int]);
            }
            return false;
        }
    }
    proof {
        assert(hay@.subrange(at as int, at + needle@.len()) =~= needle@);
    }
    true
}

fn str_chars(s: &str) -> (r: Vec<char>)
    ensures
        r@ == s@,
{
    let n = s.unicode_len();
    let mut out: Vec<char> = Vec::new();
    for i in 0..n
        invariant
            n == s@.len(),
            out@ == s@.take(i as int),
    {
        out.push(s.get_char(i));
        proof {
            assert(s@.take(i + 1) =~= s@.take(i as int).push(s@[i as int]));
        }
    }
    proof {
        assert(s@.take(n as int) =~= s@);
    }
    out
}

/// Whether `needle` occurs inside `hay`, ignoring ASCII case.
pub fn contains_like(hay: &str, needle: &str) -> (r: bool)
    ensures
        r == like_match(hay@, needle@),
{
    let h = lower_str(hay);
    let q = lower_str(needle);
    let hv = str_chars(h.as_str());
    let qv = str_chars(q.as_str());
    if qv.len() > hv.len() {
        return false;
    }
    if qv.len() == 0 {
        proof {
            assert(hv@.subrange(0, 0 + qv@.len() as int) =~= qv@);
        }
        return true;
    }
    let bound = hv.len() - qv.len();
    let mut i: usize = 0;
    while i <= bound
        invariant
            0 < qv@.len() <= hv@.len(),
            bound == hv@.len() - qv@.len(),
            bound < usize::MAX,
            i <= bound + 1,
            hv@ == lower_of(hay@),
            qv@ == lower_of(needle@),
            forall|k: int|
                0 <= k < i ==> #[trigger] hv@.subrange(k, k + qv@.len()) != qv@,
        decreases bound + 1 - i,
    {
        if match_at(&hv, &qv, i) {
            proof {
                assert(hv@.subrange(i as int, i + qv@.len()) == qv@);
            }
            return true;
        }
        i = i + 1;
    }
    proof {
        if is_substring(hv@, qv@) {
            let w = choose|k: int|
                0 <= k && k + qv@.len() <= hv@.len() && #[trigger] hv@.subrange(k, k + qv@.len())
                    == qv@;
            assert(hv@.subrange(w, w + qv@.len()) != qv@);
        }
    }
    false
}

} // verus!
