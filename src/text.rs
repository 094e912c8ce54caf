//! Character-level helpers on strings, stated over `Seq<char>` views.

use vstd::prelude::*;

verus! {

/// `needle` occurs as a contiguous run of characters inside `hay`.
pub open spec fn contains_seq(hay: Seq<char>, needle: Seq<char>) -> bool {
    exists|i: int|
        0 <= i && i + needle.len() <= hay.len() && #[trigger] hay.subrange(i, i + needle.len())
            == needle
}

/// `needle` occurs at position `i` of `hay`.
pub open spec fn occurs_at(hay: Seq<char>, needle: Seq<char>, i: int) -> bool {
    &&& 0 <= i
    &&& i + needle.len() <= hay.len()
    &&& forall|k: int| 0 <= k < needle.len() ==> hay[i + k] == needle[k]
}

/// ASCII case folding of one character: `A`..`Z` map to `a`..`z`, all others are kept.
pub open spec fn ascii_fold(c: char) -> u32 {
    if 'A' <= c && c <= 'Z' {
        (c as u32 + 32) as u32
    } else {
        c as u32
    }
}

/// Equality up to ASCII case, as `str::eq_ignore_ascii_case` defines it.
pub open spec fn eq_ignore_ascii_case_seq(a: Seq<char>, b: Seq<char>) -> bool {
    &&& a.len() == b.len()
    &&& forall|i: int| 0 <= i < a.len() ==> ascii_fold(#[trigger] a[i]) == ascii_fold(b[i])
}

/// The characters of `s`, one element each.
pub fn char_vec(s: &str) -> (r: Vec<char>)
    ensures
        r@ == s@,
{
    let mut r: Vec<char> = Vec::new();
    for c in it: s.chars()
        invariant
            it.seq() == s@,
            r@ == it.seq().take(it.index() as int),
    {
        r.push(c);
        proof {
            assert(r@ =~= it.seq().take(it.index() as int + 1));
        }
    }
    proof {
        assert(r@ =~= s@);
    }
    r
}

fn occurs_at_exec(hay: &Vec<char>, needle: &Vec<char>, i: usize) -> (r: bool)
    requires
        i + needle@.len() <= hay@.len(),
    ensures
        r == occurs_at(hay@, needle@, i as int),
{
    let hl = hay.len();
    let mut k: usize = 0;
    while k < needle.len()
        invariant
            hl == hay@.len(),
            k <= needle@.len(),
            i + needle@.len() <= hay@.len(),
            forall|j: int| 0 <= j < k ==> hay@[i + j] == needle@[j],
        decreases needle@.len() - k,
    {
        if hay[i + k] != needle[k] {
            return false;
        }
        k = k + 1;
    }
    true
}

proof fn lemma_occurs_at_subrange(hay: Seq<char>, needle: Seq<char>, i: int)
    requires
        0 <= i && i + needle.len() <= hay.len(),
    ensures
        occurs_at(hay, needle, i) <==> hay.subrange(i, i + needle.len()) == needle,
{
    if occurs_at(hay, needle, i) {
        assert(hay.subrange(i, i + needle.len()) =~= needle);
    }
    if hay.subrange(i, i + needle.len()) == needle {
        assert forall|k: int| 0 <= k < needle.len() implies hay[i + k] == needle[k] by {
            assert(hay.subrange(i, i + needle.len())[k] == hay[i + k]);
        }
    }
}

/// Plain substring containment, case-sensitive.
pub fn contains(hay: &str, needle: &str) -> (r: bool)
    ensures
        r == contains_seq(hay@, needle@),
{
    let h = char_vec(hay);
    let n = char_vec(needle);
    if n.len() > h.len() {
        proof {
            if contains_seq(hay@, needle@) {
                let i = choose|i: int|
                    0 <= i && i + needle@.len() <= hay@.len() && #[trigger] hay@.subrange(
                        i,
                        i + needle@.len(),
                    ) == needle@;
            }
        }
        return false;
    }
    let last: usize = h.len() - n.len();
    let mut i: usize = 0;
    loop
        invariant
            h@ == hay@,
            n@ == needle@,
            last == h@.len() - n@.len(),
            n@.len() <= h@.len(),
            i <= last,
            forall|j: int| 0 <= j < i ==> !occurs_at(h@, n@, j),
        ensures
            forall|j: int| 0 <= j <= last ==> !occurs_at(h@, n@, j),
        decreases last - i,
    {
        if occurs_at_exec(&h, &n, i) {
            proof {
                lemma_occurs_at_subrange(h@, n@, i as int);
            }
            return true;
        }
        if i == last {
            break;
        }
        i = i + 1;
    }
    proof {
        if contains_seq(hay@, needle@) {
            let j = choose|j: int|
                0 <= j && j + needle@.len() <= hay@.len() && #[trigger] hay@.subrange(
                    j,
                    j + needle@.len(),
                ) == needle@;
            lemma_occurs_at_subrange(h@, n@, j);
        }
    }
    false
}

/// Any of `needles` occurs inside `hay`.
pub open spec fn contains_any(hay: Seq<char>, needles: Seq<String>) -> bool {
    exists|k: int| 0 <= k < needles.len() && contains_seq(hay, #[trigger] needles[k]@)
}

/// Whether any of `needles` occurs inside `hay`.
pub fn contains_any_of(hay: &str, needles: &Vec<String>) -> (r: bool)
    ensures
        r == contains_any(hay@, needles@),
{
    let mut k: usize = 0;
    while k < needles.len()
        invariant
            k <= needles@.len(),
            forall|j: int| 0 <= j < k ==> !contains_seq(hay@, #[trigger] needles@[j]@),
        decreases needles@.len() - k,
    {
        if contains(hay, needles[k].as_str()) {
            return true;
        }
        k = k + 1;
    }
    false
}

fn ascii_fold_exec(c: char) -> (r: u32)
    ensures
        r == ascii_fold(c),
{
    if 'A' <= c && c <= 'Z' {
        c as u32 + 32
    } else {
        c as u32
    }
}

/// Equality of two strings up to ASCII case.
pub fn eq_ignore_ascii_case(a: &str, b: &str) -> (r: bool)
    ensures
        r == eq_ignore_ascii_case_seq(a@, b@),
{
    let av = char_vec(a);
    let bv = char_vec(b);
    if av.len() != bv.len() {
        return false;
    }
    let mut i: usize = 0;
    while i < av.len()
        invariant
            av@ == a@,
            bv@ == b@,
            av@.len() == bv@.len(),
            i <= av@.len(),
            forall|j: int| 0 <= j < i ==> ascii_fold(#[trigger] av@[j]) == ascii_fold(bv@[j]),
        decreases av@.len() - i,
    {
        if ascii_fold_exec(av[i]) != ascii_fold_exec(bv[i]) {
            return false;
        }
        i = i + 1;
    }
    true
}

/// The first `n` characters of `s` (all of them when it is shorter).
pub open spec fn take_chars_seq(s: Seq<char>, n: nat) -> Seq<char> {
    if s.len() <= n {
        s
    } else {
        s.take(n as int)
    }
}

/// A new string holding the first `n` characters of `s`.
pub fn take_chars(s: &str, n: usize) -> (r: String)
    ensures
        r@ == take_chars_seq(s@, n as nat),
{
    let len = s.unicode_len();
    let end: usize = if len <= n {
        len
    } else {
        n
    };
    let part = s.substring_char(0, end);
    proof {
        assert(s@.subrange(0, len as int) =~= s@);
    }
    part.to_owned()
}

/// What `str::to_lowercase` makes of a character sequence (full Unicode lowercase
/// mapping, which depends on the characters alone).
pub uninterp spec fn lower_of(s: Seq<char>) -> Seq<char>;

/// Relies on `str::to_lowercase`: the result is the Unicode lowercase form of `s`,
/// a function of its characters, and the empty string stays empty.
#[verifier::external_body]
pub(crate) fn lowercase(s: &str) -> (r: String)
    ensures
        r@ == lower_of(s@),
        s@.len() == 0 ==> r@.len() == 0,
{
    s.to_lowercase()
}

/// The Unicode `White_Space` property: tab through carriage return, space, U+0085,
/// U+00A0, U+1680, U+2000 through U+200A, U+2028, U+2029, U+202F, U+205F, U+3000.
pub open spec fn is_white(c: char) -> bool {
    let u = c as u32;
    ||| 0x09 <= u <= 0x0d
    ||| u == 0x20
    ||| u == 0x85
    ||| u == 0xa0
    ||| u == 0x1680
    ||| 0x2000 <= u <= 0x200a
    ||| u == 0x2028
    ||| u == 0x2029
    ||| u == 0x202f
    ||| u == 0x205f
    ||| u == 0x3000
}

/// Whether `c` has the Unicode `White_Space` property, as `char::is_whitespace` decides.
pub fn whitespace(c: char) -> (r: bool)
    ensures
        r == is_white(c),
{
    let u = c as u32;
    (0x09 <= u && u <= 0x0d) || u == 0x20 || u == 0x85 || u == 0xa0 || u == 0x1680 || (0x2000 <= u
        && u <= 0x200a) || u == 0x2028 || u == 0x2029 || u == 0x202f || u == 0x205f || u == 0x3000
}

/// Every character of `s` is whitespace, so that trimming leaves nothing.
pub open spec fn blank_seq(s: Seq<char>) -> bool {
    forall|i: int| 0 <= i < s.len() ==> is_white(#[trigger] s[i])
}

/// Whether `s` is empty or whitespace only.
pub fn is_blank(s: &str) -> (r: bool)
    ensures
        r == blank_seq(s@),
{
    let v = char_vec(s);
    let mut i: usize = 0;
    while i < v.len()
        invariant
            v@ == s@,
            i <= v@.len(),
            forall|j: int| 0 <= j < i ==> is_white(#[trigger] v@[j]),
        decreases v@.len() - i,
    {
        if !whitespace(v[i]) {
            return false;
        }
        i = i + 1;
    }
    true
}

} // verus!
