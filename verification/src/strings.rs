//! Small verified helpers on strings and string lists.
use vstd::prelude::*;

verus! {

broadcast use vstd::string::group_string_axioms;

/// A copy of a list of strings, element by element.
pub fn clone_strings(v: &Vec<String>) -> (res: Vec<String>)
    ensures
        res.deep_view() == v.deep_view(),
{
    let mut res: Vec<String> = Vec::new();
    let mut i: usize = 0;
    while i < v.len()
        invariant
            i <= v.len(),
            res@.len() == i,
            forall|j: int| 0 <= j < i ==> res@[j]@ == v@[j]@,
        decreases v.len() - i,
    {
        res.push(v[i].clone());
        i = i + 1;
    }
    assert(res.deep_view() =~= v.deep_view());
    res
}

/// Whether a list of strings holds one equal to `s`.
pub fn contains_str(v: &Vec<String>, s: &str) -> (res: bool)
    ensures
        res == v.deep_view().contains(s@),
{
    let mut i: usize = 0;
    while i < v.len()
        invariant
            i <= v.len(),
            forall|j: int| 0 <= j < i ==> v@[j]@ != s@,
        decreases v.len() - i,
    {
        if str_eq(v[i].as_str(), s) {
            assert(v.deep_view()[i as int] == s@);
            return true;
        }
        i = i + 1;
    }
    assert forall|j: int| 0 <= j < v.deep_view().len() implies v.deep_view()[j] != s@ by {
        assert(v.deep_view()[j] == v@[j]@);
    }
    false
}

/// Whether every string of `items` also occurs in `within`.
pub fn all_contained(items: &Vec<String>, within: &Vec<String>) -> (res: bool)
    ensures
        res == (forall|k: int| 0 <= k < items.deep_view().len()
            ==> within.deep_view().contains(#[trigger] items.deep_view()[k])),
{
    let mut i: usize = 0;
    while i < items.len()
        invariant
            i <= items.len(),
            forall|k: int| 0 <= k < i ==> within.deep_view().contains(#[trigger] items.deep_view()[k]),
        decreases items.len() - i,
    {
        assert(items.deep_view()[i as int] == items@[i as int]@);
        if !contains_str(within, items[i].as_str()) {
            return false;
        }
        i = i + 1;
    }
    true
}


/// ASCII lowercasing: 'A'..='Z' become 'a'..='z', every other char stays.
pub open spec fn ascii_lower_char(c: char) -> char {
    if 'A' <= c && c <= 'Z' { ((c as int) + 32) as char } else { c }
}

/// ASCII lowercasing of a whole text.
pub open spec fn ascii_lower(s: Seq<char>) -> Seq<char> {
    Seq::new(s.len(), |i: int| ascii_lower_char(s[i]))
}

/// ASCII lowercasing keeps ASCII text ASCII, and lowercasing twice is
/// lowercasing once.
pub proof fn lemma_ascii_lower_idempotent(s: Seq<char>)
    ensures
        ascii_lower(ascii_lower(s)) == ascii_lower(s),
        vstd::utf8::is_ascii_chars(s) ==> vstd::utf8::is_ascii_chars(ascii_lower(s)),
{
    assert forall|i: int| 0 <= i < s.len() implies #[trigger] ascii_lower(ascii_lower(s))[i] == ascii_lower(s)[i] by {
        let c = s[i];
        if 'A' <= c && c <= 'Z' {
            assert(((c as int) + 32) as char > 'Z');
        }
    }
    assert(ascii_lower(ascii_lower(s)) =~= ascii_lower(s));
    if vstd::utf8::is_ascii_chars(s) {
        assert forall|i: int| 0 <= i < ascii_lower(s).len() implies '\0' <= #[trigger] ascii_lower(s)[i] <= '\u{7f}' by {
            assert('\0' <= s[i] <= '\u{7f}');
        }
    }
}

/// What `str::to_lowercase` gives for a text (Unicode lowercase mapping).
pub uninterp spec fn lowercase_spec(s: Seq<char>) -> Seq<char>;

/// Calls `str::to_lowercase`.  Trusted: the result is the value named by
/// `lowercase_spec`; on ASCII text it is the ASCII lowercasing, since the
/// Unicode lowercase mapping of an ASCII char is its ASCII lowercase.
#[verifier::external_body]
pub(crate) fn to_lowercase(s: &str) -> (res: String)
    ensures
        res@ == lowercase_spec(s@),
        vstd::utf8::is_ascii_chars(s@) ==> res@ == ascii_lower(s@),
{
    s.to_lowercase()
}

/// Calls `String::push`.  Trusted: appends one char at the end.
#[verifier::external_body]
pub(crate) fn push_char(s: &mut String, c: char)
    ensures
        final(s)@ == old(s)@.push(c),
{
    s.push(c)
}

/// `needle` occurs in `hay` starting at position `i`.
pub open spec fn occurs_at(hay: Seq<char>, needle: Seq<char>, i: int) -> bool {
    0 <= i && i + needle.len() <= hay.len() && hay.subrange(i, i + needle.len()) == needle
}

/// `needle` occurs somewhere in `hay` (the empty text occurs everywhere).
pub open spec fn contains_text(hay: Seq<char>, needle: Seq<char>) -> bool {
    exists|i: int| #[trigger] occurs_at(hay, needle, i)
}

/// The chars of a text, one by one.
pub fn chars_of(s: &str) -> (v: Vec<char>)
    ensures
        v@ == s@,
{
    let n = s.unicode_len();
    let mut v: Vec<char> = Vec::new();
    let mut i: usize = 0;
    while i < n
        invariant
            n == s@.len(),
            i <= n,
            v@ == s@.subrange(0, i as int),
        decreases n - i,
    {
        v.push(s.get_char(i));
        i = i + 1;
        assert(v@ =~= s@.subrange(0, i as int));
    }
    assert(s@.subrange(0, n as int) =~= s@);
    v
}

/// Whether `needle` occurs at position `i` of `hay`.
fn occurs_at_exec(hay: &Vec<char>, needle: &Vec<char>, i: usize) -> (res: bool)
    ensures
        res == occurs_at(hay@, needle@, i as int),
{
    if i > hay.len() || needle.len() > hay.len() - i {
        return false;
    }
    let mut k: usize = 0;
    while k < needle.len()
        invariant
            i + needle@.len() <= hay@.len(),
            hay@.len() <= usize::MAX,
            k <= needle@.len(),
            forall|m: int| 0 <= m < k ==> hay@[i + m] == needle@[m],
        decreases needle@.len() - k,
    {
        if hay[i + k] != needle[k] {
            assert(hay@.subrange(i as int, i + needle@.len())[k as int] != needle@[k as int]);
            return false;
        }
        k = k + 1;
    }
    assert(hay@.subrange(i as int, i + needle@.len()) =~= needle@);
    true
}

/// Whether `needle` occurs in `hay`.
pub fn contains_substring(hay: &str, needle: &str) -> (res: bool)
    ensures
        res == contains_text(hay@, needle@),
{
    let h = chars_of(hay);
    let nd = chars_of(needle);
    let mut i: usize = 0;
    while i < h.len()
        invariant
            h@ == hay@,
            nd@ == needle@,
            i <= h@.len(),
            forall|j: int| 0 <= j < i ==> !occurs_at(hay@, needle@, j),
        decreases h@.len() - i,
    {
        if occurs_at_exec(&h, &nd, i) {
            return true;
        }
        i = i + 1;
    }
    if occurs_at_exec(&h, &nd, i) {
        return true;
    }
    assert forall|j: int| !#[trigger] occurs_at(hay@, needle@, j) by {
        if 0 <= j && j <= hay@.len() {
            assert(j < i || j == i);
        }
    }
    false
}


/// The decimal digit char for a value below 10.
pub open spec fn digit_char(d: nat) -> char {
    (('0' as int) + d) as char
}

/// Decimal digits of a natural number, most significant first, no leading zeros.
pub open spec fn nat_digits(n: nat) -> Seq<char>
    decreases n,
{
    if n < 10 {
        seq![digit_char(n)]
    } else {
        nat_digits(n / 10).push(digit_char(n % 10))
    }
}

/// Decimal text of an integer, with a leading '-' when negative.
pub open spec fn int_decimal(n: int) -> Seq<char> {
    if n < 0 { seq!['-'] + nat_digits((-n) as nat) } else { nat_digits(n as nat) }
}

/// A string holding the given chars.
pub fn string_from_chars(cs: &Vec<char>) -> (res: String)
    ensures
        res@ == cs@,
{
    let mut res = String::new();
    let mut i: usize = 0;
    while i < cs.len()
        invariant
            i <= cs@.len(),
            res@ == cs@.subrange(0, i as int),
        decreases cs@.len() - i,
    {
        push_char(&mut res, cs[i]);
        i = i + 1;
        assert(res@ =~= cs@.subrange(0, i as int));
    }
    assert(cs@.subrange(0, i as int) =~= cs@);
    res
}

/// Decimal digits of `n`.
fn u64_digits(n: u64) -> (res: Vec<char>)
    ensures
        res@ == nat_digits(n as nat),
{
    let mut m: u64 = n;
    let mut rev: Vec<char> = Vec::new();
    let ghost mut suffix: Seq<char> = Seq::empty();
    let d = (m % 10) as u8;
    rev.push(((48u8 + d) as char));
    proof {
        suffix = seq![digit_char((n % 10) as nat)];
        assert(rev@ =~= suffix.reverse());
    }
    m = m / 10;
    while m > 0
        invariant
            m > 0 ==> nat_digits(n as nat) == nat_digits(m as nat) + suffix,
            m == 0 ==> nat_digits(n as nat) == suffix,
            rev@ == suffix.reverse(),
        decreases m,
    {
        let d = (m % 10) as u8;
        assert(((48u8 + d) as char) == digit_char((m % 10) as nat));
        rev.push(((48u8 + d) as char));
        proof {
            let s2 = seq![digit_char((m % 10) as nat)] + suffix;
            assert(nat_digits(m as nat) + suffix =~= (if m / 10 > 0 { nat_digits((m / 10) as nat) + s2 } else { s2 }));
            assert(rev@ =~= s2.reverse());
            suffix = s2;
        }
        m = m / 10;
    }
    let mut out: Vec<char> = Vec::new();
    let mut k: usize = rev.len();
    while k > 0
        invariant
            k <= rev@.len(),
            out@ == rev@.subrange(k as int, rev@.len() as int).reverse(),
        decreases k,
    {
        k = k - 1;
        out.push(rev[k]);
        assert(out@ =~= rev@.subrange(k as int, rev@.len() as int).reverse());
    }
    assert(rev@.subrange(0, rev@.len() as int) =~= rev@);
    assert(out@ =~= suffix);
    out
}

/// Decimal text of an unsigned number.
pub fn u64_to_decimal(n: u64) -> (res: String)
    ensures
        res@ == nat_digits(n as nat),
{
    string_from_chars(&u64_digits(n))
}

/// Decimal text of a signed number.
pub fn i64_to_decimal(n: i64) -> (res: String)
    ensures
        res@ == int_decimal(n as int),
{
    if n < 0 {
        let mag: u64 = ((-(n + 1)) as u64) + 1;
        let digits = u64_digits(mag);
        let mut cs: Vec<char> = Vec::new();
        cs.push('-');
        let mut i: usize = 0;
        while i < digits.len()
            invariant
                i <= digits@.len(),
                cs@ == seq!['-'] + digits@.subrange(0, i as int),
            decreases digits@.len() - i,
        {
            cs.push(digits[i]);
            i = i + 1;
            assert(cs@ =~= seq!['-'] + digits@.subrange(0, i as int));
        }
        assert(digits@.subrange(0, i as int) =~= digits@);
        string_from_chars(&cs)
    } else {
        u64_to_decimal(n as u64)
    }
}

/// Character-wise equality of two string slices.
pub fn str_eq(a: &str, b: &str) -> (res: bool)
    ensures
        res == (a@ == b@),
{
    let a_s = String::from_str(a);
    let b_s = String::from_str(b);
    a_s == b_s
}

} // verus!
