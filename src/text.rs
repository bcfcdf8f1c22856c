//! Character-level helpers on `str`, each proved against a spec function over
//! `Seq<char>`.
use vstd::prelude::*;
use vstd::string::*;

verus! {

/// Unicode `White_Space`, the property that `char::is_whitespace` reports.
pub open spec fn is_white_space(c: char) -> bool {
    ('\t' <= c && c <= '\r') || c == ' ' || c == '\u{85}' || c == '\u{a0}' || c == '\u{1680}'
        || ('\u{2000}' <= c && c <= '\u{200a}') || c == '\u{2028}' || c == '\u{2029}'
        || c == '\u{202f}' || c == '\u{205f}' || c == '\u{3000}'
}

pub open spec fn has_white_space(s: Seq<char>) -> bool {
    exists|i: int| 0 <= i < s.len() && is_white_space(#[trigger] s[i])
}

/// `s` without its leading white space.
pub open spec fn trim_start(s: Seq<char>) -> Seq<char>
    decreases s.len(),
{
    if s.len() > 0 && is_white_space(s[0]) {
        trim_start(s.drop_first())
    } else {
        s
    }
}

/// `s` without its trailing white space.
pub open spec fn trim_end(s: Seq<char>) -> Seq<char>
    decreases s.len(),
{
    if s.len() > 0 && is_white_space(s.last()) {
        trim_end(s.drop_last())
    } else {
        s
    }
}

/// `s` without leading or trailing white space, as `str::trim` gives it.
pub open spec fn trim(s: Seq<char>) -> Seq<char> {
    trim_end(trim_start(s))
}

/// The code point of `c` with ASCII upper case folded onto lower case.
pub open spec fn ascii_fold_char(c: char) -> u32 {
    if 'A' <= c && c <= 'Z' {
        (c as u32 + 32) as u32
    } else {
        c as u32
    }
}

/// The code points of `s` with ASCII upper case folded onto lower case: two
/// texts are equal up to ASCII case exactly when their folds are equal.
pub open spec fn ascii_lower(s: Seq<char>) -> Seq<u32> {
    s.map_values(|c: char| ascii_fold_char(c))
}

/// Index of the first occurrence of `c` in `s`, if any.
pub open spec fn first_index_of<A>(s: Seq<A>, c: A) -> Option<int>
    decreases s.len(),
{
    if s.len() == 0 {
        None
    } else if s[0] == c {
        Some(0)
    } else {
        match first_index_of(s.drop_first(), c) {
            Some(i) => Some(i + 1),
            None => None,
        }
    }
}

/// Index of the last occurrence of `c` in `s`, if any.
pub open spec fn last_index_of(s: Seq<char>, c: char) -> Option<int>
    decreases s.len(),
{
    if s.len() == 0 {
        None
    } else if s.last() == c {
        Some(s.len() - 1)
    } else {
        last_index_of(s.drop_last(), c)
    }
}

pub proof fn lemma_first_index_of<A>(s: Seq<A>, c: A)
    ensures
        match first_index_of(s, c) {
            Some(i) => 0 <= i < s.len() && s[i] == c && forall|j: int|
                0 <= j < i ==> s[j] != c,
            None => forall|j: int| 0 <= j < s.len() ==> s[j] != c,
        },
    decreases s.len(),
{
    if s.len() > 0 && s[0] != c {
        lemma_first_index_of(s.drop_first(), c);
        assert forall|j: int| 1 <= j < s.len() implies s[j] == s.drop_first()[j - 1] by {}
        match first_index_of(s.drop_first(), c) {
            Some(i) => {
                assert forall|j: int| 0 <= j < i + 1 implies s[j] != c by {
                    if j > 0 {
                        assert(s[j] == s.drop_first()[j - 1]);
                    }
                }
            },
            None => {
                assert forall|j: int| 0 <= j < s.len() implies s[j] != c by {
                    if j > 0 {
                        assert(s[j] == s.drop_first()[j - 1]);
                    }
                }
            },
        }
    }
}

pub proof fn lemma_last_index_of(s: Seq<char>, c: char)
    ensures
        match last_index_of(s, c) {
            Some(i) => 0 <= i < s.len() && s[i] == c && forall|j: int|
                i < j < s.len() ==> s[j] != c,
            None => forall|j: int| 0 <= j < s.len() ==> s[j] != c,
        },
    decreases s.len(),
{
    if s.len() > 0 && s.last() != c {
        lemma_last_index_of(s.drop_last(), c);
        assert forall|j: int| 0 <= j < s.len() - 1 implies s[j] == s.drop_last()[j] by {}
    }
}

/// Whether `s` holds a white-space character.
pub fn contains_whitespace(s: &str) -> (r: bool)
    ensures
        r == has_white_space(s@),
{
    let n = s.unicode_len();
    let mut i: usize = 0;
    while i < n
        invariant
            n == s@.len(),
            i <= n,
            forall|j: int| 0 <= j < i ==> !is_white_space(#[trigger] s@[j]),
        decreases n - i,
    {
        if is_whitespace(s.get_char(i)) {
            return true;
        }
        i = i + 1;
    }
    false
}

/// Position of the last `c` in `s`, as `str::rfind` gives it on characters.
pub fn last_position(s: &str, c: char) -> (r: Option<usize>)
    ensures
        r matches Some(k) ==> last_index_of(s@, c) == Some(k as int),
        r is None ==> last_index_of(s@, c) is None,
{
    let n = s.unicode_len();
    let mut i: usize = n;
    proof {
        assert(s@.subrange(0, n as int) =~= s@);
    }
    while i > 0
        invariant
            n == s@.len(),
            i <= n,
            last_index_of(s@, c) == last_index_of(s@.subrange(0, i as int), c),
        decreases i,
    {
        let ghost pre = s@.subrange(0, i as int);
        if s.get_char(i - 1) == c {
            return Some(i - 1);
        }
        proof {
            assert(pre.drop_last() =~= s@.subrange(0, i - 1));
        }
        i = i - 1;
    }
    None
}

proof fn lemma_trim_start_shape(s: Seq<char>)
    ensures
        trim_start(s).len() <= s.len(),
        trim_start(s) == s.subrange(s.len() - trim_start(s).len(), s.len() as int),
        trim_start(s).len() > 0 ==> !is_white_space(trim_start(s)[0]),
    decreases s.len(),
{
    if s.len() > 0 && is_white_space(s[0]) {
        lemma_trim_start_shape(s.drop_first());
        let t = trim_start(s.drop_first());
        assert(s.drop_first().subrange(s.len() - 1 - t.len(), s.len() - 1) =~= s.subrange(
            s.len() - t.len(),
            s.len() as int,
        ));
    } else {
        assert(s.subrange(0, s.len() as int) =~= s);
    }
}

proof fn lemma_trim_end_shape(s: Seq<char>)
    ensures
        trim_end(s).len() <= s.len(),
        trim_end(s) == s.subrange(0, trim_end(s).len() as int),
        trim_end(s).len() > 0 ==> !is_white_space(trim_end(s).last()),
    decreases s.len(),
{
    if s.len() > 0 && is_white_space(s.last()) {
        lemma_trim_end_shape(s.drop_last());
        let t = trim_end(s.drop_last());
        assert(s.drop_last().subrange(0, t.len() as int) =~= s.subrange(0, t.len() as int));
    } else {
        assert(s.subrange(0, s.len() as int) =~= s);
    }
}

/// Trimming twice trims no more than trimming once.
pub proof fn lemma_trim_idempotent(s: Seq<char>)
    ensures
        trim(trim(s)) == trim(s),
{
    let u = trim_start(s);
    let t = trim_end(u);
    lemma_trim_start_shape(s);
    lemma_trim_end_shape(u);
    if t.len() > 0 {
        assert(t[0] == u[0]);
        assert(trim_start(t) == t);
        assert(trim_end(t) == t);
    } else {
        assert(trim_start(t) == t);
        assert(trim_end(t) == t);
    }
}

/// `char::is_whitespace`, written out over the `White_Space` code points.
pub fn is_whitespace(c: char) -> (r: bool)
    ensures
        r == is_white_space(c),
{
    ('\t' <= c && c <= '\r') || c == ' ' || c == '\u{85}' || c == '\u{a0}' || c == '\u{1680}'
        || ('\u{2000}' <= c && c <= '\u{200a}') || c == '\u{2028}' || c == '\u{2029}'
        || c == '\u{202f}' || c == '\u{205f}' || c == '\u{3000}'
}

proof fn lemma_trim_start_skip(s: Seq<char>, i: int)
    requires
        0 <= i <= s.len(),
        forall|j: int| 0 <= j < i ==> is_white_space(#[trigger] s[j]),
    ensures
        trim_start(s) == trim_start(s.subrange(i, s.len() as int)),
    decreases i,
{
    if i > 0 {
        assert(s.drop_first() =~= s.subrange(1, s.len() as int));
        lemma_trim_start_skip(s.drop_first(), i - 1);
        assert(s.drop_first().subrange(i - 1, s.drop_first().len() as int) =~= s.subrange(
            i,
            s.len() as int,
        ));
    } else {
        assert(s.subrange(0, s.len() as int) =~= s);
    }
}

proof fn lemma_trim_end_skip(s: Seq<char>, k: int)
    requires
        0 <= k <= s.len(),
        forall|j: int| k <= j < s.len() ==> is_white_space(#[trigger] s[j]),
    ensures
        trim_end(s) == trim_end(s.subrange(0, k)),
    decreases s.len() - k,
{
    if k < s.len() {
        lemma_trim_end_skip(s.drop_last(), k);
        assert(s.drop_last().subrange(0, k) =~= s.subrange(0, k));
    } else {
        assert(s.subrange(0, k) =~= s);
    }
}

/// `str::trim`: the text between the first and the last character that is
/// not white space.
pub fn trim_str(s: &str) -> (r: &str)
    ensures
        r@ == trim(s@),
{
    let n = s.unicode_len();
    let mut a: usize = 0;
    while a < n && is_whitespace(s.get_char(a))
        invariant
            n == s@.len(),
            a <= n,
            forall|j: int| 0 <= j < a ==> is_white_space(#[trigger] s@[j]),
        decreases n - a,
    {
        a = a + 1;
    }
    let mut b: usize = n;
    while b > a && is_whitespace(s.get_char(b - 1))
        invariant
            n == s@.len(),
            a <= b <= n,
            forall|j: int| b <= j < n ==> is_white_space(#[trigger] s@[j]),
        decreases b,
    {
        b = b - 1;
    }
    proof {
        lemma_trim_start_skip(s@, a as int);
        let t = s@.subrange(a as int, n as int);
        if a < n {
            assert(!is_white_space(t[0]));
        }
        assert(trim_start(t) == t);
        lemma_trim_end_skip(t, (b - a) as int);
        let u = t.subrange(0, (b - a) as int);
        assert(u =~= s@.subrange(a as int, b as int));
        if b > a {
            assert(u.last() == s@[b - 1]);
        }
        assert(trim_end(u) == u);
    }
    s.substring_char(a, b)
}

/// `str::eq_ignore_ascii_case`.
pub fn eq_ignore_ascii_case(a: &str, b: &str) -> (r: bool)
    ensures
        r == (ascii_lower(a@) == ascii_lower(b@)),
{
    let n = a.unicode_len();
    if n != b.unicode_len() {
        proof {
            assert(ascii_lower(a@).len() != ascii_lower(b@).len());
        }
        return false;
    }
    let mut i: usize = 0;
    while i < n
        invariant
            n == a@.len(),
            n == b@.len(),
            i <= n,
            forall|j: int| 0 <= j < i ==> ascii_fold_char(#[trigger] a@[j]) == ascii_fold_char(
                b@[j],
            ),
        decreases n - i,
    {
        let c = a.get_char(i);
        let d = b.get_char(i);
        let lc: u32 = if 'A' <= c && c <= 'Z' { c as u32 + 32 } else { c as u32 };
        let ld: u32 = if 'A' <= d && d <= 'Z' { d as u32 + 32 } else { d as u32 };
        if lc != ld {
            proof {
                assert(ascii_lower(a@)[i as int] != ascii_lower(b@)[i as int]);
            }
            return false;
        }
        i = i + 1;
    }
    proof {
        assert(ascii_lower(a@) =~= ascii_lower(b@));
    }
    true
}

/// Equality of two `str` values.
pub fn str_eq(a: &str, b: &str) -> (r: bool)
    ensures
        r == (a@ == b@),
{
    let n = a.unicode_len();
    if n != b.unicode_len() {
        return false;
    }
    let mut i: usize = 0;
    while i < n
        invariant
            n == a@.len(),
            n == b@.len(),
            i <= n,
            forall|j: int| 0 <= j < i ==> #[trigger] a@[j] == b@[j],
        decreases n - i,
    {
        if a.get_char(i) != b.get_char(i) {
            return false;
        }
        i = i + 1;
    }
    proof {
        assert(a@ =~= b@);
    }
    true
}

/// The result of `str::to_lowercase`: full Unicode lower-casing.
pub uninterp spec fn lowercase_of(s: Seq<char>) -> Seq<char>;

/// Relies on `str::to_lowercase`, whose result depends on the text alone.
#[verifier::external_body]
pub(crate) fn to_lowercase(s: &str) -> (r: String)
    ensures
        r@ == lowercase_of(s@),
{
    s.to_lowercase()
}

/// Equality of two texts after full Unicode lower-casing.
pub fn eq_ignore_case(a: &str, b: &str) -> (r: bool)
    ensures
        r == (lowercase_of(a@) == lowercase_of(b@)),
{
    let la = to_lowercase(a);
    let lb = to_lowercase(b);
    str_eq(la.as_str(), lb.as_str())
}

} // verus!
