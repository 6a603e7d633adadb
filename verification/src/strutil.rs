//! String utilities: lexicographic ordering, substring search, trimming and
//! decimal formatting, all specified over `Seq<char>` views.
use vstd::prelude::*;

verus! {

/// Strict lexicographic order on character sequences, comparing scalar values
/// position by position; a proper prefix sorts before its extensions.
pub open spec fn lex_lt(a: Seq<char>, b: Seq<char>) -> bool
    decreases a.len(),
{
    if b.len() == 0 {
        false
    } else if a.len() == 0 {
        true
    } else if a[0] != b[0] {
        (a[0] as int) < (b[0] as int)
    } else {
        lex_lt(a.drop_first(), b.drop_first())
    }
}

/// `lex_lt` is total: distinct sequences are ordered one way or the other.
pub proof fn lemma_lex_lt_total(a: Seq<char>, b: Seq<char>)
    ensures
        a != b ==> lex_lt(a, b) || lex_lt(b, a),
    decreases a.len(),
{
    if a.len() == 0 && b.len() == 0 {
        assert(a =~= b);
    } else if a.len() == 0 || b.len() == 0 {
    } else if a[0] != b[0] {
        assert((a[0] as int) != (b[0] as int));
    } else {
        lemma_lex_lt_total(a.drop_first(), b.drop_first());
        if a.drop_first() == b.drop_first() {
            assert(a.drop_first().len() == a.len() - 1);
            assert(b.drop_first().len() == b.len() - 1);
            assert(a.len() == b.len());
            assert forall|i: int| 0 <= i < a.len() implies a[i] == b[i] by {
                if i > 0 {
                    assert(a[i] == a.drop_first()[i - 1]);
                    assert(b[i] == b.drop_first()[i - 1]);
                }
            }
            assert(a =~= b);
        }
    }
}

/// `lex_lt` is irreflexive.
pub proof fn lemma_lex_lt_irrefl(a: Seq<char>)
    ensures
        !lex_lt(a, a),
    decreases a.len(),
{
    if a.len() > 0 {
        lemma_lex_lt_irrefl(a.drop_first());
    }
}

/// `lex_lt` is transitive.
pub proof fn lemma_lex_lt_trans(a: Seq<char>, b: Seq<char>, c: Seq<char>)
    requires
        lex_lt(a, b),
        lex_lt(b, c),
    ensures
        lex_lt(a, c),
    decreases a.len(),
{
    if a.len() > 0 {
        if a[0] == b[0] && b[0] == c[0] {
            lemma_lex_lt_trans(a.drop_first(), b.drop_first(), c.drop_first());
        }
    }
}

/// Comparing sequences that agree on their first `i` characters reduces to
/// comparing the remainders.
pub proof fn lemma_lex_lt_common_prefix(a: Seq<char>, b: Seq<char>, i: int)
    requires
        0 <= i <= a.len(),
        i <= b.len(),
        forall|k: int| 0 <= k < i ==> a[k] == b[k],
    ensures
        lex_lt(a, b) == lex_lt(a.skip(i), b.skip(i)),
    decreases i,
{
    if i > 0 {
        assert(a[0] == b[0]);
        assert(a.drop_first().skip(i - 1) =~= a.skip(i));
        assert(b.drop_first().skip(i - 1) =~= b.skip(i));
        lemma_lex_lt_common_prefix(a.drop_first(), b.drop_first(), i - 1);
    } else {
        assert(a.skip(0) =~= a);
        assert(b.skip(0) =~= b);
    }
}

/// Character-wise equality of two string slices.
pub fn str_eq(a: &str, b: &str) -> (r: bool)
    ensures
        r == (a@ == b@),
{
    let alen = a.unicode_len();
    let blen = b.unicode_len();
    if alen != blen {
        return false;
    }
    let mut i: usize = 0;
    while i < alen
        invariant
            a@.len() == alen,
            b@.len() == blen,
            alen == blen,
            i <= alen,
            forall|k: int| 0 <= k < i ==> a@[k] == b@[k],
        decreases alen - i,
    {
        if a.get_char(i) != b.get_char(i) {
            return false;
        }
        i = i + 1;
    }
    proof {
        assert(a@ =~= b@);
    }
    true
}

/// Decides `lex_lt` on two string slices.
pub fn str_lex_lt(a: &str, b: &str) -> (r: bool)
    ensures
        r == lex_lt(a@, b@),
{
    let alen = a.unicode_len();
    let blen = b.unicode_len();
    let mut i: usize = 0;
    while i < alen && i < blen
        invariant
            a@.len() == alen,
            b@.len() == blen,
            i <= alen,
            i <= blen,
            forall|k: int| 0 <= k < i ==> a@[k] == b@[k],
        decreases alen - i,
    {
        let ca = a.get_char(i);
        let cb = b.get_char(i);
        if ca != cb {
            proof {
                lemma_lex_lt_common_prefix(a@, b@, i as int);
                assert(a@.skip(i as int)[0] == a@[i as int]);
                assert(b@.skip(i as int)[0] == b@[i as int]);
            }
            return (ca as u32) < (cb as u32);
        }
        i = i + 1;
    }
    proof {
        lemma_lex_lt_common_prefix(a@, b@, i as int);
        if i < blen {
            assert(b@.skip(i as int).len() > 0);
        }
    }
    alen < blen
}

/// The pattern `pat` occurs in `s` at position `i`.
pub open spec fn matches_at(s: Seq<char>, pat: Seq<char>, i: int) -> bool {
    &&& 0 <= i
    &&& i + pat.len() <= s.len()
    &&& forall|k: int| 0 <= k < pat.len() ==> s[i + k] == #[trigger] pat[k]
}

/// Checks whether `pat` occurs in `s` at position `i`.
pub fn check_match_at(s: &str, pat: &str, i: usize) -> (r: bool)
    ensures
        r == matches_at(s@, pat@, i as int),
{
    let slen = s.unicode_len();
    let plen = pat.unicode_len();
    if plen > slen || i > slen - plen {
        return false;
    }
    let mut k: usize = 0;
    while k < plen
        invariant
            s@.len() == slen,
            pat@.len() == plen,
            plen <= slen,
            i <= slen - plen,
            k <= plen,
            forall|j: int| 0 <= j < k ==> s@[i + j] == #[trigger] pat@[j],
        decreases plen - k,
    {
        if s.get_char(i + k) != pat.get_char(k) {
            return false;
        }
        k = k + 1;
    }
    true
}

/// `pat` occurs in `s` at position `i` up to the ASCII case of each character:
/// each character equals the one in `lo` or the one in `up` at that offset.
pub open spec fn matches_ci_at(s: Seq<char>, lo: Seq<char>, up: Seq<char>, i: int) -> bool {
    &&& 0 <= i
    &&& i + lo.len() <= s.len()
    &&& forall|k: int| 0 <= k < lo.len() ==> (s[i + k] == #[trigger] lo[k] || s[i + k] == up[k])
}

/// Checks a case-insensitive occurrence at `i`, with the pattern given in its
/// lower-case and upper-case spellings.
pub fn check_match_ci_at(s: &str, lo: &str, up: &str, i: usize) -> (r: bool)
    requires
        lo@.len() == up@.len(),
    ensures
        r == matches_ci_at(s@, lo@, up@, i as int),
{
    let slen = s.unicode_len();
    let plen = lo.unicode_len();
    if plen > slen || i > slen - plen {
        return false;
    }
    let mut k: usize = 0;
    while k < plen
        invariant
            s@.len() == slen,
            lo@.len() == plen,
            up@.len() == plen,
            plen <= slen,
            i <= slen - plen,
            k <= plen,
            forall|j: int| 0 <= j < k ==> (s@[i + j] == #[trigger] lo@[j] || s@[i + j] == up@[j]),
        decreases plen - k,
    {
        let c = s.get_char(i + k);
        if c != lo.get_char(k) && c != up.get_char(k) {
            return false;
        }
        k = k + 1;
    }
    true
}

/// Finds the leftmost case-insensitive occurrence of the pattern at or after
/// `from`.
pub fn find_first_ci(s: &str, lo: &str, up: &str, from: usize) -> (r: Option<usize>)
    requires
        lo@.len() == up@.len(),
    ensures
        match r {
            Some(j) => from <= j && matches_ci_at(s@, lo@, up@, j as int) && forall|k: int|
                from <= k < j ==> !matches_ci_at(s@, lo@, up@, k),
            None => forall|k: int| from <= k ==> !matches_ci_at(s@, lo@, up@, k),
        },
{
    let slen = s.unicode_len();
    let plen = lo.unicode_len();
    if plen > slen {
        return None;
    }
    let mut j: usize = from;
    while j <= slen - plen
        invariant
            s@.len() == slen,
            lo@.len() == plen,
            up@.len() == plen,
            plen <= slen,
            from <= j,
            forall|k: int| from <= k < j ==> !matches_ci_at(s@, lo@, up@, k),
        decreases slen - j,
    {
        if check_match_ci_at(s, lo, up, j) {
            return Some(j);
        }
        j = j + 1;
    }
    None
}

/// Number of positions at or after `from` where the (non-empty) pattern
/// occurs; overlapping occurrences each count.
pub open spec fn count_matches_from(s: Seq<char>, pat: Seq<char>, from: int) -> nat
    decreases s.len() - from when 0 <= from <= s.len()
{
    if pat.len() == 0 || from < 0 || from + pat.len() > s.len() {
        0
    } else {
        (if matches_at(s, pat, from) {
            1nat
        } else {
            0nat
        }) + count_matches_from(s, pat, from + 1)
    }
}

/// Number of positions where the pattern occurs in `s`.
pub open spec fn count_matches(s: Seq<char>, pat: Seq<char>) -> nat {
    count_matches_from(s, pat, 0)
}

/// Counts the occurrences of `pat` in `s`.
pub fn count_occurrences(s: &str, pat: &str) -> (r: usize)
    requires
        pat@.len() > 0,
    ensures
        r == count_matches(s@, pat@),
{
    let slen = s.unicode_len();
    let plen = pat.unicode_len();
    if plen > slen {
        return 0;
    }
    let mut j: usize = 0;
    let mut acc: usize = 0;
    while j <= slen - plen
        invariant
            s@.len() == slen,
            pat@.len() == plen,
            0 < plen <= slen,
            j <= slen - plen + 1,
            acc <= j,
            acc + count_matches_from(s@, pat@, j as int) == count_matches(s@, pat@),
        decreases slen - j,
    {
        if check_match_at(s, pat, j) {
            acc = acc + 1;
        }
        j = j + 1;
    }
    acc
}

/// The whitespace characters this library trims and tests for blankness.
pub open spec fn is_space_char(c: char) -> bool {
    c == ' ' || c == '\t' || c == '\n' || c == '\r'
}

/// Checks whether a character is whitespace.
pub fn is_space(c: char) -> (r: bool)
    ensures
        r == is_space_char(c),
{
    c == ' ' || c == '\t' || c == '\n' || c == '\r'
}

/// Drops the longest prefix of characters satisfying `p`.
pub open spec fn drop_while_start(s: Seq<char>, p: spec_fn(char) -> bool) -> Seq<char>
    decreases s.len(),
{
    if s.len() > 0 && p(s[0]) {
        drop_while_start(s.drop_first(), p)
    } else {
        s
    }
}

/// Drops the longest suffix of characters satisfying `p`.
pub open spec fn drop_while_end(s: Seq<char>, p: spec_fn(char) -> bool) -> Seq<char>
    decreases s.len(),
{
    if s.len() > 0 && p(s[s.len() - 1]) {
        drop_while_end(s.drop_last(), p)
    } else {
        s
    }
}

/// `s` with leading and trailing whitespace removed.
pub open spec fn trim_spec(s: Seq<char>) -> Seq<char> {
    drop_while_end(drop_while_start(s, |c: char| is_space_char(c)), |c: char| is_space_char(c))
}

/// If the first `i` characters satisfy `p` and the one after them (if any)
/// does not, then dropping the prefix drops exactly those `i` characters.
pub proof fn lemma_drop_while_start(s: Seq<char>, p: spec_fn(char) -> bool, i: int)
    requires
        0 <= i <= s.len(),
        forall|k: int| 0 <= k < i ==> p(#[trigger] s[k]),
        i < s.len() ==> !p(s[i]),
    ensures
        drop_while_start(s, p) == s.skip(i),
    decreases i,
{
    if i > 0 {
        assert(p(s[0]));
        lemma_drop_while_start(s.drop_first(), p, i - 1);
        assert(s.drop_first().skip(i - 1) =~= s.skip(i));
    } else {
        assert(s.skip(0) =~= s);
    }
}

/// If the characters from `b` on satisfy `p` and the one before them (if any)
/// does not, then dropping the suffix keeps exactly the first `b` characters.
pub proof fn lemma_drop_while_end(s: Seq<char>, p: spec_fn(char) -> bool, b: int)
    requires
        0 <= b <= s.len(),
        forall|k: int| b <= k < s.len() ==> p(#[trigger] s[k]),
        b > 0 ==> !p(s[b - 1]),
    ensures
        drop_while_end(s, p) == s.take(b),
    decreases s.len() - b,
{
    if b < s.len() {
        assert(p(s[s.len() - 1]));
        lemma_drop_while_end(s.drop_last(), p, b);
        assert(s.drop_last().take(b) =~= s.take(b));
    } else {
        assert(s.take(s.len() as int) =~= s);
    }
}

/// Copies `s` without its leading and trailing whitespace.
pub fn trim_str(s: &str) -> (r: String)
    ensures
        r@ == trim_spec(s@),
{
    let len = s.unicode_len();
    let mut a: usize = 0;
    while a < len && is_space(s.get_char(a))
        invariant
            s@.len() == len,
            a <= len,
            forall|k: int| 0 <= k < a ==> is_space_char(#[trigger] s@[k]),
        decreases len - a,
    {
        a = a + 1;
    }
    let mut b: usize = len;
    while b > a && is_space(s.get_char(b - 1))
        invariant
            s@.len() == len,
            a <= b <= len,
            forall|k: int| b <= k < len ==> is_space_char(#[trigger] s@[k]),
        decreases b,
    {
        b = b - 1;
    }
    let out = s.substring_char(a, b).to_owned();
    proof {
        let p = |c: char| is_space_char(c);
        lemma_drop_while_start(s@, p, a as int);
        let mid = s@.skip(a as int);
        lemma_drop_while_end(mid, p, b - a);
        assert(mid.take(b - a) =~= s@.subrange(a as int, b as int));
    }
    out
}

/// All characters of `s` are whitespace.
pub open spec fn is_blank_spec(s: Seq<char>) -> bool {
    forall|k: int| 0 <= k < s.len() ==> is_space_char(#[trigger] s[k])
}

/// Checks whether `s` is empty or whitespace only.
pub fn is_blank(s: &str) -> (r: bool)
    ensures
        r == is_blank_spec(s@),
{
    let len = s.unicode_len();
    let mut i: usize = 0;
    while i < len
        invariant
            s@.len() == len,
            i <= len,
            forall|k: int| 0 <= k < i ==> is_space_char(#[trigger] s@[k]),
        decreases len - i,
    {
        if !is_space(s.get_char(i)) {
            return false;
        }
        i = i + 1;
    }
    true
}

/// `s` without its trailing `/` characters.
pub open spec fn strip_trailing_slashes_spec(s: Seq<char>) -> Seq<char> {
    drop_while_end(s, |c: char| c == '/')
}

/// Copies `s` without its trailing `/` characters.
pub fn strip_trailing_slashes(s: &str) -> (r: String)
    ensures
        r@ == strip_trailing_slashes_spec(s@),
{
    let len = s.unicode_len();
    let mut b: usize = len;
    while b > 0 && s.get_char(b - 1) == '/'
        invariant
            s@.len() == len,
            b <= len,
            forall|k: int| b <= k < len ==> #[trigger] s@[k] == '/',
        decreases b,
    {
        b = b - 1;
    }
    let out = s.substring_char(0, b).to_owned();
    proof {
        lemma_drop_while_end(s@, |c: char| c == '/', b as int);
        assert(s@.take(b as int) =~= s@.subrange(0, b as int));
    }
    out
}

/// The character for a decimal digit.
pub open spec fn dec_digit_char(d: int) -> char {
    if d == 0 {
        '0'
    } else if d == 1 {
        '1'
    } else if d == 2 {
        '2'
    } else if d == 3 {
        '3'
    } else if d == 4 {
        '4'
    } else if d == 5 {
        '5'
    } else if d == 6 {
        '6'
    } else if d == 7 {
        '7'
    } else if d == 8 {
        '8'
    } else {
        '9'
    }
}

/// The decimal digits of a non-negative number, most significant first.
pub open spec fn dec_digits(n: int) -> Seq<char>
    decreases n when n >= 0
{
    if n < 10 {
        seq![dec_digit_char(n)]
    } else {
        dec_digits(n / 10) + seq![dec_digit_char(n % 10)]
    }
}

/// Appends one decimal digit character.
fn append_digit(out: &mut String, d: u64)
    requires
        d < 10,
    ensures
        final(out)@ == old(out)@ + seq![dec_digit_char(d as int)],
{
    let piece: &str = if d == 0 {
        "0"
    } else if d == 1 {
        "1"
    } else if d == 2 {
        "2"
    } else if d == 3 {
        "3"
    } else if d == 4 {
        "4"
    } else if d == 5 {
        "5"
    } else if d == 6 {
        "6"
    } else if d == 7 {
        "7"
    } else if d == 8 {
        "8"
    } else {
        "9"
    };
    proof {
        reveal_strlit("0");
        reveal_strlit("1");
        reveal_strlit("2");
        reveal_strlit("3");
        reveal_strlit("4");
        reveal_strlit("5");
        reveal_strlit("6");
        reveal_strlit("7");
        reveal_strlit("8");
        reveal_strlit("9");
        assert(piece@ =~= seq![dec_digit_char(d as int)]);
    }
    out.append(piece);
}

/// Appends the decimal rendering of `n`.
pub fn append_u64(out: &mut String, n: u64)
    ensures
        final(out)@ == old(out)@ + dec_digits(n as int),
    decreases n,
{
    if n >= 10 {
        append_u64(out, n / 10);
        append_digit(out, n % 10);
        proof {
            assert(old(out)@ + dec_digits((n / 10) as int) + seq![dec_digit_char((n % 10) as int)]
                =~= old(out)@ + dec_digits(n as int));
        }
    } else {
        append_digit(out, n);
    }
}

} // verus!
