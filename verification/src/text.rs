//! Character-level text helpers shared by the UCI parsers: white space, words,
//! trimming, literal comparison, joining and unsigned decimal numbers.

use vstd::prelude::*;
use vstd::string::*;

verus! {

/// The Unicode `White_Space` property, which is what `char::is_whitespace`
/// (and therefore `str::trim` and `str::split_whitespace`) tests.
pub open spec fn is_space(c: char) -> bool {
    let n = c as u32;
    ||| 0x09 <= n <= 0x0d
    ||| n == 0x20
    ||| n == 0x85
    ||| n == 0xa0
    ||| n == 0x1680
    ||| 0x2000 <= n <= 0x200a
    ||| n == 0x2028
    ||| n == 0x2029
    ||| n == 0x202f
    ||| n == 0x205f
    ||| n == 0x3000
}

/// Whether `c` is white space.
pub fn is_space_char(c: char) -> (r: bool)
    ensures
        r == is_space(c),
{
    let n = c as u32;
    (0x09 <= n && n <= 0x0d) || n == 0x20 || n == 0x85 || n == 0xa0 || n == 0x1680 || (0x2000
        <= n && n <= 0x200a) || n == 0x2028 || n == 0x2029 || n == 0x202f || n == 0x205f || n
        == 0x3000
}

/// Whether two strings hold the same characters.
pub fn str_eq(a: &str, b: &str) -> (r: bool)
    ensures
        r == (a@ == b@),
{
    let n = a.unicode_len();
    if n != b.unicode_len() {
        return false;
    }
    let mut i: usize = 0;
    while i < n
        invariant
            n == a@.len(),
            n == b@.len(),
            i <= n,
            forall|k: int| 0 <= k < i ==> a@[k] == b@[k],
        decreases n - i,
    {
        if a.get_char(i) != b.get_char(i) {
            return false;
        }
        i = i + 1;
    }
    assert(a@ =~= b@);
    true
}

/// The characters of `s`, in order.
pub fn chars_of(s: &str) -> (v: Vec<char>)
    ensures
        v@ == s@,
{
    broadcast use vstd::string::group_string_axioms;

    let mut v: Vec<char> = Vec::new();
    for c in it: s.chars()
        invariant
            v@ == it.seq().take(it.index()),
            it.seq() == s@,
        ensures
            v@ == s@,
    {
        v.push(c);
        assert(v@ =~= it.seq().take(it.index() + 1));
    }
    v
}

/// The views of a sequence of string slices.
pub open spec fn str_views(ts: Seq<&str>) -> Seq<Seq<char>> {
    ts.map_values(|t: &str| t@)
}

/// Number of leading characters of `s` before the first white space.
pub open spec fn word_len(s: Seq<char>) -> nat
    decreases s.len(),
{
    if s.len() == 0 || is_space(s[0]) {
        0
    } else {
        1 + word_len(s.drop_first())
    }
}

/// A word is never longer than the text it starts.
pub proof fn lemma_word_len_bound(s: Seq<char>)
    ensures
        word_len(s) <= s.len(),
    decreases s.len(),
{
    if s.len() > 0 && !is_space(s[0]) {
        lemma_word_len_bound(s.drop_first());
    }
}

/// The maximal runs of non-white-space characters of `s`, in order: what
/// `str::split_whitespace` yields.
pub open spec fn words(s: Seq<char>) -> Seq<Seq<char>>
    decreases s.len(),
{
    if s.len() == 0 {
        seq![]
    } else if is_space(s[0]) {
        words(s.drop_first())
    } else {
        let w = word_len(s);
        proof {
            lemma_word_len_bound(s);
        }
        seq![s.take(w as int)] + words(s.skip(w as int))
    }
}

/// `s` without its leading white space.
pub open spec fn trim_start(s: Seq<char>) -> Seq<char>
    decreases s.len(),
{
    if s.len() > 0 && is_space(s[0]) {
        trim_start(s.drop_first())
    } else {
        s
    }
}

/// `s` without its trailing white space.
pub open spec fn trim_end(s: Seq<char>) -> Seq<char>
    decreases s.len(),
{
    if s.len() > 0 && is_space(s.last()) {
        trim_end(s.drop_last())
    } else {
        s
    }
}

/// `s` without leading and trailing white space: what `str::trim` returns.
pub open spec fn trim(s: Seq<char>) -> Seq<char> {
    trim_end(trim_start(s))
}

proof fn lemma_word_len(s: Seq<char>, i: int, j: int)
    requires
        0 <= i <= j <= s.len(),
        forall|k: int| i <= k < j ==> !is_space(#[trigger] s[k]),
        j == s.len() || is_space(s[j]),
    ensures
        word_len(s.skip(i)) == j - i,
    decreases j - i,
{
    if i < j {
        assert(s.skip(i).drop_first() =~= s.skip(i + 1));
        lemma_word_len(s, i + 1, j);
    }
}

proof fn lemma_trim_start(s: Seq<char>, i: int)
    requires
        0 <= i <= s.len(),
        forall|k: int| 0 <= k < i ==> is_space(#[trigger] s[k]),
        i == s.len() || !is_space(s[i]),
    ensures
        trim_start(s) == s.skip(i),
    decreases i,
{
    if i == 0 {
        assert(s.skip(0) =~= s);
    } else {
        assert(s.drop_first().skip(i - 1) =~= s.skip(i));
        lemma_trim_start(s.drop_first(), i - 1);
    }
}

proof fn lemma_trim_end(s: Seq<char>, j: int)
    requires
        0 <= j <= s.len(),
        forall|k: int| j <= k < s.len() ==> is_space(#[trigger] s[k]),
        j == 0 || !is_space(s[j - 1]),
    ensures
        trim_end(s) == s.take(j),
    decreases s.len() - j,
{
    if j == s.len() {
        assert(s.take(j) =~= s);
    } else {
        assert(s.drop_last().take(j) =~= s.take(j));
        lemma_trim_end(s.drop_last(), j);
    }
}

proof fn lemma_word_len_shape(s: Seq<char>)
    ensures
        word_len(s) <= s.len(),
        forall|k: int| 0 <= k < word_len(s) ==> !is_space(#[trigger] s[k]),
        word_len(s) == s.len() || is_space(s[word_len(s) as int]),
    decreases s.len(),
{
    if s.len() > 0 && !is_space(s[0]) {
        lemma_word_len_shape(s.drop_first());
        assert forall|k: int| 0 <= k < word_len(s) implies !is_space(#[trigger] s[k]) by {
            if k > 0 {
                assert(s[k] == s.drop_first()[k - 1]);
            }
        }
    }
}

proof fn lemma_words_trim_start(s: Seq<char>)
    ensures
        words(trim_start(s)) == words(s),
    decreases s.len(),
{
    if s.len() > 0 && is_space(s[0]) {
        lemma_words_trim_start(s.drop_first());
    }
}

proof fn lemma_words_drop_trailing_space(s: Seq<char>)
    requires
        s.len() > 0,
        is_space(s.last()),
    ensures
        words(s.drop_last()) == words(s),
    decreases s.len(),
{
    if s.len() == 1 {
        assert(s.drop_first() =~= Seq::<char>::empty());
        assert(s.drop_last() =~= Seq::<char>::empty());
    } else if is_space(s[0]) {
        assert(s.drop_last().drop_first() =~= s.drop_first().drop_last());
        lemma_words_drop_trailing_space(s.drop_first());
    } else {
        let w = word_len(s) as int;
        lemma_word_len_shape(s);
        let d = s.drop_last();
        assert(w < s.len());
        assert forall|k: int| 0 <= k < w implies !is_space(#[trigger] d[k]) by {
            assert(d[k] == s[k]);
        }
        if w < d.len() {
            assert(d[w] == s[w]);
        }
        lemma_word_len(d, 0, w);
        assert(d.skip(0) =~= d);
        assert(d.take(w) =~= s.take(w));
        assert(d.skip(w) =~= s.skip(w).drop_last());
        lemma_words_drop_trailing_space(s.skip(w));
    }
}

proof fn lemma_words_trim_end(s: Seq<char>)
    ensures
        words(trim_end(s)) == words(s),
    decreases s.len(),
{
    if s.len() > 0 && is_space(s.last()) {
        lemma_words_trim_end(s.drop_last());
        lemma_words_drop_trailing_space(s);
    }
}

/// A text without words is all white space, so it trims to nothing.
pub proof fn lemma_no_words_trims_to_empty(s: Seq<char>)
    requires
        words(s).len() == 0,
    ensures
        trim(s).len() == 0,
    decreases s.len(),
{
    if s.len() > 0 {
        if is_space(s[0]) {
            lemma_no_words_trims_to_empty(s.drop_first());
        } else {
            assert(words(s).len() > 0);
        }
    }
}

/// Trimming a text does not change its words.
pub proof fn lemma_words_trim(s: Seq<char>)
    ensures
        words(trim(s)) == words(s),
{
    lemma_words_trim_start(s);
    lemma_words_trim_end(trim_start(s));
}

/// `text` without leading and trailing white space.
pub fn trim_text(text: &str) -> (r: &str)
    ensures
        r@ == trim(text@),
{
    let cs = chars_of(text);
    let n = cs.len();
    let mut i: usize = 0;
    while i < n && is_space_char(cs[i])
        invariant
            n == cs@.len(),
            cs@ == text@,
            i <= n,
            forall|k: int| 0 <= k < i ==> is_space(#[trigger] cs@[k]),
        decreases n - i,
    {
        i = i + 1;
    }
    let mut j: usize = n;
    while j > i && is_space_char(cs[j - 1])
        invariant
            n == cs@.len(),
            i <= j <= n,
            forall|k: int| j <= k < n ==> is_space(#[trigger] cs@[k]),
        decreases j,
    {
        j = j - 1;
    }
    proof {
        let s = text@;
        lemma_trim_start(s, i as int);
        let t = s.skip(i as int);
        assert forall|k: int| (j - i) <= k < t.len() implies is_space(#[trigger] t[k]) by {
            assert(t[k] == s[k + i]);
        }
        lemma_trim_end(t, j - i);
        assert(t.take(j - i) =~= s.subrange(i as int, j as int));
    }
    text.substring_char(i, j)
}

/// The white-space separated words of `text`, in order.
pub fn split_words<'a>(text: &'a str) -> (r: Vec<&'a str>)
    ensures
        str_views(r@) == words(text@),
{
    let cs = chars_of(text);
    let n = cs.len();
    let mut toks: Vec<&'a str> = Vec::new();
    let mut i: usize = 0;
    assert(cs@.skip(0) =~= cs@);
    assert(str_views(toks@) + words(cs@) =~= words(cs@));
    while i < n
        invariant
            n == cs@.len(),
            cs@ == text@,
            i <= n,
            str_views(toks@) + words(cs@.skip(i as int)) == words(cs@),
        decreases n - i,
    {
        let ghost rest = cs@.skip(i as int);
        assert(rest.drop_first() =~= cs@.skip(i + 1));
        if is_space_char(cs[i]) {
            i = i + 1;
        } else {
            let mut j: usize = i + 1;
            while j < n && !is_space_char(cs[j])
                invariant
                    n == cs@.len(),
                    i < j <= n,
                    forall|k: int| i <= k < j ==> !is_space(#[trigger] cs@[k]),
                decreases n - j,
            {
                j = j + 1;
            }
            let tok = text.substring_char(i, j);
            proof {
                lemma_word_len(cs@, i as int, j as int);
                assert(rest.take(j - i) =~= cs@.subrange(i as int, j as int));
                assert(rest.skip(j - i) =~= cs@.skip(j as int));
                assert(str_views(toks@.push(tok)) =~= str_views(toks@).push(tok@));
                assert(str_views(toks@).push(tok@) + words(cs@.skip(j as int)) =~= str_views(
                    toks@,
                ) + (seq![tok@] + words(cs@.skip(j as int))));
            }
            toks.push(tok);
            i = j;
        }
    }
    proof {
        assert(cs@.skip(n as int) =~= Seq::<char>::empty());
        assert(str_views(toks@) + Seq::<Seq<char>>::empty() =~= str_views(toks@));
    }
    toks
}

/// The words joined by single spaces: what `[&str]::join(" ")` returns.
pub open spec fn join_words(ws: Seq<Seq<char>>) -> Seq<char>
    decreases ws.len(),
{
    if ws.len() == 0 {
        seq![]
    } else if ws.len() == 1 {
        ws[0]
    } else {
        join_words(ws.drop_last()) + seq![' '] + ws.last()
    }
}

/// The words of `ws` joined by single spaces.
pub fn join_with_spaces(ws: &[&str]) -> (r: String)
    ensures
        r@ == join_words(str_views(ws@)),
{
    let mut res = String::new();
    let n = ws.len();
    let mut i: usize = 0;
    proof {
        reveal_strlit(" ");
        assert(str_views(ws@).take(0) =~= Seq::<Seq<char>>::empty());
    }
    while i < n
        invariant
            n == ws@.len(),
            i <= n,
            " "@ == seq![' '],
            res@ == join_words(str_views(ws@).take(i as int)),
        decreases n - i,
    {
        let ghost prev = str_views(ws@).take(i as int);
        let ghost next = str_views(ws@).take(i + 1);
        assert(next.drop_last() =~= prev);
        if i > 0 {
            res.append(" ");
        }
        res.append(ws[i]);
        i = i + 1;
    }
    assert(str_views(ws@).take(n as int) =~= str_views(ws@));
    res
}

/// Whether `c` is an ASCII decimal digit.
pub open spec fn is_digit(c: char) -> bool {
    48 <= c as u32 <= 57
}

/// The value of the decimal digit `c` (zero for any other character).
pub open spec fn digit_value(c: char) -> nat {
    if is_digit(c) {
        (c as u32 - 48) as nat
    } else {
        0
    }
}

/// The value of the decimal numeral `s`, most significant digit first.
pub open spec fn digits_value(s: Seq<char>) -> nat
    decreases s.len(),
{
    if s.len() == 0 {
        0
    } else {
        digits_value(s.drop_last()) * 10 + digit_value(s.last())
    }
}

/// `s` without one leading `+` sign, if it has one.
pub open spec fn unsigned_digits(s: Seq<char>) -> Seq<char> {
    if s.len() > 0 && s[0] == '+' {
        s.drop_first()
    } else {
        s
    }
}

/// What `str::parse::<u64>` accepts and returns: an optional `+` followed by at
/// least one ASCII digit, whose value fits in a `u64`.
pub open spec fn decimal_u64(s: Seq<char>) -> Option<u64> {
    let d = unsigned_digits(s);
    if d.len() > 0 && (forall|i: int| 0 <= i < d.len() ==> is_digit(#[trigger] d[i]))
        && digits_value(d) <= u64::MAX {
        Some(digits_value(d) as u64)
    } else {
        None
    }
}

proof fn lemma_digits_prefix_le(s: Seq<char>, k: int)
    requires
        0 <= k <= s.len(),
    ensures
        digits_value(s.take(k)) <= digits_value(s),
    decreases s.len(),
{
    if k == s.len() {
        assert(s.take(k) =~= s);
    } else {
        assert(s.drop_last().take(k) =~= s.take(k));
        lemma_digits_prefix_le(s.drop_last(), k);
    }
}

/// The unsigned decimal number that `s` spells, as `str::parse::<u64>` reads it.
pub fn parse_u64(s: &str) -> (r: Option<u64>)
    ensures
        r == decimal_u64(s@),
{
    let cs = chars_of(s);
    let n = cs.len();
    let start: usize = if n > 0 && cs[0] == '+' {
        1
    } else {
        0
    };
    let ghost d = unsigned_digits(s@);
    assert(d =~= cs@.skip(start as int));
    if start == n {
        return None;
    }
    let mut acc: u64 = 0;
    let mut i: usize = start;
    assert(d.take(0) =~= Seq::<char>::empty());
    while i < n
        invariant
            n == cs@.len(),
            start <= i <= n,
            d == cs@.skip(start as int),
            d == unsigned_digits(s@),
            acc == digits_value(d.take(i - start)),
            forall|k: int| 0 <= k < i - start ==> is_digit(#[trigger] d[k]),
        decreases n - i,
    {
        let c = cs[i];
        let code = c as u32;
        let ghost k = i - start;
        assert(d[k] == c);
        assert(d.take(k + 1).drop_last() =~= d.take(k));
        assert(d.take(k + 1).last() == c);
        if code < 48 || code > 57 {
            assert(!is_digit(d[k]));
            return None;
        }
        assert(digits_value(d.take(k + 1)) == acc * 10 + digit_value(c));
        let dv = (code - 48) as u64;
        let m = match acc.checked_mul(10) {
            Some(m) => m,
            None => {
                proof {
                    lemma_digits_prefix_le(d, i - start + 1);
                }
                return None;
            },
        };
        let v = match m.checked_add(dv) {
            Some(v) => v,
            None => {
                proof {
                    lemma_digits_prefix_le(d, i - start + 1);
                }
                return None;
            },
        };
        acc = v;
        i = i + 1;
        assert(forall|j: int| 0 <= j < k ==> is_digit(#[trigger] d[j]));
        assert(is_digit(d[k]));
    }
    assert(d.take(n - start) =~= d);
    Some(acc)
}

} // verus!
