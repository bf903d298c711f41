//! Character and string groundwork: the trusted boundary around the Unicode
//! character classes and case folding that the sanitization and matching
//! rules depend on, and verified trimming, filtering, counting and substring
//! search on top of it.
use vstd::prelude::*;

verus! {

// ---------------------------------------------------------------------------
// Trusted boundary: Unicode character classes.
//
// Each `uninterp` function names the result of one outside predicate; the
// wrapper beside it is the only way the library learns anything about it.
// On the ASCII range the documented tables are stated exactly.
// ---------------------------------------------------------------------------

/// What `char::is_whitespace` returns: the Unicode `White_Space` property.
pub uninterp spec fn is_space_char(c: char) -> bool;

/// Relies on `char::is_whitespace`; on ASCII the documented whitespace set
/// (space, tab, line feed, carriage return, vertical tab, form feed) is
/// stated exactly.
#[verifier::external_body]
pub fn char_is_space(c: char) -> (r: bool)
    ensures
        r == is_space_char(c),
        (c as u32) < 128 ==> r == (c == ' ' || c == '\t' || c == '\n' || c == '\r' || c
            == '\u{000B}' || c == '\u{000C}'),
{
    c.is_whitespace()
}

/// What `char::is_control` returns: the Unicode `Cc` category.
pub uninterp spec fn is_ctrl_char(c: char) -> bool;

/// Relies on `char::is_control`; on ASCII the documented control range
/// (below space, plus delete) is stated exactly.
#[verifier::external_body]
pub fn char_is_ctrl(c: char) -> (r: bool)
    ensures
        r == is_ctrl_char(c),
        (c as u32) < 128 ==> r == ((c as u32) < 32 || (c as u32) == 127),
{
    c.is_control()
}

/// What `char::is_uppercase` returns: the Unicode `Uppercase` property.
pub uninterp spec fn is_upper_char(c: char) -> bool;

/// Relies on `char::is_uppercase`; on ASCII exactly the letters `A` to `Z`.
#[verifier::external_body]
pub fn char_is_upper(c: char) -> (r: bool)
    ensures
        r == is_upper_char(c),
        (c as u32) < 128 ==> r == ('A' <= c && c <= 'Z'),
{
    c.is_uppercase()
}

/// What `char::is_alphabetic` returns: the Unicode `Alphabetic` property.
pub uninterp spec fn is_alpha_char(c: char) -> bool;

/// Relies on `char::is_alphabetic`; on ASCII exactly the two letter ranges.
#[verifier::external_body]
pub fn char_is_alpha(c: char) -> (r: bool)
    ensures
        r == is_alpha_char(c),
        (c as u32) < 128 ==> r == (('A' <= c && c <= 'Z') || ('a' <= c && c <= 'z')),
{
    c.is_alphabetic()
}

/// What `char::is_numeric` returns: the Unicode numeric categories.
pub uninterp spec fn is_num_char(c: char) -> bool;

/// Relies on `char::is_numeric`; on ASCII exactly the digits `0` to `9`.
#[verifier::external_body]
pub fn char_is_num(c: char) -> (r: bool)
    ensures
        r == is_num_char(c),
        (c as u32) < 128 ==> r == ('0' <= c && c <= '9'),
{
    c.is_numeric()
}

// ---------------------------------------------------------------------------
// Trusted boundary: case folding and string construction.
// ---------------------------------------------------------------------------

/// What `str::to_lowercase` returns: Unicode lowercasing, a function of the
/// characters alone.
pub uninterp spec fn lower_of(s: Seq<char>) -> Seq<char>;

/// Relies on `str::to_lowercase`: the result depends on the characters alone,
/// and an empty string stays empty.
#[verifier::external_body]
pub fn to_lowercase_string(s: &str) -> (r: String)
    ensures
        r@ == lower_of(s@),
        s@.len() == 0 ==> r@.len() == 0,
{
    s.to_lowercase()
}

/// Relies on `core::iter::Iterator::collect`: collecting the characters of a
/// vector yields the string with exactly those characters.
#[verifier::external_body]
pub fn string_from_chars(v: &Vec<char>) -> (r: String)
    ensures
        r@ == v@,
{
    v.iter().collect()
}

// ---------------------------------------------------------------------------
// Verified character-level plumbing.
// ---------------------------------------------------------------------------

/// The characters of a string, as a vector.
pub fn chars_of(s: &str) -> (r: Vec<char>)
    ensures
        r@ == s@,
{
    let n: usize = s.unicode_len();
    let mut r: Vec<char> = Vec::new();
    let mut i: usize = 0;
    while i < n
        invariant
            n == s@.len(),
            i <= n,
            r@ == s@.subrange(0, i as int),
        decreases n - i,
    {
        r.push(s.get_char(i));
        proof {
            assert(r@ =~= s@.subrange(0, i + 1 as int));
        }
        i = i + 1;
    }
    proof {
        assert(r@ =~= s@);
    }
    r
}

// ---------------------------------------------------------------------------
// Trimming.
// ---------------------------------------------------------------------------

/// `s` with leading whitespace removed.
pub open spec fn trim_front(s: Seq<char>) -> Seq<char>
    decreases s.len(),
{
    if s.len() > 0 && is_space_char(s[0]) {
        trim_front(s.drop_first())
    } else {
        s
    }
}

/// `s` with trailing whitespace removed.
pub open spec fn trim_back(s: Seq<char>) -> Seq<char>
    decreases s.len(),
{
    if s.len() > 0 && is_space_char(s.last()) {
        trim_back(s.drop_last())
    } else {
        s
    }
}

/// `s` with leading and trailing whitespace removed, the meaning of `trim`.
pub open spec fn trimmed(s: Seq<char>) -> Seq<char> {
    trim_back(trim_front(s))
}

proof fn lemma_trim_front_skip(s: Seq<char>, a: int)
    requires
        0 <= a <= s.len(),
        forall|k: int| 0 <= k < a ==> is_space_char(s[k]),
        a < s.len() ==> !is_space_char(s[a]),
    ensures
        trim_front(s) == s.subrange(a, s.len() as int),
    decreases a,
{
    if a == 0 {
        assert(s.subrange(0, s.len() as int) =~= s);
    } else {
        let t = s.drop_first();
        assert(t =~= s.subrange(1, s.len() as int));
        lemma_trim_front_skip(t, a - 1);
        assert(t.subrange(a - 1, t.len() as int) =~= s.subrange(a, s.len() as int));
    }
}

proof fn lemma_trim_back_skip(s: Seq<char>, b: int)
    requires
        0 <= b <= s.len(),
        forall|k: int| b <= k < s.len() ==> is_space_char(s[k]),
        b > 0 ==> !is_space_char(s[b - 1]),
    ensures
        trim_back(s) == s.subrange(0, b),
    decreases s.len() - b,
{
    if b == s.len() {
        assert(s.subrange(0, b) =~= s);
    } else {
        let t = s.drop_last();
        lemma_trim_back_skip(t, b);
        assert(t.subrange(0, b) =~= s.subrange(0, b));
    }
}

/// Trim whitespace from both ends of a character vector.
pub fn trim_chars(s: &Vec<char>) -> (r: Vec<char>)
    ensures
        r@ == trimmed(s@),
{
    let n: usize = s.len();
    let mut a: usize = 0;
    while a < n && char_is_space(s[a])
        invariant
            n == s@.len(),
            a <= n,
            forall|k: int| 0 <= k < a ==> is_space_char(s@[k]),
        decreases n - a,
    {
        a = a + 1;
    }
    let mut b: usize = n;
    while b > a && char_is_space(s[b - 1])
        invariant
            n == s@.len(),
            a <= b <= n,
            forall|k: int| 0 <= k < a ==> is_space_char(s@[k]),
            forall|k: int| b <= k < n ==> is_space_char(s@[k]),
        decreases b,
    {
        b = b - 1;
    }
    proof {
        lemma_trim_front_skip(s@, a as int);
        let t = s@.subrange(a as int, n as int);
        lemma_trim_back_skip(t, b - a);
        assert(t.subrange(0, b - a) =~= s@.subrange(a as int, b as int));
    }
    let mut r: Vec<char> = Vec::new();
    let mut i: usize = a;
    while i < b
        invariant
            a <= i <= b <= n,
            n == s@.len(),
            r@ == s@.subrange(a as int, i as int),
        decreases b - i,
    {
        r.push(s[i]);
        proof {
            assert(r@ =~= s@.subrange(a as int, i + 1 as int));
        }
        i = i + 1;
    }
    r
}

// ---------------------------------------------------------------------------
// Stripping control characters.
// ---------------------------------------------------------------------------

/// Whether sanitization keeps a character: everything except control
/// characters, with newline and tab allowed through.
pub open spec fn keeps_char(c: char) -> bool {
    !is_ctrl_char(c) || c == '\n' || c == '\t'
}

/// The first `n` characters of `s`, with the characters sanitization drops
/// removed.
pub open spec fn stripped_upto(s: Seq<char>, n: int) -> Seq<char>
    decreases n,
{
    if n <= 0 {
        Seq::empty()
    } else {
        stripped_upto(s, n - 1) + if keeps_char(s[n - 1]) {
            seq![s[n - 1]]
        } else {
            Seq::empty()
        }
    }
}

/// `s` with control characters (other than newline and tab) removed.
pub open spec fn stripped(s: Seq<char>) -> Seq<char> {
    stripped_upto(s, s.len() as int)
}

/// Remove control characters (other than newline and tab).
pub fn strip_ctrl_chars(s: &Vec<char>) -> (r: Vec<char>)
    ensures
        r@ == stripped(s@),
{
    let n: usize = s.len();
    let mut r: Vec<char> = Vec::new();
    let mut i: usize = 0;
    while i < n
        invariant
            n == s@.len(),
            i <= n,
            r@ == stripped_upto(s@, i as int),
        decreases n - i,
    {
        let c = s[i];
        if !char_is_ctrl(c) || c == '\n' || c == '\t' {
            r.push(c);
        }
        i = i + 1;
    }
    r
}

// ---------------------------------------------------------------------------
// Word and character counting.
// ---------------------------------------------------------------------------

/// Number of words begun within the first `n` characters: positions where a
/// non-whitespace character follows the start or a whitespace character.
pub open spec fn words_upto(s: Seq<char>, n: int) -> int
    decreases n,
{
    if n <= 0 {
        0
    } else {
        words_upto(s, n - 1) + if !is_space_char(s[n - 1]) && (n == 1 || is_space_char(
            s[n - 2],
        )) {
            1int
        } else {
            0int
        }
    }
}

/// Number of whitespace-separated words in `s`.
pub open spec fn word_count(s: Seq<char>) -> int {
    words_upto(s, s.len() as int)
}

proof fn lemma_words_upto_bound(s: Seq<char>, n: int)
    requires
        0 <= n <= s.len(),
    ensures
        0 <= words_upto(s, n) <= n,
    decreases n,
{
    if n > 0 {
        lemma_words_upto_bound(s, n - 1);
    }
}

/// Count whitespace-separated words.
pub fn count_words(s: &Vec<char>) -> (r: usize)
    ensures
        r == word_count(s@),
{
    let n: usize = s.len();
    let mut count: usize = 0;
    let mut i: usize = 0;
    while i < n
        invariant
            n == s@.len(),
            i <= n,
            count == words_upto(s@, i as int),
            count <= i,
        decreases n - i,
    {
        proof {
            lemma_words_upto_bound(s@, i as int);
        }
        let here_space = char_is_space(s[i]);
        let starts = if !here_space {
            if i == 0 {
                true
            } else {
                char_is_space(s[i - 1])
            }
        } else {
            false
        };
        if starts {
            count = count + 1;
        }
        i = i + 1;
    }
    count
}

/// Whether every character of `s` is numeric or whitespace.
pub open spec fn all_num_or_space(s: Seq<char>) -> bool {
    forall|k: int| 0 <= k < s.len() ==> is_num_char(s[k]) || is_space_char(s[k])
}

/// Check that every character is numeric or whitespace.
pub fn chars_all_num_or_space(s: &Vec<char>) -> (r: bool)
    ensures
        r == all_num_or_space(s@),
{
    let n: usize = s.len();
    let mut i: usize = 0;
    while i < n
        invariant
            n == s@.len(),
            i <= n,
            forall|k: int| 0 <= k < i ==> is_num_char(s@[k]) || is_space_char(s@[k]),
        decreases n - i,
    {
        let c = s[i];
        let numeric = char_is_num(c);
        let space = char_is_space(c);
        if !numeric && !space {
            return false;
        }
        i = i + 1;
    }
    true
}

/// Number of alphabetic characters among the first `n`.
pub open spec fn alpha_upto(s: Seq<char>, n: int) -> int
    decreases n,
{
    if n <= 0 {
        0
    } else {
        alpha_upto(s, n - 1) + if is_alpha_char(s[n - 1]) {
            1int
        } else {
            0int
        }
    }
}

/// Number of alphabetic characters of `s`.
pub open spec fn alpha_count(s: Seq<char>) -> int {
    alpha_upto(s, s.len() as int)
}

/// Number of uppercase alphabetic characters among the first `n`.
pub open spec fn upper_alpha_upto(s: Seq<char>, n: int) -> int
    decreases n,
{
    if n <= 0 {
        0
    } else {
        upper_alpha_upto(s, n - 1) + if is_alpha_char(s[n - 1]) && is_upper_char(s[n - 1]) {
            1int
        } else {
            0int
        }
    }
}

/// Number of uppercase alphabetic characters of `s`.
pub open spec fn upper_alpha_count(s: Seq<char>) -> int {
    upper_alpha_upto(s, s.len() as int)
}

proof fn lemma_alpha_counts_bound(s: Seq<char>, n: int)
    requires
        0 <= n <= s.len(),
    ensures
        0 <= upper_alpha_upto(s, n) <= alpha_upto(s, n) <= n,
    decreases n,
{
    if n > 0 {
        lemma_alpha_counts_bound(s, n - 1);
    }
}

/// Count the alphabetic characters and the uppercase ones among them.
pub fn count_alpha_and_upper(s: &Vec<char>) -> (r: (usize, usize))
    ensures
        r.0 == alpha_count(s@),
        r.1 == upper_alpha_count(s@),
        r.1 <= r.0 <= s@.len(),
{
    let n: usize = s.len();
    let mut alpha: usize = 0;
    let mut upper: usize = 0;
    let mut i: usize = 0;
    while i < n
        invariant
            n == s@.len(),
            i <= n,
            alpha == alpha_upto(s@, i as int),
            upper == upper_alpha_upto(s@, i as int),
            upper <= alpha <= i,
        decreases n - i,
    {
        proof {
            lemma_alpha_counts_bound(s@, i as int);
        }
        let c = s[i];
        if char_is_alpha(c) {
            alpha = alpha + 1;
            if char_is_upper(c) {
                upper = upper + 1;
            }
        }
        i = i + 1;
    }
    (alpha, upper)
}

/// Number of occurrences of `c` among the first `n` characters.
pub open spec fn occurrences_upto(s: Seq<char>, c: char, n: int) -> int
    decreases n,
{
    if n <= 0 {
        0
    } else {
        occurrences_upto(s, c, n - 1) + if s[n - 1] == c {
            1int
        } else {
            0int
        }
    }
}

/// Number of occurrences of `c` in `s`.
pub open spec fn occurrences(s: Seq<char>, c: char) -> int {
    occurrences_upto(s, c, s.len() as int)
}

proof fn lemma_occurrences_bound(s: Seq<char>, c: char, n: int)
    requires
        0 <= n <= s.len(),
    ensures
        0 <= occurrences_upto(s, c, n) <= n,
    decreases n,
{
    if n > 0 {
        lemma_occurrences_bound(s, c, n - 1);
    }
}

/// Count occurrences of one character.
pub fn count_char(s: &Vec<char>, c: char) -> (r: usize)
    ensures
        r == occurrences(s@, c),
{
    let n: usize = s.len();
    let mut count: usize = 0;
    let mut i: usize = 0;
    while i < n
        invariant
            n == s@.len(),
            i <= n,
            count == occurrences_upto(s@, c, i as int),
            count <= i,
        decreases n - i,
    {
        proof {
            lemma_occurrences_bound(s@, c, i as int);
        }
        if s[i] == c {
            count = count + 1;
        }
        i = i + 1;
    }
    count
}

// ---------------------------------------------------------------------------
// Decimal rendering.
// ---------------------------------------------------------------------------

/// The character of one decimal digit.
pub open spec fn digit_char(d: int) -> char {
    if d == 0 {
        '0'
    } else if d == 1 {
        '1'
    } else if d == 2 {
        '2'
    } else if d == 3 {
        '3'
    } else if d == 4 {
        '4'
    } else if d == 5 {
        '5'
    } else if d == 6 {
        '6'
    } else if d == 7 {
        '7'
    } else if d == 8 {
        '8'
    } else {
        '9'
    }
}

/// The decimal rendering of a natural number.
pub open spec fn dec_str(n: nat) -> Seq<char>
    decreases n,
{
    if n < 10 {
        seq![digit_char(n as int)]
    } else {
        dec_str(n / 10) + seq![digit_char((n % 10) as int)]
    }
}

/// Render a number in decimal.
pub fn u64_to_string(n: u64) -> (r: String)
    ensures
        r@ == dec_str(n as nat),
{
    let mut digits: Vec<char> = Vec::new();
    let mut rest: u64 = n;
    loop
        invariant
            dec_str(n as nat) == (if rest < 10 {
                seq![digit_char(rest as int)]
            } else {
                dec_str((rest / 10) as nat) + seq![digit_char((rest % 10) as int)]
            }) + digits@.reverse(),
        decreases rest,
    {
        let d = (rest % 10) as u8;
        let c: char = if d == 0 {
            '0'
        } else if d == 1 {
            '1'
        } else if d == 2 {
            '2'
        } else if d == 3 {
            '3'
        } else if d == 4 {
            '4'
        } else if d == 5 {
            '5'
        } else if d == 6 {
            '6'
        } else if d == 7 {
            '7'
        } else if d == 8 {
            '8'
        } else {
            '9'
        };
        if rest < 10 {
            let mut out: Vec<char> = Vec::new();
            out.push(c);
            let ghost pre = out@;
            let mut k: usize = digits.len();
            while k > 0
                invariant
                    k <= digits@.len(),
                    out@ == pre + digits@.reverse().take(digits@.len() - k),
                decreases k,
            {
                k = k - 1;
                out.push(digits[k]);
                proof {
                    assert(out@ =~= pre + digits@.reverse().take(digits@.len() - k));
                }
            }
            proof {
                assert(digits@.reverse().take(digits@.len() as int) =~= digits@.reverse());
                assert(out@ =~= dec_str(n as nat));
            }
            return string_from_chars(&out);
        } else {
            let ghost d0 = digits@;
            digits.push(c);
            proof {
                assert(digits@.reverse() =~= seq![c] + d0.reverse());
                assert((dec_str((rest / 10) as nat) + seq![digit_char((rest % 10) as int)])
                    + d0.reverse() =~= dec_str((rest / 10) as nat) + (seq![
                    digit_char((rest % 10) as int),
                ] + d0.reverse()));
                assert((if (rest / 10) < 10 {
                    seq![digit_char((rest / 10) as int)]
                } else {
                    dec_str(((rest / 10) / 10) as nat) + seq![digit_char(((rest / 10) % 10) as int)]
                }) == dec_str((rest / 10) as nat));
            }
            rest = rest / 10;
        }
    }
}

/// The decimal rendering of an integer, with a sign when negative.
pub open spec fn int_str(n: int) -> Seq<char> {
    if n < 0 {
        seq!['-'] + dec_str((-n) as nat)
    } else {
        dec_str(n as nat)
    }
}

/// Render a signed number in decimal.
pub fn i64_to_string(n: i64) -> (r: String)
    ensures
        r@ == int_str(n as int),
{
    if n < 0 {
        let magnitude: u64 = (-(n as i128)) as u64;
        let mut out = String::from_str("-");
        let digits = u64_to_string(magnitude);
        out.append(digits.as_str());
        proof {
            reveal_strlit("-");
            assert(out@ =~= int_str(n as int));
        }
        out
    } else {
        u64_to_string(n as u64)
    }
}

// ---------------------------------------------------------------------------
// Equality and cloning helpers.
// ---------------------------------------------------------------------------

/// Character-by-character equality of two vectors.
pub fn chars_eq(a: &Vec<char>, b: &Vec<char>) -> (r: bool)
    ensures
        r == (a@ == b@),
{
    let n: usize = a.len();
    if n != b.len() {
        return false;
    }
    let mut i: usize = 0;
    while i < n
        invariant
            n == a@.len() == b@.len(),
            i <= n,
            forall|k: int| 0 <= k < i ==> a@[k] == b@[k],
        decreases n - i,
    {
        if a[i] != b[i] {
            return false;
        }
        i = i + 1;
    }
    proof {
        assert(a@ =~= b@);
    }
    true
}

/// Equality of the character sequences of two strings.
pub fn str_eq(a: &str, b: &str) -> (r: bool)
    ensures
        r == (a@ == b@),
{
    let av = chars_of(a);
    let bv = chars_of(b);
    chars_eq(&av, &bv)
}

/// Whether a list of strings holds one with the given characters.
pub fn string_list_contains(v: &Vec<String>, s: &String) -> (r: bool)
    ensures
        r == v.deep_view().contains(s@),
{
    let n: usize = v.len();
    let mut i: usize = 0;
    while i < n
        invariant
            n == v@.len(),
            i <= n,
            forall|k: int| 0 <= k < i ==> v.deep_view()[k] != s@,
        decreases n - i,
    {
        if v[i].eq(s) {
            proof {
                assert(v.deep_view()[i as int] == s@);
            }
            return true;
        }
        i = i + 1;
    }
    proof {
        assert(forall|k: int| 0 <= k < v.deep_view().len() ==> v.deep_view()[k] != s@);
    }
    false
}

/// Lexicographic order on character sequences, by code point: whether `a`
/// sorts at or before `b`.
pub open spec fn chars_le(a: Seq<char>, b: Seq<char>) -> bool
    decreases a.len(),
{
    if a.len() == 0 {
        true
    } else if b.len() == 0 {
        false
    } else if a[0] != b[0] {
        (a[0] as u32) < (b[0] as u32)
    } else {
        chars_le(a.drop_first(), b.drop_first())
    }
}

proof fn lemma_char_cast_distinct(x: char, y: char)
    requires
        x != y,
    ensures
        (x as u32) != (y as u32),
{
}

/// The order is total.
pub proof fn lemma_chars_le_total(a: Seq<char>, b: Seq<char>)
    ensures
        chars_le(a, b) || chars_le(b, a),
    decreases a.len(),
{
    if a.len() == 0 {
    } else if b.len() == 0 {
        assert(chars_le(b, a));
    } else if a[0] == b[0] {
        lemma_chars_le_total(a.drop_first(), b.drop_first());
    } else {
        lemma_char_cast_distinct(a[0], b[0]);
        if (a[0] as u32) < (b[0] as u32) {
            assert(chars_le(a, b));
        } else {
            assert(chars_le(b, a));
        }
    }
}

/// The order is transitive.
pub proof fn lemma_chars_le_trans(a: Seq<char>, b: Seq<char>, c: Seq<char>)
    requires
        chars_le(a, b),
        chars_le(b, c),
    ensures
        chars_le(a, c),
    decreases a.len(),
{
    if a.len() > 0 && b.len() > 0 && c.len() > 0 && a[0] == b[0] && b[0] == c[0] {
        lemma_chars_le_trans(a.drop_first(), b.drop_first(), c.drop_first());
    }
}

/// The order is antisymmetric.
pub proof fn lemma_chars_le_antisym(a: Seq<char>, b: Seq<char>)
    requires
        chars_le(a, b),
        chars_le(b, a),
    ensures
        a == b,
    decreases a.len(),
{
    if a.len() > 0 && b.len() > 0 && a[0] == b[0] {
        lemma_chars_le_antisym(a.drop_first(), b.drop_first());
        assert(a =~= seq![a[0]] + a.drop_first());
        assert(b =~= seq![b[0]] + b.drop_first());
    }
}

/// Compare two character vectors lexicographically.
pub fn chars_le_exec(a: &Vec<char>, b: &Vec<char>) -> (r: bool)
    ensures
        r == chars_le(a@, b@),
{
    let na: usize = a.len();
    let nb: usize = b.len();
    let mut i: usize = 0;
    proof {
        assert(a@.skip(0) =~= a@);
        assert(b@.skip(0) =~= b@);
    }
    loop
        invariant
            na == a@.len(),
            nb == b@.len(),
            i <= na,
            i <= nb,
            chars_le(a@, b@) == chars_le(a@.skip(i as int), b@.skip(i as int)),
        decreases na - i,
    {
        if i == na {
            return true;
        }
        if i == nb {
            return false;
        }
        if a[i] != b[i] {
            return (a[i] as u32) < (b[i] as u32);
        }
        proof {
            assert(a@.skip(i as int).drop_first() =~= a@.skip(i + 1 as int));
            assert(b@.skip(i as int).drop_first() =~= b@.skip(i + 1 as int));
        }
        i = i + 1;
    }
}

/// Compare two strings lexicographically by their characters.
pub fn str_le(a: &str, b: &str) -> (r: bool)
    ensures
        r == chars_le(a@, b@),
{
    let av = chars_of(a);
    let bv = chars_of(b);
    chars_le_exec(&av, &bv)
}

/// Clone an optional string.
pub fn clone_opt_string(o: &Option<String>) -> (r: Option<String>)
    ensures
        r == *o,
{
    match o {
        Some(s) => Some(s.clone()),
        None => None,
    }
}

// ---------------------------------------------------------------------------
// Substring search.
// ---------------------------------------------------------------------------

/// Whether `sub` occurs in `s` starting at position `i`.
pub open spec fn occurs_at(s: Seq<char>, sub: Seq<char>, i: int) -> bool {
    0 <= i && i + sub.len() <= s.len() && s.subrange(i, i + sub.len() as int) == sub
}

/// Whether `sub` occurs somewhere in `s`.
pub open spec fn contains_seq(s: Seq<char>, sub: Seq<char>) -> bool {
    exists|i: int| occurs_at(s, sub, i)
}

/// Naive substring search.
pub fn contains_sub(s: &Vec<char>, sub: &Vec<char>) -> (r: bool)
    ensures
        r == contains_seq(s@, sub@),
{
    let n: usize = s.len();
    let m: usize = sub.len();
    if m > n {
        proof {
            assert(forall|i: int| !occurs_at(s@, sub@, i));
        }
        return false;
    }
    if m == 0 {
        proof {
            assert(s@.subrange(0, 0) =~= sub@);
            assert(occurs_at(s@, sub@, 0));
        }
        return true;
    }
    let mut i: usize = 0;
    while i <= n - m
        invariant
            n == s@.len(),
            m == sub@.len(),
            1 <= m <= n,
            i <= n - m + 1,
            forall|k: int| 0 <= k < i ==> !occurs_at(s@, sub@, k),
        decreases n - i,
    {
        let mut j: usize = 0;
        let mut matched = true;
        while j < m
            invariant
                n == s@.len(),
                m == sub@.len(),
                m <= n,
                i <= n - m,
                j <= m,
                matched ==> forall|k: int| 0 <= k < j ==> s@[i + k] == sub@[k],
                !matched ==> !occurs_at(s@, sub@, i as int),
            decreases m - j,
        {
            if s[i + j] != sub[j] {
                proof {
                    assert(s@.subrange(i as int, i + m as int)[j as int] != sub@[j as int]);
                }
                matched = false;
                j = m;
            } else {
                j = j + 1;
            }
        }
        if matched {
            proof {
                assert(s@.subrange(i as int, i + m as int) =~= sub@);
                assert(occurs_at(s@, sub@, i as int));
            }
            return true;
        }
        i = i + 1;
    }
    proof {
        assert(forall|k: int| occurs_at(s@, sub@, k) ==> 0 <= k <= n - m);
    }
    false
}

/// Substring search on strings.
pub fn str_contains_sub(s: &str, sub: &str) -> (r: bool)
    ensures
        r == contains_seq(s@, sub@),
{
    let sv = chars_of(s);
    let subv = chars_of(sub);
    contains_sub(&sv, &subv)
}

/// Case-insensitive substring match: whether the lowercased needle occurs in
/// the lowercased haystack.
pub open spec fn contains_insensitive(hay: Seq<char>, needle: Seq<char>) -> bool {
    contains_seq(lower_of(hay), lower_of(needle))
}

/// Check a case-insensitive substring match by lowercasing both sides.
pub fn matches_insensitive(hay: &str, needle: &str) -> (r: bool)
    ensures
        r == contains_insensitive(hay@, needle@),
{
    let hl = to_lowercase_string(hay);
    let nl = to_lowercase_string(needle);
    str_contains_sub(hl.as_str(), nl.as_str())
}

// ---------------------------------------------------------------------------
// Convenience pipelines used by sanitization.
// ---------------------------------------------------------------------------

/// Trim a string, returning a new string.
pub fn trim_string(s: &str) -> (r: String)
    ensures
        r@ == trimmed(s@),
{
    let v = chars_of(s);
    let t = trim_chars(&v);
    string_from_chars(&t)
}

/// Trim a string and strip control characters, the sanitization pipeline for
/// free-text fields.
pub fn trim_and_strip_string(s: &str) -> (r: String)
    ensures
        r@ == stripped(trimmed(s@)),
{
    let v = chars_of(s);
    let t = trim_chars(&v);
    let k = strip_ctrl_chars(&t);
    string_from_chars(&k)
}

/// Trim a string and lowercase it, the sanitization pipeline for email
/// fields.
pub fn trim_and_lower_string(s: &str) -> (r: String)
    ensures
        r@ == lower_of(trimmed(s@)),
{
    let v = chars_of(s);
    let t = trim_chars(&v);
    let ts = string_from_chars(&t);
    to_lowercase_string(ts.as_str())
}

} // verus!
