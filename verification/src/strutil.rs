//! Verified character and string utilities used throughout the harness:
//! whitespace trimming and collapsing, case folding for boolean literals,
//! substring search, and a decimal codec for counters.

use vstd::prelude::*;

verus! {

/// Whitespace as the catalog text format uses it.
pub open spec fn is_ws_char(c: char) -> bool {
    c == ' ' || c == '\t' || c == '\n' || c == '\r'
}

/// Whether `c` counts as whitespace when trimming and collapsing text.
pub fn is_whitespace_char(c: char) -> (r: bool)
    ensures
        r == is_ws_char(c),
{
    c == ' ' || c == '\t' || c == '\n' || c == '\r'
}

/// Relies on `Iterator::collect` for `String`: the collected string holds
/// exactly the characters of the vector, in order.
#[verifier::external_body]
pub(crate) fn chars_to_string(v: &Vec<char>) -> (s: String)
    ensures
        s@ == v@,
{
    v.iter().collect()
}

/// The characters of a string slice, as a vector.
pub fn str_chars(s: &str) -> (r: Vec<char>)
    ensures
        r@ == s@,
{
    let n: usize = s.unicode_len();
    let mut r: Vec<char> = Vec::new();
    let mut i: usize = 0;
    while i < n
        invariant
            i <= n,
            n == s@.len(),
            r@ == s@.take(i as int),
        decreases n - i,
    {
        let c = s.get_char(i);
        r.push(c);
        proof {
            assert(r@ =~= s@.take(i + 1 as int));
        }
        i = i + 1;
    }
    proof {
        assert(r@ =~= s@);
    }
    r
}

/// Equality of two string slices, decided character by character.
pub fn str_eq(a: &str, b: &str) -> (r: bool)
    ensures
        r == (a@ == b@),
{
    let na: usize = a.unicode_len();
    let nb: usize = b.unicode_len();
    if na != nb {
        proof {
            assert(a@ != b@);
        }
        return false;
    }
    let mut i: usize = 0;
    while i < na
        invariant
            i <= na,
            na == a@.len(),
            na == b@.len(),
            forall|k: int| 0 <= k < i ==> a@[k] == b@[k],
        decreases na - i,
    {
        if a.get_char(i) != b.get_char(i) {
            return false;
        }
        i = i + 1;
    }
    proof {
        assert(a@ =~= b@);
    }
    true
}

/// Whether `needle` occurs in `hay` starting at position `at`.
pub open spec fn matches_at(hay: Seq<char>, needle: Seq<char>, at: int) -> bool {
    0 <= at && at + needle.len() <= hay.len() && hay.subrange(at, at + needle.len())
        == needle
}

/// Whether `needle` occurs somewhere in `hay`.
pub open spec fn contains_seq(hay: Seq<char>, needle: Seq<char>) -> bool {
    exists|at: int| matches_at(hay, needle, at)
}

/// Substring search, as `str::contains` decides it.
pub fn str_contains(hay: &str, needle: &str) -> (r: bool)
    ensures
        r == contains_seq(hay@, needle@),
{
    let nh: usize = hay.unicode_len();
    let nn: usize = needle.unicode_len();
    if nn > nh {
        proof {
            assert(!contains_seq(hay@, needle@));
        }
        return false;
    }
    if nn == 0 {
        proof {
            assert(hay@.subrange(0, 0) =~= needle@);
            assert(matches_at(hay@, needle@, 0));
        }
        return true;
    }
    let mut at: usize = 0;
    while at <= nh - nn
        invariant
            0 < nn <= nh,
            nh == hay@.len(),
            nn == needle@.len(),
            at <= nh - nn + 1,
            forall|k: int| 0 <= k < at ==> !matches_at(hay@, needle@, k),
        decreases nh - nn + 1 - at,
    {
        let mut j: usize = 0;
        let mut hit: bool = true;
        while j < nn
            invariant
                at + nn <= nh,
                nh == hay@.len(),
                nn == needle@.len(),
                j <= nn,
                hit ==> forall|k: int| 0 <= k < j ==> hay@[at + k] == needle@[k],
                !hit ==> !matches_at(hay@, needle@, at as int),
            decreases nn - j,
        {
            if hay.get_char(at + j) != needle.get_char(j) {
                proof {
                    assert(hay@.subrange(at as int, at + nn) != needle@) by {
                        assert(hay@.subrange(at as int, at + nn)[j as int] != needle@[j as int]);
                    }
                }
                hit = false;
                j = nn;
            } else {
                j = j + 1;
            }
        }
        if hit {
            proof {
                assert(hay@.subrange(at as int, at + nn) =~= needle@);
                assert(matches_at(hay@, needle@, at as int));
            }
            return true;
        }
        at = at + 1;
    }
    proof {
        assert forall|k: int| #[trigger] matches_at(hay@, needle@, k) implies false by {
            assert(0 <= k < at);
        }
    }
    false
}

/// The sequence with leading whitespace removed.
pub open spec fn trim_start_spec(s: Seq<char>) -> Seq<char>
    decreases s.len(),
{
    if s.len() > 0 && is_ws_char(s[0]) {
        trim_start_spec(s.skip(1))
    } else {
        s
    }
}

/// The sequence with trailing whitespace removed.
pub open spec fn trim_end_spec(s: Seq<char>) -> Seq<char>
    decreases s.len(),
{
    if s.len() > 0 && is_ws_char(s[s.len() - 1]) {
        trim_end_spec(s.take(s.len() - 1))
    } else {
        s
    }
}

/// The sequence with whitespace removed from both ends.
pub open spec fn trim_spec(s: Seq<char>) -> Seq<char> {
    trim_end_spec(trim_start_spec(s))
}

proof fn lemma_trim_start_at(s: Seq<char>, i: int)
    requires
        0 <= i <= s.len(),
        forall|k: int| 0 <= k < i ==> is_ws_char(s[k]),
        i < s.len() ==> !is_ws_char(s[i]),
    ensures
        trim_start_spec(s) == s.skip(i),
    decreases i,
{
    if i == 0 {
        if s.len() > 0 && is_ws_char(s[0]) {
            assert(false);
        }
        assert(s.skip(0) =~= s);
    } else {
        assert(is_ws_char(s[0]));
        lemma_trim_start_at(s.skip(1), i - 1);
        assert(s.skip(1).skip(i - 1) =~= s.skip(i));
    }
}

proof fn lemma_trim_end_at(s: Seq<char>, j: int)
    requires
        0 <= j <= s.len(),
        forall|k: int| j <= k < s.len() ==> is_ws_char(s[k]),
        j > 0 ==> !is_ws_char(s[j - 1]),
    ensures
        trim_end_spec(s) == s.take(j),
    decreases s.len() - j,
{
    if j == s.len() {
        if s.len() > 0 && is_ws_char(s[s.len() - 1]) {
            assert(false);
        }
        assert(s.take(j) =~= s);
    } else {
        assert(is_ws_char(s[s.len() - 1]));
        lemma_trim_end_at(s.take(s.len() - 1), j);
    }
}

/// A copy of `s` with whitespace removed from both ends.
pub fn trim(s: &str) -> (r: String)
    ensures
        r@ == trim_spec(s@),
{
    let n: usize = s.unicode_len();
    let mut start: usize = 0;
    while start < n && is_whitespace_char(s.get_char(start))
        invariant
            start <= n,
            n == s@.len(),
            forall|k: int| 0 <= k < start ==> is_ws_char(s@[k]),
        decreases n - start,
    {
        start = start + 1;
    }
    proof {
        lemma_trim_start_at(s@, start as int);
    }
    let mut end: usize = n;
    while end > start && is_whitespace_char(s.get_char(end - 1))
        invariant
            start <= end <= n,
            n == s@.len(),
            forall|k: int| 0 <= k < start ==> is_ws_char(s@[k]),
            start < n ==> !is_ws_char(s@[start as int]),
            forall|k: int| end <= k < n ==> is_ws_char(s@[k]),
        decreases end,
    {
        end = end - 1;
    }
    let sub = s.substring_char(start, end);
    proof {
        let t = s@.skip(start as int);
        assert(trim_start_spec(s@) == t);
        lemma_trim_end_at(t, end - start);
        assert(t.take(end - start) =~= s@.subrange(start as int, end as int));
    }
    sub.to_owned()
}

/// Normalization of whitespace: runs of whitespace collapse to one space and
/// both ends are trimmed.  This clause skips leading whitespace.
pub open spec fn normalize_ws_spec(s: Seq<char>) -> Seq<char>
    decreases s.len(), 1int,
{
    if s.len() == 0 {
        Seq::empty()
    } else if is_ws_char(s[0]) {
        normalize_ws_spec(s.skip(1))
    } else {
        normalize_word(s)
    }
}

/// Normalization of a sequence that starts inside a word: the word is kept,
/// and whatever follows contributes a single separating space if it holds
/// another word.
pub open spec fn normalize_word(s: Seq<char>) -> Seq<char>
    decreases s.len(), 0int,
{
    if s.len() == 0 {
        Seq::empty()
    } else if is_ws_char(s[0]) {
        let rest = normalize_ws_spec(s.skip(1));
        if rest.len() == 0 {
            Seq::empty()
        } else {
            seq![' '] + rest
        }
    } else {
        seq![s[0]] + normalize_word(s.skip(1))
    }
}

fn normalize_from(chars: &Vec<char>, i: usize) -> (r: Vec<char>)
    requires
        i <= chars@.len(),
    ensures
        r@ == normalize_ws_spec(chars@.skip(i as int)),
    decreases chars@.len() - i, 1int,
{
    proof {
        assert(chars@.skip(i as int).len() == chars@.len() - i);
    }
    if i == chars.len() {
        Vec::new()
    } else if is_whitespace_char(chars[i]) {
        let r = normalize_from(chars, i + 1);
        proof {
            assert(chars@.skip(i as int).skip(1) =~= chars@.skip(i + 1));
        }
        r
    } else {
        normalize_word_from(chars, i)
    }
}

fn normalize_word_from(chars: &Vec<char>, i: usize) -> (r: Vec<char>)
    requires
        i <= chars@.len(),
    ensures
        r@ == normalize_word(chars@.skip(i as int)),
    decreases chars@.len() - i, 0int,
{
    proof {
        assert(chars@.skip(i as int).len() == chars@.len() - i);
    }
    if i == chars.len() {
        Vec::new()
    } else if is_whitespace_char(chars[i]) {
        let mut rest = normalize_from(chars, i + 1);
        proof {
            assert(chars@.skip(i as int).skip(1) =~= chars@.skip(i + 1));
        }
        if rest.len() == 0 {
            Vec::new()
        } else {
            rest.insert(0, ' ');
            proof {
                assert(rest@ =~= seq![' '] + normalize_ws_spec(chars@.skip(i as int).skip(1)));
            }
            rest
        }
    } else {
        let c = chars[i];
        let mut rest = normalize_word_from(chars, i + 1);
        proof {
            assert(chars@.skip(i as int).skip(1) =~= chars@.skip(i + 1));
            assert(chars@.skip(i as int)[0] == chars@[i as int]);
        }
        rest.insert(0, c);
        proof {
            assert(rest@ =~= seq![chars@[i as int]] + normalize_word(chars@.skip(i as int).skip(
                1,
            )));
        }
        rest
    }
}

/// Collapse every run of whitespace in `s` to a single space and trim both
/// ends, as `str::split_whitespace` joined by single spaces would.
pub fn normalize_whitespace(s: &str) -> (r: String)
    ensures
        r@ == normalize_ws_spec(s@),
{
    let chars = str_chars(s);
    let out = normalize_from(&chars, 0);
    proof {
        assert(chars@.skip(0) =~= s@);
    }
    chars_to_string(&out)
}

/// ASCII lowering of one character.
pub open spec fn lower_char_spec(c: char) -> char {
    if 'A' <= c <= 'Z' {
        ((c as u8) + 32) as char
    } else {
        c
    }
}

/// ASCII lowering of a sequence.
pub open spec fn lower_spec(s: Seq<char>) -> Seq<char> {
    s.map_values(|c: char| lower_char_spec(c))
}

/// A copy of `s` with ASCII capitals lowered.
pub fn ascii_lower(s: &str) -> (r: String)
    ensures
        r@ == lower_spec(s@),
{
    let chars = str_chars(s);
    let n: usize = chars.len();
    let mut out: Vec<char> = Vec::new();
    let mut i: usize = 0;
    while i < n
        invariant
            i <= n,
            n == s@.len(),
            chars@ == s@,
            out@ == lower_spec(s@).take(i as int),
        decreases n - i,
    {
        let c = chars[i];
        if 'A' <= c && c <= 'Z' {
            out.push(((c as u8) + 32) as char);
        } else {
            out.push(c);
        }
        proof {
            assert(out@ =~= lower_spec(s@).take(i + 1));
        }
        i = i + 1;
    }
    proof {
        assert(out@ =~= lower_spec(s@));
    }
    chars_to_string(&out)
}

/// The decimal digit for a value below ten.
pub open spec fn digit_char(d: nat) -> char {
    ((d + 48) as u8) as char
}

/// The decimal rendering of a natural number.
pub open spec fn dec_spec(n: nat) -> Seq<char>
    decreases n,
{
    if n < 10 {
        seq![digit_char(n)]
    } else {
        dec_spec(n / 10) + seq![digit_char(n % 10)]
    }
}

/// Every character of a decimal rendering is a digit.
pub proof fn lemma_dec_digits(n: nat)
    ensures
        dec_spec(n).len() > 0,
        forall|k: int| 0 <= k < dec_spec(n).len() ==> '0' <= #[trigger] dec_spec(n)[k] <= '9',
    decreases n,
{
    if n >= 10 {
        lemma_dec_digits(n / 10);
    }
}

/// The decimal rendering of `n`.
pub fn u64_to_dec(n: u64) -> (r: String)
    ensures
        r@ == dec_spec(n as nat),
{
    let mut digits: Vec<char> = Vec::new();
    let mut x: u64 = n;
    while x >= 10
        invariant
            dec_spec(n as nat) == dec_spec(x as nat) + digits@.reverse(),
        decreases x,
    {
        let d: u64 = x % 10;
        proof {
            assert(dec_spec(x as nat) == dec_spec((x as nat) / 10) + seq![
                digit_char((x as nat) % 10),
            ]);
            assert((digits@ + seq![digit_char((x as nat) % 10)].reverse()).reverse() =~= seq![
                digit_char((x as nat) % 10),
            ] + digits@.reverse());
            assert((digits@.push(digit_char((x as nat) % 10))).reverse() =~= seq![
                digit_char((x as nat) % 10),
            ] + digits@.reverse());
        }
        digits.push(((d + 48) as u8) as char);
        x = x / 10;
    }
    let mut out: Vec<char> = Vec::new();
    out.push(((x + 48) as u8) as char);
    proof {
        assert(out@ =~= dec_spec(x as nat));
    }
    let m: usize = digits.len();
    let mut i: usize = 0;
    while i < m
        invariant
            i <= m,
            m == digits@.len(),
            dec_spec(n as nat) == dec_spec(x as nat) + digits@.reverse(),
            out@ == dec_spec(x as nat) + digits@.reverse().take(i as int),
        decreases m - i,
    {
        out.push(digits[m - 1 - i]);
        proof {
            assert(digits@.reverse()[i as int] == digits@[m - 1 - i]);
            assert(out@ =~= dec_spec(x as nat) + digits@.reverse().take(i + 1));
        }
        i = i + 1;
    }
    proof {
        assert(digits@.reverse().take(m as int) =~= digits@.reverse());
        assert(out@ =~= dec_spec(n as nat));
    }
    chars_to_string(&out)
}

/// The numeric value of a digit sequence, read most significant first.
pub open spec fn digits_value(s: Seq<char>) -> nat
    decreases s.len(),
{
    if s.len() == 0 {
        0
    } else {
        (digits_value(s.take(s.len() - 1)) * 10 + ((s[s.len() - 1] as int) - 48)) as nat
    }
}

/// Whether every character of `s` is a decimal digit.
pub open spec fn all_digits(s: Seq<char>) -> bool {
    forall|k: int| 0 <= k < s.len() ==> '0' <= #[trigger] s[k] <= '9'
}

/// What `str::parse` makes of a decimal string, up to the width of `u64`:
/// a nonempty string of digits is its value, anything else is refused.
pub open spec fn parse_dec_spec(s: Seq<char>) -> Option<nat> {
    if s.len() > 0 && all_digits(s) {
        Some(digits_value(s))
    } else {
        None
    }
}

/// Parsing a rendered number gives the number back.
pub proof fn lemma_dec_roundtrip(n: nat)
    ensures
        parse_dec_spec(dec_spec(n)) == Some(n),
    decreases n,
{
    lemma_dec_digits(n);
    if n < 10 {
        let s = dec_spec(n);
        assert(s.take(s.len() - 1) =~= Seq::<char>::empty());
        assert((n + 48) as u8 == n + 48);
        assert((((n + 48) as u8) as char) as int == n + 48);
        assert(s.len() == 1);
        assert(s[0] == digit_char(n));
        assert(digits_value(Seq::<char>::empty()) == 0);
        assert(digits_value(s) == (digits_value(s.take(0)) * 10 + ((s[0] as int) - 48)) as nat);
        assert(digits_value(s) == n);
    } else {
        lemma_dec_roundtrip(n / 10);
        lemma_dec_digits(n / 10);
        let s = dec_spec(n);
        let p = dec_spec(n / 10);
        assert(s.take(s.len() - 1) =~= p);
        assert(s[s.len() - 1] == digit_char(n % 10));
        assert(digits_value(s) == digits_value(p) * 10 + n % 10);
    }
}

/// Parse a nonempty all-digit string as a `u64`; values over `u64::MAX`
/// and malformed strings give `None`.
pub fn parse_u64(s: &str) -> (r: Option<u64>)
    ensures
        match r {
            Some(v) => parse_dec_spec(s@) == Some(v as nat),
            None => parse_dec_spec(s@) is None || (parse_dec_spec(s@) matches Some(v) && v
                > u64::MAX),
        },
{
    let n: usize = s.unicode_len();
    if n == 0 {
        return None;
    }
    let mut acc: u64 = 0;
    let mut i: usize = 0;
    while i < n
        invariant
            i <= n,
            n == s@.len(),
            n > 0,
            all_digits(s@.take(i as int)),
            acc as nat == digits_value(s@.take(i as int)),
        decreases n - i,
    {
        let c = s.get_char(i);
        if !('0' <= c && c <= '9') {
            proof {
                assert(!all_digits(s@));
            }
            return None;
        }
        let d: u64 = (c as u64) - 48;
        if acc > (u64::MAX - d) / 10 {
            proof {
                lemma_digits_value_extend(s@, i as int);
                if all_digits(s@) {
                    lemma_digits_value_monotone(s@, i + 1);
                }
            }
            return None;
        }
        acc = acc * 10 + d;
        proof {
            lemma_digits_value_extend(s@, i as int);
        }
        i = i + 1;
    }
    proof {
        assert(s@.take(n as int) =~= s@);
    }
    Some(acc)
}

proof fn lemma_digits_value_extend(s: Seq<char>, i: int)
    requires
        0 <= i < s.len(),
        '0' <= s[i] <= '9',
    ensures
        digits_value(s.take(i + 1)) == digits_value(s.take(i)) * 10 + ((s[i] as int) - 48),
{
    assert(s.take(i + 1).take(i) =~= s.take(i));
    assert(s.take(i + 1)[i] == s[i]);
}

proof fn lemma_digits_value_monotone(s: Seq<char>, i: int)
    requires
        0 <= i <= s.len(),
        all_digits(s),
    ensures
        digits_value(s.take(i)) <= digits_value(s),
    decreases s.len() - i,
{
    if i == s.len() {
        assert(s.take(i) =~= s);
    } else {
        lemma_digits_value_extend(s, i);
        lemma_digits_value_monotone(s, i + 1);
    }
}

/// Join a relative reference onto a base directory, as the harness resolves
/// catalog-relative file names: an absolute or base-less reference stands
/// alone, anything else is `base`, a slash, and the reference.
pub open spec fn join_path_spec(base: Seq<char>, rel: Seq<char>) -> Seq<char> {
    if base.len() == 0 || (rel.len() > 0 && rel[0] == '/') {
        rel
    } else {
        base + seq!['/'] + rel
    }
}

/// Resolve `rel` against the directory `base`.
pub fn join_path(base: &str, rel: &str) -> (r: String)
    ensures
        r@ == join_path_spec(base@, rel@),
{
    let n: usize = rel.unicode_len();
    if base.unicode_len() == 0 || (n > 0 && rel.get_char(0) == '/') {
        return rel.to_owned();
    }
    let mut out = base.to_owned();
    out.append("/");
    out.append(rel);
    proof {
        reveal_strlit("/");
        assert(out@ =~= join_path_spec(base@, rel@));
    }
    out
}

} // verus!
