//! Characters and strings: the Unicode facts the checker relies on,
//! and verified helpers for comparing, splitting and trimming text.
//!
//! The case and alphabet properties of a character, and the case mapping
//! of a string, come from the Rust standard library; each such call sits
//! in one small trusted function whose contract names the result.

use vstd::prelude::*;

verus! {

/// Whether a character counts as lowercase (Unicode property `Lowercase`).
pub uninterp spec fn is_lower_char(c: char) -> bool;

/// Whether a character counts as uppercase (Unicode property `Uppercase`).
pub uninterp spec fn is_upper_char(c: char) -> bool;

/// Whether a character is alphabetic (Unicode property `Alphabetic`).
pub uninterp spec fn is_alpha_char(c: char) -> bool;

/// Whether a character is whitespace (Unicode property `White_Space`).
pub uninterp spec fn is_space_char(c: char) -> bool;

/// The Unicode lowercase mapping of a string, character for character
/// as `str::to_lowercase` produces it.
pub uninterp spec fn lower_of(s: Seq<char>) -> Seq<char>;

/// The Unicode uppercase mapping of a string, as `str::to_uppercase`
/// produces it.
pub uninterp spec fn upper_of(s: Seq<char>) -> Seq<char>;

/// The Unicode uppercase mapping of one character, possibly several
/// characters long, as `char::to_uppercase` produces it.
pub uninterp spec fn char_upper_of(c: char) -> Seq<char>;

/// Relies on `char::is_lowercase`: the Unicode `Lowercase` property of
/// the character alone.
#[verifier::external_body]
pub fn char_is_lowercase(c: char) -> (r: bool)
    ensures
        r == is_lower_char(c),
{
    c.is_lowercase()
}

/// Relies on `char::is_uppercase`: the Unicode `Uppercase` property of
/// the character alone.
#[verifier::external_body]
pub fn char_is_uppercase(c: char) -> (r: bool)
    ensures
        r == is_upper_char(c),
{
    c.is_uppercase()
}

/// Relies on `char::is_alphabetic`: the Unicode `Alphabetic` property of
/// the character alone.
#[verifier::external_body]
pub fn char_is_alphabetic(c: char) -> (r: bool)
    ensures
        r == is_alpha_char(c),
{
    c.is_alphabetic()
}

/// Relies on `char::is_whitespace`: the Unicode `White_Space` property of
/// the character alone.
#[verifier::external_body]
pub fn char_is_whitespace(c: char) -> (r: bool)
    ensures
        r == is_space_char(c),
{
    c.is_whitespace()
}

/// Relies on `str::to_lowercase`: the result depends on the characters
/// alone, and an empty string stays empty. Nothing more is claimed of
/// the result's characters: some uppercase letters (the letterlike and
/// mathematical capitals among them) have no lowercase mapping and come
/// back unchanged.
#[verifier::external_body]
pub fn to_lower_string(s: &str) -> (r: String)
    ensures
        r@ == lower_of(s@),
        s@.len() == 0 ==> r@.len() == 0,
{
    s.to_lowercase()
}

/// Relies on `str::to_uppercase`: the result depends on the characters
/// alone, and an empty string stays empty.
#[verifier::external_body]
pub fn to_upper_string(s: &str) -> (r: String)
    ensures
        r@ == upper_of(s@),
        s@.len() == 0 ==> r@.len() == 0,
{
    s.to_uppercase()
}

/// Relies on `char::to_uppercase`: the resulting characters depend on the
/// argument alone.
#[verifier::external_body]
pub fn char_upper_string(c: char) -> (r: String)
    ensures
        r@ == char_upper_of(c),
{
    c.to_uppercase().collect()
}

/// Relies on `String::push`: appends exactly the one character.
#[verifier::external_body]
pub fn push_char(s: &mut String, c: char)
    ensures
        final(s)@ == old(s)@.push(c),
{
    s.push(c)
}

/// Relies on `std::path::MAIN_SEPARATOR`: on every supported platform it
/// is either a slash or a backslash.
#[verifier::external_body]
pub fn main_separator() -> (r: char)
    ensures
        r == '/' || r == '\\',
{
    std::path::MAIN_SEPARATOR
}

/// The decimal digit characters, in order of value.
pub open spec fn digit_char(d: int) -> char {
    if d == 0 {
        '0'
    } else if d == 1 {
        '1'
    } else if d == 2 {
        '2'
    } else if d == 3 {
        '3'
    } else if d == 4 {
        '4'
    } else if d == 5 {
        '5'
    } else if d == 6 {
        '6'
    } else if d == 7 {
        '7'
    } else if d == 8 {
        '8'
    } else {
        '9'
    }
}

/// Whether a character is one of the ASCII digits `0`..`9`.
pub open spec fn is_digit_char(c: char) -> bool {
    48 <= c as u32 <= 57
}

/// The numeric value of an ASCII digit character.
pub open spec fn digit_value(c: char) -> int {
    c as u32 - 48
}

pub fn char_is_digit(c: char) -> (r: bool)
    ensures
        r == is_digit_char(c),
{
    let u = c as u32;
    48 <= u && u <= 57
}

pub fn digit_char_of(d: u32) -> (r: char)
    requires
        d < 10,
    ensures
        r == digit_char(d as int),
{
    if d == 0 {
        '0'
    } else if d == 1 {
        '1'
    } else if d == 2 {
        '2'
    } else if d == 3 {
        '3'
    } else if d == 4 {
        '4'
    } else if d == 5 {
        '5'
    } else if d == 6 {
        '6'
    } else if d == 7 {
        '7'
    } else if d == 8 {
        '8'
    } else {
        '9'
    }
}

/// Character-for-character equality of two string slices.
pub fn str_eq(a: &str, b: &str) -> (r: bool)
    ensures
        r == (a@ == b@),
{
    let alen = a.unicode_len();
    let blen = b.unicode_len();
    if alen != blen {
        return false;
    }
    let mut i: usize = 0;
    while i < alen
        invariant
            alen == a@.len(),
            blen == b@.len(),
            alen == blen,
            i <= alen,
            forall|j: int| 0 <= j < i ==> a@[j] == b@[j],
        decreases alen - i,
    {
        if a.get_char(i) != b.get_char(i) {
            return false;
        }
        i += 1;
    }
    proof {
        assert(a@ =~= b@);
    }
    true
}

/// Whether the string holds the character.
pub fn str_contains_char(s: &str, c: char) -> (r: bool)
    ensures
        r == s@.contains(c),
{
    let n = s.unicode_len();
    let mut i: usize = 0;
    while i < n
        invariant
            n == s@.len(),
            i <= n,
            forall|j: int| 0 <= j < i ==> s@[j] != c,
        decreases n - i,
    {
        if s.get_char(i) == c {
            return true;
        }
        i += 1;
    }
    false
}

/// Whether the vector holds the character.
pub fn chars_contain(v: &Vec<char>, c: char) -> (r: bool)
    ensures
        r == v@.contains(c),
{
    let n = v.len();
    let mut i: usize = 0;
    while i < n
        invariant
            n == v@.len(),
            i <= n,
            forall|j: int| 0 <= j < i ==> v@[j] != c,
        decreases n - i,
    {
        if v[i] == c {
            return true;
        }
        i += 1;
    }
    false
}

/// Whether `s` begins with `p`.
pub fn str_starts_with(s: &str, p: &str) -> (r: bool)
    ensures
        r == (p@.len() <= s@.len() && s@.subrange(0, p@.len() as int) == p@),
{
    let slen = s.unicode_len();
    let plen = p.unicode_len();
    if plen > slen {
        return false;
    }
    let head = s.substring_char(0, plen);
    str_eq(head, p)
}

/// Whether `s` ends with `p`.
pub fn str_ends_with(s: &str, p: &str) -> (r: bool)
    ensures
        r == (p@.len() <= s@.len() && s@.subrange(s@.len() - p@.len(), s@.len() as int) == p@),
{
    let slen = s.unicode_len();
    let plen = p.unicode_len();
    if plen > slen {
        return false;
    }
    let tail = s.substring_char(slen - plen, slen);
    str_eq(tail, p)
}

/// The characters of a string, collected one by one.
pub fn str_chars(s: &str) -> (r: Vec<char>)
    ensures
        r@ == s@,
{
    let n = s.unicode_len();
    let mut v: Vec<char> = Vec::new();
    let mut i: usize = 0;
    while i < n
        invariant
            n == s@.len(),
            i <= n,
            v@ == s@.subrange(0, i as int),
        decreases n - i,
    {
        v.push(s.get_char(i));
        i += 1;
    }
    proof {
        assert(v@ =~= s@);
    }
    v
}

/// The views of a sequence of strings.
pub open spec fn str_views(ts: Seq<String>) -> Seq<Seq<char>> {
    ts.map_values(|t: String| t@)
}

/// Folding a whitespace split from the left: `cur` is the run being
/// built, `acc` the completed tokens.
pub open spec fn ws_fold(s: Seq<char>, cur: Seq<char>, acc: Seq<Seq<char>>) -> Seq<Seq<char>>
    decreases s.len(),
{
    if s.len() == 0 {
        if cur.len() > 0 {
            acc.push(cur)
        } else {
            acc
        }
    } else if is_space_char(s[0]) {
        if cur.len() > 0 {
            ws_fold(s.drop_first(), Seq::empty(), acc.push(cur))
        } else {
            ws_fold(s.drop_first(), Seq::empty(), acc)
        }
    } else {
        ws_fold(s.drop_first(), cur.push(s[0]), acc)
    }
}

/// The maximal whitespace-free runs of a string, in order.
pub open spec fn split_ws(s: Seq<char>) -> Seq<Seq<char>> {
    ws_fold(s, Seq::empty(), Seq::empty())
}

/// Splits a line into its whitespace-separated tokens.
pub fn split_tokens(line: &str) -> (r: Vec<String>)
    ensures
        str_views(r@) == split_ws(line@),
{
    let n = line.unicode_len();
    let mut out: Vec<String> = Vec::new();
    let mut cur = String::new();
    let mut i: usize = 0;
    proof {
        assert(line@.subrange(0, n as int) =~= line@);
        assert(str_views(out@) =~= Seq::<Seq<char>>::empty());
        assert(cur@ =~= Seq::<char>::empty());
    }
    while i < n
        invariant
            n == line@.len(),
            i <= n,
            split_ws(line@) == ws_fold(line@.subrange(i as int, n as int), cur@, str_views(out@)),
        decreases n - i,
    {
        let ghost rest = line@.subrange(i as int, n as int);
        let ghost rest2 = line@.subrange(i + 1 as int, n as int);
        proof {
            assert(rest.drop_first() =~= rest2);
            assert(rest[0] == line@[i as int]);
        }
        let c = line.get_char(i);
        if char_is_whitespace(c) {
            if !cur.as_str().is_empty() {
                let ghost before = str_views(out@);
                let ghost run = cur@;
                out.push(cur);
                cur = String::new();
                proof {
                    assert(str_views(out@) =~= before.push(run));
                    assert(cur@ =~= Seq::<char>::empty());
                }
            } else {
                proof {
                    assert(cur@ =~= Seq::<char>::empty());
                }
            }
        } else {
            push_char(&mut cur, c);
        }
        i += 1;
    }
    proof {
        assert(line@.subrange(n as int, n as int) =~= Seq::<char>::empty());
    }
    if !cur.as_str().is_empty() {
        let ghost before = str_views(out@);
        let ghost last = cur@;
        out.push(cur);
        proof {
            assert(str_views(out@) =~= before.push(last));
        }
    }
    out
}

/// Folding a split on a separator character from the left; empty pieces
/// are kept, as `str::split` keeps them.
pub open spec fn sep_fold(s: Seq<char>, sep: char, cur: Seq<char>, acc: Seq<Seq<char>>) -> Seq<
    Seq<char>,
>
    decreases s.len(),
{
    if s.len() == 0 {
        acc.push(cur)
    } else if s[0] == sep {
        sep_fold(s.drop_first(), sep, Seq::empty(), acc.push(cur))
    } else {
        sep_fold(s.drop_first(), sep, cur.push(s[0]), acc)
    }
}

/// The pieces of a string between occurrences of a separator.
pub open spec fn split_on(s: Seq<char>, sep: char) -> Seq<Seq<char>> {
    sep_fold(s, sep, Seq::empty(), Seq::empty())
}

/// A split always yields at least one piece.
pub proof fn lemma_sep_fold_len(s: Seq<char>, sep: char, cur: Seq<char>, acc: Seq<Seq<char>>)
    ensures
        sep_fold(s, sep, cur, acc).len() > acc.len(),
    decreases s.len(),
{
    if s.len() == 0 {
    } else if s[0] == sep {
        lemma_sep_fold_len(s.drop_first(), sep, Seq::empty(), acc.push(cur));
    } else {
        lemma_sep_fold_len(s.drop_first(), sep, cur.push(s[0]), acc);
    }
}

/// Splits a string at every occurrence of the separator, keeping empty
/// pieces.
pub fn split_on_char(s: &str, sep: char) -> (r: Vec<String>)
    ensures
        str_views(r@) == split_on(s@, sep),
{
    let n = s.unicode_len();
    let mut out: Vec<String> = Vec::new();
    let mut cur = String::new();
    let mut i: usize = 0;
    proof {
        assert(s@.subrange(0, n as int) =~= s@);
        assert(str_views(out@) =~= Seq::<Seq<char>>::empty());
        assert(cur@ =~= Seq::<char>::empty());
    }
    while i < n
        invariant
            n == s@.len(),
            i <= n,
            split_on(s@, sep) == sep_fold(s@.subrange(i as int, n as int), sep, cur@, str_views(
                out@,
            )),
        decreases n - i,
    {
        let ghost rest = s@.subrange(i as int, n as int);
        let ghost rest2 = s@.subrange(i + 1 as int, n as int);
        proof {
            assert(rest.drop_first() =~= rest2);
            assert(rest[0] == s@[i as int]);
        }
        let c = s.get_char(i);
        if c == sep {
            let ghost before = str_views(out@);
            let ghost run = cur@;
            out.push(cur);
            cur = String::new();
            proof {
                assert(str_views(out@) =~= before.push(run));
                assert(cur@ =~= Seq::<char>::empty());
            }
        } else {
            push_char(&mut cur, c);
        }
        i += 1;
    }
    let ghost before = str_views(out@);
    let ghost run = cur@;
    out.push(cur);
    proof {
        assert(str_views(out@) =~= before.push(run));
    }
    out
}

/// The number of whitespace characters the string begins with.
pub open spec fn leading_ws(s: Seq<char>) -> int
    decreases s.len(),
{
    if s.len() == 0 || !is_space_char(s[0]) {
        0
    } else {
        1 + leading_ws(s.drop_first())
    }
}

/// The number of whitespace characters the string ends with.
pub open spec fn trailing_ws(s: Seq<char>) -> int
    decreases s.len(),
{
    if s.len() == 0 || !is_space_char(s.last()) {
        0
    } else {
        1 + trailing_ws(s.drop_last())
    }
}

/// The string with its leading and trailing whitespace removed.
pub open spec fn trim_ws_spec(s: Seq<char>) -> Seq<char> {
    if leading_ws(s) == s.len() {
        Seq::empty()
    } else {
        s.subrange(leading_ws(s), s.len() - trailing_ws(s))
    }
}

proof fn lemma_leading_ws(s: Seq<char>, a: int)
    requires
        0 <= a <= s.len(),
        forall|j: int| 0 <= j < a ==> is_space_char(#[trigger] s[j]),
        a < s.len() ==> !is_space_char(s[a]),
    ensures
        leading_ws(s) == a,
    decreases a,
{
    if a == 0 {
    } else {
        assert(is_space_char(s[0]));
        let t = s.drop_first();
        assert(forall|j: int| 0 <= j < a - 1 ==> is_space_char(#[trigger] t[j]));
        lemma_leading_ws(t, a - 1);
    }
}

proof fn lemma_trailing_ws(s: Seq<char>, b: int)
    requires
        0 <= b <= s.len(),
        forall|j: int| b <= j < s.len() ==> is_space_char(#[trigger] s[j]),
        b > 0 ==> !is_space_char(s[b - 1]),
    ensures
        trailing_ws(s) == s.len() - b,
    decreases s.len() - b,
{
    if b == s.len() {
    } else {
        assert(is_space_char(s.last()));
        let t = s.drop_last();
        lemma_trailing_ws(t, b);
    }
}

/// Removes leading and trailing whitespace.
pub fn trim_spaces(s: &str) -> (r: String)
    ensures
        r@ == trim_ws_spec(s@),
{
    let n = s.unicode_len();
    let mut a: usize = 0;
    while a < n && char_is_whitespace(s.get_char(a))
        invariant
            n == s@.len(),
            a <= n,
            forall|j: int| 0 <= j < a ==> is_space_char(#[trigger] s@[j]),
        decreases n - a,
    {
        a += 1;
    }
    if a == n {
        proof {
            lemma_leading_ws(s@, a as int);
        }
        return String::new();
    }
    let mut b: usize = n;
    while b > a && char_is_whitespace(s.get_char(b - 1))
        invariant
            n == s@.len(),
            a <= b <= n,
            a < n,
            !is_space_char(s@[a as int]),
            forall|j: int| b <= j < n ==> is_space_char(#[trigger] s@[j]),
        decreases b,
    {
        b -= 1;
    }
    proof {
        lemma_leading_ws(s@, a as int);
        assert(b > a);
        assert(!is_space_char(s@[b - 1]));
        lemma_trailing_ws(s@, b as int);
    }
    String::from_str(s.substring_char(a, b))
}

/// The value of a digit string, most significant digit first.
pub open spec fn numeral_val(d: Seq<char>) -> nat
    decreases d.len(),
{
    if d.len() == 0 {
        0
    } else {
        numeral_val(d.drop_last()) * 10 + (if is_digit_char(d.last()) {
            (d.last() as u32 - 48) as nat
        } else {
            0
        })
    }
}

/// The digit part of an unsigned numeral: everything after an optional
/// leading plus sign.
pub open spec fn numeral_digits(s: Seq<char>) -> Seq<char> {
    if s.len() > 0 && s[0] == '+' {
        s.drop_first()
    } else {
        s
    }
}

/// Whether a string parses as a `u32`: an optional plus sign, then at
/// least one digit, all digits, with a value that fits.
pub open spec fn parses_as_u32(s: Seq<char>) -> bool {
    &&& numeral_digits(s).len() > 0
    &&& forall|j: int|
        0 <= j < numeral_digits(s).len() ==> is_digit_char(#[trigger] numeral_digits(s)[j])
    &&& numeral_val(numeral_digits(s)) <= 0xffff_ffff
}

proof fn lemma_numeral_prefix(d: Seq<char>, k: int)
    requires
        0 <= k <= d.len(),
    ensures
        numeral_val(d.subrange(0, k)) <= numeral_val(d),
    decreases d.len(),
{
    if k == d.len() {
        assert(d.subrange(0, k) =~= d);
    } else {
        let t = d.drop_last();
        assert(d.subrange(0, k) =~= t.subrange(0, k));
        lemma_numeral_prefix(t, k);
    }
}

/// Parses an unsigned decimal number the way `str::parse::<u32>` reads
/// it: an optional leading plus, then digits.
pub fn parse_u32(s: &str) -> (r: Option<u32>)
    ensures
        r is Some <==> parses_as_u32(s@),
        r matches Some(v) ==> v as nat == numeral_val(numeral_digits(s@)),
{
    let n = s.unicode_len();
    let start: usize = if n > 0 && s.get_char(0) == '+' {
        1
    } else {
        0
    };
    let ghost digs = numeral_digits(s@);
    proof {
        assert(digs =~= s@.subrange(start as int, n as int));
    }
    if start == n {
        return None;
    }
    let mut acc: u64 = 0;
    let mut i: usize = start;
    while i < n
        invariant
            n == s@.len(),
            start <= i <= n,
            start < n,
            digs == s@.subrange(start as int, n as int),
            digs =~= numeral_digits(s@),
            acc <= 0xffff_ffff,
            acc as nat == numeral_val(digs.subrange(0, i - start)),
            forall|j: int| 0 <= j < i - start ==> is_digit_char(#[trigger] digs[j]),
        decreases n - i,
    {
        let c = s.get_char(i);
        if !char_is_digit(c) {
            proof {
                assert(!is_digit_char(digs[i - start]));
            }
            return None;
        }
        let d = (c as u32) - 48;
        let next: u64 = acc * 10 + (d as u64);
        proof {
            let pre = digs.subrange(0, i - start);
            let cur = digs.subrange(0, i + 1 - start);
            assert(cur.drop_last() =~= pre);
            assert(cur.last() == digs[i - start]);
        }
        if next > 0xffff_ffff {
            proof {
                lemma_numeral_prefix(digs, i + 1 - start);
            }
            return None;
        }
        acc = next;
        i += 1;
    }
    proof {
        assert(digs.subrange(0, n - start) =~= digs);
    }
    Some(acc as u32)
}

/// Decimal rendering of a number, most significant digit first.
pub open spec fn dec_str(n: nat) -> Seq<char>
    decreases n,
{
    if n < 10 {
        seq![digit_char(n as int)]
    } else {
        dec_str(n / 10).push(digit_char((n % 10) as int))
    }
}

/// Renders a number in decimal.
pub fn u64_string(n: u64) -> (r: String)
    ensures
        r@ == dec_str(n as nat),
    decreases n,
{
    if n < 10 {
        let mut s = String::new();
        push_char(&mut s, digit_char_of((n % 10) as u32));
        proof {
            assert(s@ =~= dec_str(n as nat));
        }
        s
    } else {
        let mut s = u64_string(n / 10);
        push_char(&mut s, digit_char_of((n % 10) as u32));
        s
    }
}

/// Renders a number in decimal.
pub fn u32_string(n: u32) -> (r: String)
    ensures
        r@ == dec_str(n as nat),
    decreases n,
{
    if n < 10 {
        let mut s = String::new();
        push_char(&mut s, digit_char_of(n));
        proof {
            assert(s@ =~= dec_str(n as nat));
        }
        s
    } else {
        let mut s = u32_string(n / 10);
        push_char(&mut s, digit_char_of(n % 10));
        s
    }
}

/// A string built back from characters.
pub fn chars_string(v: &Vec<char>) -> (r: String)
    ensures
        r@ == v@,
{
    let mut s = String::new();
    let mut i: usize = 0;
    while i < v.len()
        invariant
            i <= v@.len(),
            s@ == v@.subrange(0, i as int),
        decreases v@.len() - i,
    {
        push_char(&mut s, v[i]);
        proof {
            assert(s@ =~= v@.subrange(0, i + 1 as int));
        }
        i += 1;
    }
    proof {
        assert(s@ =~= v@);
    }
    s
}

} // verus!
