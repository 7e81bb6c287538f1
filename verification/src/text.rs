//! Verified text utilities shared by the assembler and the translator:
//! splitting source text into lines, stripping comments, trimming
//! whitespace, tokenizing, and converting numbers to and from text.

use vstd::prelude::*;
use vstd::string::StrSliceExecFns;
use vstd::string::StringExecFns;

verus! {

/// Whitespace that is insignificant at the ends of a line or token.
pub open spec fn is_space(c: char) -> bool {
    c == ' ' || c == '\t' || c == '\r'
}

/// Position of the first occurrence of `c` in `s`, if any.
pub open spec fn find_char(s: Seq<char>, c: char) -> Option<int>
    decreases s.len(),
{
    if s.len() == 0 {
        None
    } else if s[0] == c {
        Some(0)
    } else {
        match find_char(s.skip(1), c) {
            None => None,
            Some(k) => Some(k + 1),
        }
    }
}

proof fn lemma_find_char_characterization(s: Seq<char>, c: char, i: int)
    requires
        0 <= i <= s.len(),
        forall|j: int| 0 <= j < i ==> s[j] != c,
        i < s.len() ==> s[i] == c,
    ensures
        find_char(s, c) == if i == s.len() {
            None::<int>
        } else {
            Some(i)
        },
    decreases s.len(),
{
    if s.len() == 0 {
    } else if s[0] == c {
        assert(i == 0);
    } else {
        assert(i >= 1);
        let t = s.skip(1);
        assert(forall|j: int| 0 <= j < i - 1 ==> t[j] != c);
        lemma_find_char_characterization(t, c, i - 1);
    }
}

/// Linear scan for a character.
pub fn find_char_at(s: &str, c: char) -> (r: Option<usize>)
    ensures
        match r {
            Some(i) => find_char(s@, c) == Some(i as int) && i < s@.len() && s@[i as int] == c,
            None => find_char(s@, c) is None,
        },
{
    let n = s.unicode_len();
    let mut i: usize = 0;
    while i < n
        invariant
            0 <= i <= n,
            n == s@.len(),
            forall|j: int| 0 <= j < i ==> s@[j] != c,
        decreases n - i,
    {
        if s.get_char(i) == c {
            proof {
                lemma_find_char_characterization(s@, c, i as int);
            }
            return Some(i);
        }
        i = i + 1;
    }
    proof {
        lemma_find_char_characterization(s@, c, n as int);
    }
    None
}

/// The lines of `s`, split on `'\n'`; the separator belongs to no line.
pub open spec fn spec_split_lines(s: Seq<char>) -> Seq<Seq<char>>
    decreases s.len(),
    via spec_split_lines_decreases
{
    match find_char(s, '\n') {
        None => seq![s],
        Some(i) => seq![s.take(i)] + spec_split_lines(s.skip(i + 1)),
    }
}

#[via_fn]
proof fn spec_split_lines_decreases(s: Seq<char>) {
    lemma_find_char_in_range(s, '\n');
}

proof fn lemma_find_char_in_range(s: Seq<char>, c: char)
    ensures
        match find_char(s, c) {
            Some(i) => 0 <= i < s.len() && s[i] == c,
            None => true,
        },
    decreases s.len(),
{
    if s.len() == 0 {
    } else if s[0] == c {
    } else {
        lemma_find_char_in_range(s.skip(1), c);
    }
}

/// Splits source text into lines on `'\n'`.
pub fn split_lines(s: &str) -> (r: Vec<String>)
    ensures
        r.deep_view() == spec_split_lines(s@),
    decreases s@.len(),
{
    proof {
        lemma_find_char_in_range(s@, '\n');
    }
    match find_char_at(s, '\n') {
        None => {
            let mut r: Vec<String> = Vec::new();
            r.push(String::from_str(s));
            proof {
                assert(r.deep_view() =~= spec_split_lines(s@));
            }
            r
        },
        Some(i) => {
            let n = s.unicode_len();
            let head = s.substring_char(0, i);
            let tail = s.substring_char(i + 1, n);
            let mut r = split_lines(tail);
            r.insert(0, String::from_str(head));
            proof {
                assert(head@ == s@.take(i as int));
                assert(tail@ == s@.skip(i + 1));
                assert(r.deep_view() =~= spec_split_lines(s@));
            }
            r
        },
    }
}

/// Exec mirror of `is_space`.
pub fn is_space_char(c: char) -> (r: bool)
    ensures
        r == is_space(c),
{
    c == ' ' || c == '\t' || c == '\r'
}

/// `s` with leading whitespace removed.
pub open spec fn spec_trim_front(s: Seq<char>) -> Seq<char>
    decreases s.len(),
{
    if s.len() > 0 && is_space(s[0]) {
        spec_trim_front(s.skip(1))
    } else {
        s
    }
}

/// `s` with trailing whitespace removed.
pub open spec fn spec_trim_back(s: Seq<char>) -> Seq<char>
    decreases s.len(),
{
    if s.len() > 0 && is_space(s.last()) {
        spec_trim_back(s.drop_last())
    } else {
        s
    }
}

/// `s` with whitespace removed from both ends.
pub open spec fn spec_trim(s: Seq<char>) -> Seq<char> {
    spec_trim_back(spec_trim_front(s))
}

/// Removes whitespace from both ends of `s`.
pub fn trim(s: &str) -> (r: &str)
    ensures
        r@ == spec_trim(s@),
{
    let n = s.unicode_len();
    let mut i: usize = 0;
    proof {
        assert(s@.skip(0) =~= s@);
    }
    while i < n && is_space_char(s.get_char(i))
        invariant
            0 <= i <= n,
            n == s@.len(),
            spec_trim_front(s@) == spec_trim_front(s@.skip(i as int)),
        decreases n - i,
    {
        proof {
            assert(s@.skip(i as int).skip(1) =~= s@.skip(i + 1));
        }
        i = i + 1;
    }
    proof {
        assert(spec_trim_front(s@) == s@.skip(i as int));
        assert(s@.subrange(i as int, n as int) =~= s@.skip(i as int));
    }
    let mut j: usize = n;
    while j > i && is_space_char(s.get_char(j - 1))
        invariant
            i <= j <= n,
            n == s@.len(),
            spec_trim_back(s@.skip(i as int)) == spec_trim_back(s@.subrange(i as int, j as int)),
        decreases j,
    {
        proof {
            assert(s@.subrange(i as int, j as int).drop_last() =~= s@.subrange(i as int, j - 1));
        }
        j = j - 1;
    }
    proof {
        assert(spec_trim_back(s@.skip(i as int)) == s@.subrange(i as int, j as int));
    }
    s.substring_char(i, j)
}

/// Position where a `//` comment begins in `s`, if any.
pub open spec fn comment_pos(s: Seq<char>) -> Option<int>
    decreases s.len(),
{
    if s.len() < 2 {
        None
    } else if s[0] == '/' && s[1] == '/' {
        Some(0)
    } else {
        match comment_pos(s.skip(1)) {
            None => None,
            Some(k) => Some(k + 1),
        }
    }
}

proof fn lemma_comment_pos_characterization(s: Seq<char>, i: int)
    requires
        0 <= i <= s.len(),
        forall|j: int| 0 <= j < i && j + 1 < s.len() ==> !(#[trigger] s[j] == '/' && s[j + 1] == '/'),
        i + 1 < s.len() ==> s[i] == '/' && s[i + 1] == '/',
        i + 1 >= s.len() ==> i == s.len(),
    ensures
        comment_pos(s) == if i == s.len() {
            None::<int>
        } else {
            Some(i)
        },
    decreases s.len(),
{
    if s.len() < 2 {
    } else if s[0] == '/' && s[1] == '/' {
        assert(i == 0);
    } else {
        assert(i >= 1);
        let t = s.skip(1);
        assert(forall|j: int| 0 <= j < i - 1 && j + 1 < t.len() ==> !(#[trigger] t[j] == '/' && t[j + 1]
            == '/'));
        lemma_comment_pos_characterization(t, i - 1);
    }
}

/// `s` up to (excluding) the first `//`, or all of `s` if it has no comment.
pub open spec fn spec_strip_comment(s: Seq<char>) -> Seq<char> {
    match comment_pos(s) {
        None => s,
        Some(i) => s.take(i),
    }
}

/// Removes a trailing `//` comment from a line.
pub fn strip_comment(s: &str) -> (r: &str)
    ensures
        r@ == spec_strip_comment(s@),
{
    let n = s.unicode_len();
    let mut i: usize = 0;
    while i < n && i + 1 < n
        invariant
            0 <= i,
            i <= n,
            n == s@.len(),
            forall|j: int| 0 <= j < i ==> !(#[trigger] s@[j] == '/' && s@[j + 1] == '/'),
        decreases n - i,
    {
        if s.get_char(i) == '/' && s.get_char(i + 1) == '/' {
            proof {
                lemma_comment_pos_characterization(s@, i as int);
            }
            return s.substring_char(0, i);
        }
        i = i + 1;
    }
    proof {
        assert(forall|j: int| 0 <= j < n && j + 1 < n ==> !(#[trigger] s@[j] == '/' && s@[j + 1] == '/'));
        lemma_comment_pos_characterization(s@, n as int);
    }
    s
}

/// A source line, normalized: comment removed, then both ends trimmed.
pub open spec fn spec_clean_line(s: Seq<char>) -> Seq<char> {
    spec_trim(spec_strip_comment(s))
}

/// Normalizes one source line.
pub fn clean_line(s: &str) -> (r: &str)
    ensures
        r@ == spec_clean_line(s@),
{
    trim(strip_comment(s))
}

/// The normalized, non-blank lines of a line sequence, in order.
pub open spec fn spec_clean_lines(lines: Seq<Seq<char>>) -> Seq<Seq<char>>
    decreases lines.len(),
{
    if lines.len() == 0 {
        Seq::empty()
    } else {
        let prefix = spec_clean_lines(lines.drop_last());
        let c = spec_clean_line(lines.last());
        if c.len() == 0 {
            prefix
        } else {
            prefix + seq![c]
        }
    }
}

/// The normalized, non-blank lines of a whole source text, in order.
pub open spec fn spec_source_lines(src: Seq<char>) -> Seq<Seq<char>> {
    spec_clean_lines(spec_split_lines(src))
}

/// Splits source text into lines and normalizes them, dropping blank
/// lines and lines that held only a comment.
pub fn source_lines(src: &str) -> (r: Vec<String>)
    ensures
        r.deep_view() == spec_source_lines(src@),
{
    let lines = split_lines(src);
    let mut r: Vec<String> = Vec::new();
    let mut k: usize = 0;
    proof {
        assert(lines.deep_view().take(0) =~= Seq::<Seq<char>>::empty());
    }
    while k < lines.len()
        invariant
            0 <= k <= lines.len(),
            lines.deep_view() == spec_split_lines(src@),
            r.deep_view() == spec_clean_lines(lines.deep_view().take(k as int)),
        decreases lines.len() - k,
    {
        let ghost pre = r.deep_view();
        let c = clean_line(lines[k].as_str());
        if c.unicode_len() > 0 {
            r.push(String::from_str(c));
            proof {
                assert(r.deep_view() =~= pre + seq![c@]);
            }
        }
        proof {
            assert(lines.deep_view().take(k + 1).drop_last() =~= lines.deep_view().take(k as int));
            assert(lines.deep_view().take(k + 1).last() == lines[k as int]@);
        }
        k = k + 1;
    }
    proof {
        assert(lines.deep_view().take(lines.len() as int) =~= lines.deep_view());
    }
    r
}

/// Length of the leading run of non-whitespace characters.
pub open spec fn token_end(s: Seq<char>) -> int
    decreases s.len(),
{
    if s.len() == 0 {
        0
    } else if is_space(s[0]) {
        0
    } else {
        1 + token_end(s.skip(1))
    }
}

proof fn lemma_token_end_range(s: Seq<char>)
    ensures
        0 <= token_end(s) <= s.len(),
    decreases s.len(),
{
    if s.len() == 0 {
    } else if is_space(s[0]) {
    } else {
        lemma_token_end_range(s.skip(1));
    }
}

/// The whitespace-separated tokens of `s`, in order.
pub open spec fn spec_tokens(s: Seq<char>) -> Seq<Seq<char>>
    decreases s.len(),
    via spec_tokens_decreases
{
    if s.len() == 0 {
        Seq::empty()
    } else if is_space(s[0]) {
        spec_tokens(s.skip(1))
    } else {
        seq![s.take(token_end(s))] + spec_tokens(s.skip(token_end(s)))
    }
}

#[via_fn]
proof fn spec_tokens_decreases(s: Seq<char>) {
    if s.len() > 0 && !is_space(s[0]) {
        lemma_token_end_range(s.skip(1));
    }
}

/// Splits `s` into whitespace-separated tokens.
pub fn tokens(s: &str) -> (r: Vec<String>)
    ensures
        r.deep_view() == spec_tokens(s@),
    decreases s@.len(),
{
    let n = s.unicode_len();
    if n == 0 {
        let r: Vec<String> = Vec::new();
        proof {
            assert(r.deep_view() =~= spec_tokens(s@));
        }
        return r;
    }
    if is_space_char(s.get_char(0)) {
        let rest = tokens(s.substring_char(1, n));
        proof {
            assert(rest.deep_view() == spec_tokens(s@.skip(1)));
        }
        return rest;
    }
    let mut j: usize = 0;
    proof {
        assert(s@.skip(0) =~= s@);
    }
    while j < n && !is_space_char(s.get_char(j))
        invariant
            0 <= j <= n,
            n == s@.len(),
            token_end(s@) == j + token_end(s@.skip(j as int)),
        decreases n - j,
    {
        proof {
            assert(s@.skip(j as int).skip(1) =~= s@.skip(j + 1));
        }
        j = j + 1;
    }
    proof {
        assert(token_end(s@) == j as int);
    }
    let t = s.substring_char(0, j);
    let tail = s.substring_char(j, n);
    let mut r = tokens(tail);
    r.insert(0, String::from_str(t));
    proof {
        assert(r.deep_view() =~= spec_tokens(s@));
    }
    r
}

/// Position of the last occurrence of `c` in `s`, if any.
pub open spec fn rfind_char(s: Seq<char>, c: char) -> Option<int>
    decreases s.len(),
{
    if s.len() == 0 {
        None
    } else if s.last() == c {
        Some(s.len() - 1)
    } else {
        rfind_char(s.drop_last(), c)
    }
}

proof fn lemma_rfind_char_characterization(s: Seq<char>, c: char, i: int)
    requires
        0 <= i <= s.len(),
        forall|j: int| i <= j < s.len() ==> s[j] != c,
        i > 0 ==> s[i - 1] == c,
    ensures
        rfind_char(s, c) == if i == 0 {
            None::<int>
        } else {
            Some(i - 1)
        },
    decreases s.len(),
{
    if s.len() == 0 {
    } else if s.last() == c {
        assert(i == s.len());
    } else {
        assert(i < s.len());
        lemma_rfind_char_characterization(s.drop_last(), c, i);
    }
}

/// Linear scan for the last occurrence of a character.
pub fn rfind_char_at(s: &str, c: char) -> (r: Option<usize>)
    ensures
        match r {
            Some(i) => rfind_char(s@, c) == Some(i as int) && i < s@.len() && s@[i as int] == c,
            None => rfind_char(s@, c) is None,
        },
{
    let n = s.unicode_len();
    let mut j: usize = n;
    while j > 0
        invariant
            0 <= j <= n,
            n == s@.len(),
            forall|k: int| j <= k < n ==> s@[k] != c,
        decreases j,
    {
        if s.get_char(j - 1) == c {
            proof {
                lemma_rfind_char_characterization(s@, c, j as int);
            }
            return Some(j - 1);
        }
        j = j - 1;
    }
    proof {
        lemma_rfind_char_characterization(s@, c, 0);
    }
    None
}

/// A decimal digit.
pub open spec fn is_digit(c: char) -> bool {
    '0' as u32 <= c as u32 && c as u32 <= '9' as u32
}

/// Numeric value of a digit character.
pub open spec fn digit_val(c: char) -> nat {
    (c as u32 - '0' as u32) as nat
}

/// A non-empty, all-digit character sequence.
pub open spec fn is_number_seq(s: Seq<char>) -> bool {
    s.len() > 0 && forall|i: int| 0 <= i < s.len() ==> is_digit(s[i])
}

/// The numeric value of an all-digit sequence, most significant first.
pub open spec fn number_val(s: Seq<char>) -> nat
    decreases s.len(),
{
    if s.len() == 0 {
        0
    } else {
        number_val(s.drop_last()) * 10 + digit_val(s.last())
    }
}

/// Parses an unsigned decimal operand. The result is `Some` exactly when
/// `s` is a non-empty digit string; the value is exact below the 15-bit
/// address bound and saturates at 32768 above it, which is all the
/// callers need in order to reject oversized addresses.
pub fn parse_capped_number(s: &str) -> (r: Option<u32>)
    ensures
        r is Some <==> is_number_seq(s@),
        r matches Some(v) ==> (if number_val(s@) < 32768 {
            v == number_val(s@)
        } else {
            v == 32768
        }),
{
    let n = s.unicode_len();
    if n == 0 {
        return None;
    }
    let mut acc: u32 = 0;
    let mut i: usize = 0;
    proof {
        assert(s@.take(0) =~= Seq::<char>::empty());
    }
    while i < n
        invariant
            0 <= i <= n,
            n == s@.len(),
            forall|j: int| 0 <= j < i ==> is_digit(s@[j]),
            acc <= 32768,
            if number_val(s@.take(i as int)) < 32768 {
                acc == number_val(s@.take(i as int))
            } else {
                acc == 32768
            },
        decreases n - i,
    {
        let c = s.get_char(i);
        let u = c as u32;
        if u < 48 || u > 57 {
            assert(!is_digit(s@[i as int]));
            return None;
        }
        let d = u - 48;
        let ghost pre = s@.take(i as int);
        proof {
            assert(s@.take(i + 1).drop_last() =~= pre);
            assert(s@.take(i + 1).last() == s@[i as int]);
            assert(number_val(s@.take(i + 1)) == number_val(pre) * 10 + digit_val(s@[i as int]));
        }
        let next = acc * 10 + d;
        if next > 32767 {
            acc = 32768;
        } else {
            acc = next;
        }
        i = i + 1;
    }
    proof {
        assert(s@.take(n as int) =~= s@);
    }
    Some(acc)
}

/// Character-wise string equality.
pub fn str_eq(a: &str, b: &str) -> (r: bool)
    ensures
        r == (a@ == b@),
{
    let na = a.unicode_len();
    let nb = b.unicode_len();
    if na != nb {
        return false;
    }
    let mut i: usize = 0;
    while i < na
        invariant
            0 <= i <= na,
            na == a@.len(),
            na == b@.len(),
            forall|j: int| 0 <= j < i ==> a@[j] == b@[j],
        decreases na - i,
    {
        if a.get_char(i) != b.get_char(i) {
            return false;
        }
        i = i + 1;
    }
    proof {
        assert(a@ =~= b@);
    }
    true
}

/// The digit character for a value below ten.
pub open spec fn digit_char(d: nat) -> char {
    if d == 0 {
        '0'
    } else if d == 1 {
        '1'
    } else if d == 2 {
        '2'
    } else if d == 3 {
        '3'
    } else if d == 4 {
        '4'
    } else if d == 5 {
        '5'
    } else if d == 6 {
        '6'
    } else if d == 7 {
        '7'
    } else if d == 8 {
        '8'
    } else {
        '9'
    }
}

fn digit_str(d: u32) -> (r: &'static str)
    requires
        d < 10,
    ensures
        r@ == seq![digit_char(d as nat)],
{
    proof {
        reveal_strlit("0");
        reveal_strlit("1");
        reveal_strlit("2");
        reveal_strlit("3");
        reveal_strlit("4");
        reveal_strlit("5");
        reveal_strlit("6");
        reveal_strlit("7");
        reveal_strlit("8");
        reveal_strlit("9");
    }
    if d == 0 {
        proof {
            assert("0"@ =~= seq![digit_char(0)]);
        }
        "0"
    } else if d == 1 {
        proof {
            assert("1"@ =~= seq![digit_char(1)]);
        }
        "1"
    } else if d == 2 {
        proof {
            assert("2"@ =~= seq![digit_char(2)]);
        }
        "2"
    } else if d == 3 {
        proof {
            assert("3"@ =~= seq![digit_char(3)]);
        }
        "3"
    } else if d == 4 {
        proof {
            assert("4"@ =~= seq![digit_char(4)]);
        }
        "4"
    } else if d == 5 {
        proof {
            assert("5"@ =~= seq![digit_char(5)]);
        }
        "5"
    } else if d == 6 {
        proof {
            assert("6"@ =~= seq![digit_char(6)]);
        }
        "6"
    } else if d == 7 {
        proof {
            assert("7"@ =~= seq![digit_char(7)]);
        }
        "7"
    } else if d == 8 {
        proof {
            assert("8"@ =~= seq![digit_char(8)]);
        }
        "8"
    } else {
        proof {
            assert("9"@ =~= seq![digit_char(9)]);
        }
        "9"
    }
}

/// The decimal representation of `n`, most significant digit first,
/// with no leading zeros.
pub open spec fn dec_rep(n: nat) -> Seq<char>
    decreases n,
{
    if n < 10 {
        seq![digit_char(n)]
    } else {
        dec_rep(n / 10) + seq![digit_char(n % 10)]
    }
}

/// Renders `n` in decimal.
pub fn u64_to_dec(n: u64) -> (r: String)
    ensures
        r@ == dec_rep(n as nat),
    decreases n,
{
    if n < 10 {
        String::from_str(digit_str(n as u32))
    } else {
        let q = n / 10;
        let d = n % 10;
        let mut s = u64_to_dec(q);
        s.append(digit_str(d as u32));
        s
    }
}

/// Reading the decimal representation back gives the value: `dec_rep`
/// loses nothing, so distinct numbers have distinct representations.
pub proof fn lemma_dec_rep_value(n: nat)
    ensures
        number_val(dec_rep(n)) == n,
    decreases n,
{
    if n < 10 {
        let s = seq![digit_char(n)];
        assert(s.drop_last() =~= Seq::<char>::empty());
        assert(number_val(Seq::<char>::empty()) == 0);
        assert(s.last() == digit_char(n));
        assert(number_val(s) == number_val(s.drop_last()) * 10 + digit_val(s.last()));
        assert(digit_val(digit_char(n)) == n);
    } else {
        lemma_dec_rep_value(n / 10);
        let s = dec_rep(n / 10);
        let whole = s + seq![digit_char(n % 10)];
        assert(whole.drop_last() =~= s);
        assert(number_val(whole) == number_val(s) * 10 + digit_val(whole.last()));
        assert(digit_val(digit_char(n % 10)) == n % 10);
    }
}

/// Whether `v` holds a string whose characters are exactly `t`.
pub fn contains_str(v: &Vec<String>, t: &str) -> (r: bool)
    ensures
        r == v.deep_view().contains(t@),
{
    let n = v.len();
    let mut i: usize = 0;
    while i < n
        invariant
            0 <= i <= n,
            n == v.len(),
            forall|j: int| 0 <= j < i ==> v.deep_view()[j] != t@,
        decreases n - i,
    {
        if str_eq(v[i].as_str(), t) {
            proof {
                assert(v.deep_view()[i as int] == t@);
            }
            return true;
        }
        i = i + 1;
    }
    proof {
        assert(forall|j: int| 0 <= j < v.deep_view().len() ==> v.deep_view()[j] != t@);
    }
    false
}

/// The value of `n` in binary, zero-padded to exactly `w` characters,
/// most significant bit first; bits above the width are discarded.
pub open spec fn bin_rep(n: nat, w: nat) -> Seq<char>
    decreases w,
{
    if w == 0 {
        Seq::empty()
    } else {
        bin_rep(n / 2, (w - 1) as nat) + seq![if n % 2 == 1 {
            '1'
        } else {
            '0'
        }]
    }
}

fn bit_str(b: u32) -> (r: &'static str)
    requires
        b < 2,
    ensures
        r@ == seq![if b == 1 {
            '1'
        } else {
            '0'
        }],
{
    proof {
        reveal_strlit("0");
        reveal_strlit("1");
    }
    if b == 1 {
        proof {
            assert("1"@ =~= seq!['1']);
        }
        "1"
    } else {
        proof {
            assert("0"@ =~= seq!['0']);
        }
        "0"
    }
}

/// Renders `n` in binary, zero-padded to width `w`.
pub fn u32_to_bin(n: u32, w: u32) -> (r: String)
    ensures
        r@ == bin_rep(n as nat, w as nat),
    decreases w,
{
    if w == 0 {
        let s = String::new();
        proof {
            assert(s@ =~= bin_rep(n as nat, 0));
        }
        s
    } else {
        let mut s = u32_to_bin(n / 2, w - 1);
        s.append(bit_str(n % 2));
        s
    }
}

} // verus!
