//! Character-level text handling: splitting, line breaking, prefixes and
//! decimal numbers, each with the meaning it has for `str` in std.
use vstd::prelude::*;

verus! {

broadcast use vstd::string::group_string_axioms;

/// Appends one character to a string with std's `String::push`.
/// Trusted: the string afterwards is the old one with the character added
/// at the end, as the documentation of `String::push` says.
#[verifier::external_body]
pub(crate) fn push_char(s: &mut String, c: char)
    ensures
        final(s)@ == old(s)@.push(c),
{
    s.push(c);
}

/// The characters of a string slice, in order.
pub fn to_chars(s: &str) -> (v: Vec<char>)
    ensures
        v@ == s@,
{
    let mut v: Vec<char> = Vec::new();
    for c in it: s.chars()
        invariant
            v@ == it.seq().take(it.index()),
    {
        v.push(c);
    }
    v
}

/// A string holding the given characters.
pub fn from_chars(v: &Vec<char>) -> (s: String)
    ensures
        s@ == v@,
{
    let mut s = String::new();
    let mut i: usize = 0;
    while i < v.len()
        invariant
            0 <= i <= v.len(),
            s@ == v@.take(i as int),
        decreases v.len() - i,
    {
        push_char(&mut s, v[i]);
        i = i + 1;
        assert(v@.take(i as int) == v@.take(i - 1).push(v@[i - 1]));
    }
    assert(v@.take(v.len() as int) == v@);
    s
}

/// Appends the characters of `t` to `s`.
pub fn push_all(s: &mut String, t: &Vec<char>)
    ensures
        final(s)@ == old(s)@ + t@,
{
    let mut i: usize = 0;
    while i < t.len()
        invariant
            0 <= i <= t.len(),
            s@ == old(s)@ + t@.take(i as int),
        decreases t.len() - i,
    {
        push_char(s, t[i]);
        i = i + 1;
        assert(t@.take(i as int) == t@.take(i - 1).push(t@[i - 1]));
    }
    assert(t@.take(t.len() as int) == t@);
}

/// Appends the characters of the string slice `t` to `s`.
pub fn push_str(s: &mut String, t: &str)
    ensures
        final(s)@ == old(s)@ + t@,
{
    let v = to_chars(t);
    push_all(s, &v);
}

/// The contents of each vector of characters.
pub open spec fn char_seqs(v: Seq<Vec<char>>) -> Seq<Seq<char>> {
    v.map_values(|x: Vec<char>| x@)
}

/// The contents of each string.
pub open spec fn string_seqs(v: Seq<String>) -> Seq<Seq<char>> {
    v.map_values(|x: String| x@)
}

/// The pieces of `s` between occurrences of `sep`, as `str::split` with a
/// character pattern yields them: there is always one piece more than there
/// are separators, and empty pieces are kept.
pub open spec fn split_chars(s: Seq<char>, sep: char) -> Seq<Seq<char>>
    decreases s.len(),
{
    if s.len() == 0 {
        seq![Seq::<char>::empty()]
    } else {
        let prev = split_chars(s.drop_last(), sep);
        if s.last() == sep {
            prev.push(Seq::<char>::empty())
        } else {
            prev.update(prev.len() - 1, prev.last().push(s.last()))
        }
    }
}

/// A split always has at least one piece.
pub proof fn lemma_split_nonempty(s: Seq<char>, sep: char)
    ensures
        split_chars(s, sep).len() >= 1,
    decreases s.len(),
{
    if s.len() > 0 {
        lemma_split_nonempty(s.drop_last(), sep);
    }
}

/// Splits a vector of characters at every `sep`.
pub fn split_vec(s: &Vec<char>, sep: char) -> (parts: Vec<Vec<char>>)
    ensures
        char_seqs(parts@) == split_chars(s@, sep),
{
    let mut parts: Vec<Vec<char>> = Vec::new();
    let mut cur: Vec<char> = Vec::new();
    let mut i: usize = 0;
    while i < s.len()
        invariant
            0 <= i <= s.len(),
            char_seqs(parts@).push(cur@) == split_chars(s@.take(i as int), sep),
        decreases s.len() - i,
    {
        let c = s[i];
        let ghost before = char_seqs(parts@).push(cur@);
        if c == sep {
            parts.push(cur);
            cur = Vec::new();
        } else {
            cur.push(c);
        }
        i = i + 1;
        assert(s@.take(i as int).drop_last() == s@.take(i - 1));
        assert(char_seqs(parts@).push(cur@) == split_chars(s@.take(i as int), sep));
    }
    parts.push(cur);
    assert(s@.take(s.len() as int) == s@);
    parts
}

/// Splits a string slice at every `sep`, as `str::split` does.
pub fn split_str(s: &str, sep: char) -> (parts: Vec<String>)
    ensures
        string_seqs(parts@) == split_chars(s@, sep),
{
    let v = to_chars(s);
    split_to_strings(&v, sep)
}

/// Splits characters at every `sep` into strings.
pub fn split_to_strings(v: &Vec<char>, sep: char) -> (parts: Vec<String>)
    ensures
        string_seqs(parts@) == split_chars(v@, sep),
{
    let pieces = split_vec(v, sep);
    let mut out: Vec<String> = Vec::new();
    let mut i: usize = 0;
    while i < pieces.len()
        invariant
            0 <= i <= pieces.len(),
            string_seqs(out@) == char_seqs(pieces@).take(i as int),
        decreases pieces.len() - i,
    {
        let piece = from_chars(&pieces[i]);
        out.push(piece);
        i = i + 1;
        assert(char_seqs(pieces@).take(i as int) == char_seqs(pieces@).take(i - 1).push(
            pieces@[i - 1]@,
        ));
    }
    assert(char_seqs(pieces@).take(pieces.len() as int) == char_seqs(pieces@));
    out
}

/// A line without the carriage return that ended it.
pub open spec fn strip_cr(line: Seq<char>) -> Seq<char> {
    if line.len() > 0 && line.last() == '\r' {
        line.drop_last()
    } else {
        line
    }
}

/// The lines of `s` as `str::lines` yields them: pieces between line feeds,
/// a carriage return just before a line feed dropped, and no empty last line
/// after a final line feed.
pub open spec fn lines_of(s: Seq<char>) -> Seq<Seq<char>> {
    let parts = split_chars(s, '\n');
    let ended = parts.take(parts.len() - 1).map_values(|p: Seq<char>| strip_cr(p));
    if parts.last().len() == 0 {
        ended
    } else {
        ended.push(parts.last())
    }
}

/// Breaks a vector of characters into lines, as `str::lines` does.
pub fn lines_vec(s: &Vec<char>) -> (lines: Vec<Vec<char>>)
    ensures
        char_seqs(lines@) == lines_of(s@),
{
    let parts = split_vec(s, '\n');
    proof {
        lemma_split_nonempty(s@, '\n');
    }
    let n = parts.len();
    let mut lines: Vec<Vec<char>> = Vec::new();
    let mut i: usize = 0;
    while i + 1 < n
        invariant
            n == parts.len(),
            n >= 1,
            0 <= i < n,
            char_seqs(parts@) == split_chars(s@, '\n'),
            char_seqs(lines@) == char_seqs(parts@).take(i as int).map_values(
                |p: Seq<char>| strip_cr(p),
            ),
        decreases n - i,
    {
        let mut line = parts[i].clone();
        let len = line.len();
        if len > 0 && line[len - 1] == '\r' {
            line.pop();
        }
        assert(line@ == strip_cr(parts@[i as int]@));
        let ghost old_lines = char_seqs(lines@);
        lines.push(line);
        i = i + 1;
        assert(char_seqs(parts@).take(i as int) == char_seqs(parts@).take(i - 1).push(
            parts@[i - 1]@,
        ));
        assert(char_seqs(lines@) =~= old_lines.push(strip_cr(parts@[i - 1]@)));
        assert(char_seqs(parts@).take(i as int).map_values(|p: Seq<char>| strip_cr(p))
            =~= char_seqs(parts@).take(i - 1).map_values(|p: Seq<char>| strip_cr(p)).push(
            strip_cr(parts@[i - 1]@),
        ));
    }
    let last = parts[n - 1].clone();
    if last.len() > 0 {
        lines.push(last);
    }
    lines
}

/// Whether two string slices hold the same characters.
pub fn str_eq(a: &str, b: &str) -> (r: bool)
    ensures
        r == (a@ == b@),
{
    let x = to_chars(a);
    let y = to_chars(b);
    if x.len() != y.len() {
        return false;
    }
    let mut i: usize = 0;
    while i < x.len()
        invariant
            x.len() == y.len(),
            x@ == a@,
            y@ == b@,
            0 <= i <= x.len(),
            forall|j: int| 0 <= j < i ==> x@[j] == y@[j],
        decreases x.len() - i,
    {
        if x[i] != y[i] {
            assert(x@[i as int] != y@[i as int]);
            return false;
        }
        i = i + 1;
    }
    assert(x@ == y@);
    true
}

/// Whether `s` begins with `p`.
pub open spec fn starts_with(s: Seq<char>, p: Seq<char>) -> bool {
    p.len() <= s.len() && s.take(p.len() as int) == p
}

/// Whether a vector of characters begins with another.
pub fn starts_with_vec(s: &Vec<char>, p: &Vec<char>) -> (b: bool)
    ensures
        b == starts_with(s@, p@),
{
    if p.len() > s.len() {
        return false;
    }
    let mut i: usize = 0;
    while i < p.len()
        invariant
            p.len() <= s.len(),
            0 <= i <= p.len(),
            forall|j: int| 0 <= j < i ==> s@[j] == p@[j],
        decreases p.len() - i,
    {
        if s[i] != p[i] {
            assert(s@.take(p.len() as int)[i as int] != p@[i as int]);
            return false;
        }
        i = i + 1;
    }
    assert(s@.take(p.len() as int) == p@);
    true
}

/// `s` with every leading repetition of a non-empty `p` removed, as
/// `str::trim_start_matches` does.
pub open spec fn trim_start_matches(s: Seq<char>, p: Seq<char>) -> Seq<char>
    decreases s.len(),
{
    if p.len() > 0 && starts_with(s, p) {
        trim_start_matches(s.skip(p.len() as int), p)
    } else {
        s
    }
}

/// The characters of `s` from index `start` on.
pub fn skip_vec(s: &Vec<char>, start: usize) -> (t: Vec<char>)
    requires
        start <= s.len(),
    ensures
        t@ == s@.skip(start as int),
{
    let mut t: Vec<char> = Vec::new();
    let mut i: usize = start;
    while i < s.len()
        invariant
            start <= i <= s.len(),
            t@ == s@.subrange(start as int, i as int),
        decreases s.len() - i,
    {
        t.push(s[i]);
        i = i + 1;
        assert(s@.subrange(start as int, i as int) == s@.subrange(start as int, i - 1).push(
            s@[i - 1],
        ));
    }
    t
}

/// Whether `s` begins with `p` at index `at`.
fn matches_at(s: &Vec<char>, p: &Vec<char>, at: usize) -> (b: bool)
    requires
        at <= s.len(),
    ensures
        b == starts_with(s@.skip(at as int), p@),
{
    if p.len() > s.len() - at {
        return false;
    }
    let mut i: usize = 0;
    while i < p.len()
        invariant
            at <= s.len(),
            p.len() <= s.len() - at,
            0 <= i <= p.len(),
            forall|j: int| 0 <= j < i ==> s@[at + j] == p@[j],
        decreases p.len() - i,
    {
        if s[at + i] != p[i] {
            assert(s@.skip(at as int).take(p.len() as int)[i as int] != p@[i as int]);
            return false;
        }
        i = i + 1;
    }
    assert(s@.skip(at as int).take(p.len() as int) == p@);
    true
}

/// Removes every leading repetition of `p` from `s`.
pub fn trim_start_matches_vec(s: &Vec<char>, p: &Vec<char>) -> (t: Vec<char>)
    ensures
        t@ == trim_start_matches(s@, p@),
{
    if p.len() == 0 {
        return s.clone();
    }
    let mut at: usize = 0;
    assert(s@.skip(0) == s@);
    while matches_at(s, p, at)
        invariant
            p.len() > 0,
            at <= s.len(),
            trim_start_matches(s@.skip(at as int), p@) == trim_start_matches(s@, p@),
        decreases s.len() - at,
    {
        assert(s@.skip(at as int).skip(p.len() as int) == s@.skip(at + p.len()));
        at = at + p.len();
    }
    skip_vec(s, at)
}

/// The prefix `p` and what follows it in `s`, with `p` repeated away.
pub fn strip_prefix_text(s: &Vec<char>, p: &Vec<char>) -> (t: String)
    ensures
        t@ == trim_start_matches(s@, p@),
{
    let v = trim_start_matches_vec(s, p);
    from_chars(&v)
}

/// `pieces` joined with `sep` between each two of them, as `join` on a slice
/// of strings does.
pub open spec fn join_with(pieces: Seq<Seq<char>>, sep: Seq<char>) -> Seq<char>
    decreases pieces.len(),
{
    if pieces.len() == 0 {
        Seq::<char>::empty()
    } else if pieces.len() == 1 {
        pieces[0]
    } else {
        join_with(pieces.drop_last(), sep) + sep + pieces.last()
    }
}

/// Joins strings with a separator.
pub fn join_strings(pieces: &Vec<String>, sep: &str) -> (s: String)
    ensures
        s@ == join_with(string_seqs(pieces@), sep@),
{
    let sep_chars = to_chars(sep);
    let mut s = String::new();
    let mut i: usize = 0;
    while i < pieces.len()
        invariant
            0 <= i <= pieces.len(),
            sep_chars@ == sep@,
            s@ == join_with(string_seqs(pieces@).take(i as int), sep@),
        decreases pieces.len() - i,
    {
        if i > 0 {
            push_all(&mut s, &sep_chars);
        }
        let piece = to_chars(pieces[i].as_str());
        push_all(&mut s, &piece);
        i = i + 1;
        assert(string_seqs(pieces@).take(i as int).drop_last() == string_seqs(pieces@).take(
            i - 1,
        ));
    }
    assert(string_seqs(pieces@).take(pieces.len() as int) == string_seqs(pieces@));
    s
}

/// `c` in lower case, if it is an ASCII capital letter.
pub open spec fn ascii_lower_char(c: char) -> char {
    if 'A' <= c <= 'Z' {
        ((c as int) + 32) as char
    } else {
        c
    }
}

/// The text with its ASCII capital letters in lower case.
pub open spec fn ascii_lower(s: Seq<char>) -> Seq<char> {
    s.map_values(|c: char| ascii_lower_char(c))
}

/// Lower-cases the ASCII text `s`, as `str::to_lowercase` does for ASCII.
pub fn to_lowercase_ascii(s: &str) -> (t: String)
    ensures
        t@ == ascii_lower(s@),
{
    let v = to_chars(s);
    let mut t = String::new();
    let mut i: usize = 0;
    while i < v.len()
        invariant
            v@ == s@,
            0 <= i <= v.len(),
            t@ == ascii_lower(v@.take(i as int)),
        decreases v.len() - i,
    {
        let c = v[i];
        let lower = if 'A' <= c && c <= 'Z' {
            let code: u8 = ((c as u32) + 32) as u8;
            code as char
        } else {
            c
        };
        push_char(&mut t, lower);
        i = i + 1;
        assert(ascii_lower(v@.take(i as int)) =~= ascii_lower(v@.take(i - 1)).push(
            ascii_lower_char(v@[i - 1]),
        ));
    }
    assert(v@.take(v.len() as int) == v@);
    t
}

/// The ids that comma-separated pieces stand for, if every piece is a `u64`.
pub open spec fn parse_ids_spec(pieces: Seq<Seq<char>>) -> Option<Seq<u64>>
    decreases pieces.len(),
{
    if pieces.len() == 0 {
        Some(Seq::empty())
    } else {
        match (parse_ids_spec(pieces.drop_last()), parse_u64_spec(pieces.last())) {
            (Some(ids), Some(x)) => Some(ids.push(x)),
            _ => None,
        }
    }
}

/// Once a prefix of the pieces holds one that is not an id, so do all
/// longer prefixes.
proof fn lemma_parse_ids_none_stays(all: Seq<Seq<char>>, k: int)
    requires
        0 <= k <= all.len(),
        parse_ids_spec(all.take(k)) is None,
    ensures
        parse_ids_spec(all) is None,
    decreases all.len() - k,
{
    if k < all.len() {
        assert(all.take(k + 1).drop_last() == all.take(k));
        lemma_parse_ids_none_stays(all, k + 1);
    } else {
        assert(all.take(k) == all);
    }
}

/// Reads every piece as a `u64`, as collecting `parse` results into a
/// `Result<Vec<u64>, _>` does.
pub fn parse_ids(pieces: &Vec<Vec<char>>) -> (r: Option<Vec<u64>>)
    ensures
        match parse_ids_spec(char_seqs(pieces@)) {
            Some(ids) => r matches Some(v) && v@ == ids,
            None => r is None,
        },
{
    let ghost all = char_seqs(pieces@);
    let mut ids: Vec<u64> = Vec::new();
    let mut i: usize = 0;
    while i < pieces.len()
        invariant
            0 <= i <= pieces@.len(),
            all == char_seqs(pieces@),
            parse_ids_spec(all.take(i as int)) == Some(ids@),
        decreases pieces@.len() - i,
    {
        assert(all.take(i + 1).drop_last() == all.take(i as int));
        match parse_u64(&pieces[i]) {
            Some(x) => {
                ids.push(x);
            },
            None => {
                proof {
                    lemma_parse_ids_none_stays(all, i + 1);
                }
                return None;
            },
        }
        i = i + 1;
    }
    assert(all.take(pieces@.len() as int) == all);
    Some(ids)
}

/// The value of a character that is a decimal digit.
pub open spec fn digit_value(c: char) -> int {
    c as int - '0' as int
}

/// Whether a character is an ASCII digit.
pub open spec fn is_digit(c: char) -> bool {
    '0' <= c <= '9'
}

/// The number that a non-empty run of decimal digits denotes.
pub open spec fn digits_value(d: Seq<char>) -> int
    decreases d.len(),
{
    if d.len() == 0 {
        0
    } else {
        digits_value(d.drop_last()) * 10 + digit_value(d.last())
    }
}

/// The digits that follow an optional leading `+`.
pub open spec fn unsigned_digits(s: Seq<char>) -> Seq<char> {
    if s.len() > 0 && s[0] == '+' {
        s.skip(1)
    } else {
        s
    }
}

/// Whether every character of `d` is a decimal digit.
pub open spec fn all_digits(d: Seq<char>) -> bool {
    forall|i: int| 0 <= i < d.len() ==> is_digit(#[trigger] d[i])
}

/// What `s.parse::<u64>()` gives: an optional `+` followed by at least one
/// decimal digit, and a value that fits in `u64`.
pub open spec fn parse_u64_spec(s: Seq<char>) -> Option<u64> {
    let digits = unsigned_digits(s);
    if digits.len() > 0 && all_digits(digits) && digits_value(digits) <= u64::MAX {
        Some(digits_value(digits) as u64)
    } else {
        None
    }
}

/// The value of a digit sequence is never negative.
proof fn lemma_digits_value_nonneg(d: Seq<char>)
    requires
        forall|i: int| 0 <= i < d.len() ==> is_digit(#[trigger] d[i]),
    ensures
        digits_value(d) >= 0,
    decreases d.len(),
{
    if d.len() > 0 {
        lemma_digits_value_nonneg(d.drop_last());
    }
}

/// A longer prefix of digits is worth at least as much as a shorter one.
proof fn lemma_digits_value_grows(d: Seq<char>, k: int)
    requires
        0 <= k <= d.len(),
        forall|i: int| 0 <= i < d.len() ==> is_digit(#[trigger] d[i]),
    ensures
        digits_value(d.take(k)) <= digits_value(d),
    decreases d.len() - k,
{
    if k < d.len() {
        lemma_digits_value_grows(d, k + 1);
        assert(d.take(k + 1).drop_last() == d.take(k));
        lemma_digits_value_nonneg(d.take(k));
    } else {
        assert(d.take(k) == d);
    }
}

/// Parses a decimal `u64` as `str::parse::<u64>` does.
pub fn parse_u64(s: &Vec<char>) -> (r: Option<u64>)
    ensures
        r == parse_u64_spec(s@),
{
    let start: usize = if s.len() > 0 && s[0] == '+' {
        1
    } else {
        0
    };
    let ghost digits = s@.skip(start as int);
    assert(digits == unsigned_digits(s@));
    if start >= s.len() {
        return None;
    }
    let mut value: u64 = 0;
    let mut i: usize = start;
    while i < s.len()
        invariant
            start < s.len(),
            start <= i <= s.len(),
            digits == s@.skip(start as int),
            digits == unsigned_digits(s@),
            forall|j: int| start <= j < i ==> is_digit(#[trigger] s@[j]),
            value as int == digits_value(s@.subrange(start as int, i as int)),
        decreases s.len() - i,
    {
        let c = s[i];
        if !('0' <= c && c <= '9') {
            assert(digits[i - start] == s@[i as int]);
            assert(!is_digit(digits[i - start]));
            assert(!all_digits(digits));
            return None;
        }
        let d = ((c as u32) - ('0' as u32)) as u64;
        assert(d == digit_value(c));
        assert(s@.subrange(start as int, i + 1).last() == c);
        assert(s@.subrange(start as int, i + 1).drop_last() == s@.subrange(start as int, i as int));
        let next = match value.checked_mul(10) {
            Some(m) => m.checked_add(d),
            None => None,
        };
        match next {
            Some(v) => {
                value = v;
            },
            None => {
                proof {
                    let k = i + 1 - start;
                    assert(digits_value(s@.subrange(start as int, i + 1)) > u64::MAX);
                    assert(forall|j: int| 0 <= j < k ==> is_digit(#[trigger] digits[j]));
                    if all_digits(digits) {
                        lemma_digits_value_grows(digits, k);
                        assert(digits.take(k) == s@.subrange(start as int, i + 1));
                    }
                }
                return None;
            },
        }
        i = i + 1;
    }
    assert(s@.subrange(start as int, s.len() as int) == digits);
    Some(value)
}

/// The character of a decimal digit.
pub open spec fn digit_char(n: int) -> char {
    (n + 48) as char
}

/// The decimal digits of `n`, without leading zeros ("0" for zero).
pub open spec fn decimal(n: nat) -> Seq<char>
    decreases n,
{
    if n < 10 {
        seq![digit_char(n as int)]
    } else {
        decimal(n / 10) + seq![digit_char((n % 10) as int)]
    }
}

/// Appends the decimal digits of `n` to `s`.
pub fn push_decimal(s: &mut String, n: u64)
    ensures
        final(s)@ == old(s)@ + decimal(n as nat),
    decreases n,
{
    if n >= 10 {
        push_decimal(s, n / 10);
    }
    let d: u8 = (n % 10) as u8;
    let c: char = (d + 48) as char;
    assert(c == digit_char((n % 10) as int));
    push_char(s, c);
}

/// A string holding the characters of a string slice.
pub fn string_of(t: &str) -> (s: String)
    ensures
        s@ == t@,
{
    let mut s = String::new();
    push_str(&mut s, t);
    s
}

} // verus!
