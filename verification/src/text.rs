//! Verified character-level text utilities. The bridge's rendering and
//! command grammar are specified over `Seq<char>` views and implemented here
//! without any outside text engine; only pushing a single character onto a
//! `String` and Unicode case folding are taken from std on trust.

use vstd::prelude::*;

verus! {

/// Relies on `String::push`: appends exactly the one character.
#[verifier::external_body]
pub(crate) fn push_char(s: &mut String, c: char)
    ensures
        final(s)@ == old(s)@.push(c),
{
    s.push(c);
}

/// The name of what `str::to_lowercase` returns; the result depends on the
/// characters alone.
pub uninterp spec fn lower_of(s: Seq<char>) -> Seq<char>;

/// Relies on `str::to_lowercase`: full Unicode lowercasing of the text.
#[verifier::external_body]
pub(crate) fn to_lowercase(s: &str) -> (r: String)
    ensures
        r@ == lower_of(s@),
{
    s.to_lowercase()
}

/// The name of what `char::to_uppercase` returns for one character.
pub uninterp spec fn upper_of(c: char) -> Seq<char>;

/// Relies on `char::to_uppercase`: the uppercase expansion of one character.
#[verifier::external_body]
pub(crate) fn char_to_uppercase(c: char) -> (r: String)
    ensures
        r@ == upper_of(c),
{
    c.to_uppercase().collect()
}

/// The whitespace characters this library trims and splits on (the ASCII
/// whitespace set plus the two vertical spacing controls).
pub open spec fn is_space(c: char) -> bool {
    c == ' ' || c == '\t' || c == '\n' || c == '\r' || c == '\u{b}' || c == '\u{c}'
}

pub fn is_space_char(c: char) -> (r: bool)
    ensures
        r == is_space(c),
{
    c == ' ' || c == '\t' || c == '\n' || c == '\r' || c == '\u{b}' || c == '\u{c}'
}

pub open spec fn spec_trim_start(s: Seq<char>) -> Seq<char>
    decreases s.len(),
{
    if s.len() > 0 && is_space(s[0]) {
        spec_trim_start(s.drop_first())
    } else {
        s
    }
}

pub open spec fn spec_trim_end(s: Seq<char>) -> Seq<char>
    decreases s.len(),
{
    if s.len() > 0 && is_space(s[s.len() - 1]) {
        spec_trim_end(s.drop_last())
    } else {
        s
    }
}

/// The text with leading and trailing whitespace removed.
pub open spec fn spec_trim(s: Seq<char>) -> Seq<char> {
    spec_trim_end(spec_trim_start(s))
}

pub fn trim_start(s: &str) -> (r: String)
    ensures
        r@ == spec_trim_start(s@),
    decreases s@.len(),
{
    let n = s.unicode_len();
    if n == 0 {
        s.to_owned()
    } else if is_space_char(s.get_char(0)) {
        let rest = s.substring_char(1, n);
        proof {
            assert(rest@ =~= s@.drop_first());
        }
        trim_start(rest)
    } else {
        s.to_owned()
    }
}

pub fn trim_end(s: &str) -> (r: String)
    ensures
        r@ == spec_trim_end(s@),
    decreases s@.len(),
{
    let n = s.unicode_len();
    if n == 0 {
        s.to_owned()
    } else if is_space_char(s.get_char(n - 1)) {
        let rest = s.substring_char(0, n - 1);
        proof {
            assert(rest@ =~= s@.drop_last());
        }
        trim_end(rest)
    } else {
        s.to_owned()
    }
}

pub fn trim(s: &str) -> (r: String)
    ensures
        r@ == spec_trim(s@),
{
    let a = trim_start(s);
    trim_end(a.as_str())
}

/// Whether `p` is a prefix of `s`.
pub open spec fn spec_starts_with(s: Seq<char>, p: Seq<char>) -> bool {
    p.len() <= s.len() && s.subrange(0, p.len() as int) == p
}

pub fn starts_with(s: &str, p: &str) -> (r: bool)
    ensures
        r == spec_starts_with(s@, p@),
{
    let n = s.unicode_len();
    let m = p.unicode_len();
    if m > n {
        return false;
    }
    let head = s.substring_char(0, m);
    head.to_owned() == p.to_owned()
}

/// Whether `p` is a suffix of `s`.
pub open spec fn spec_ends_with(s: Seq<char>, p: Seq<char>) -> bool {
    p.len() <= s.len() && s.subrange(s.len() - p.len(), s.len() as int) == p
}

pub fn ends_with(s: &str, p: &str) -> (r: bool)
    ensures
        r == spec_ends_with(s@, p@),
{
    let n = s.unicode_len();
    let m = p.unicode_len();
    if m > n {
        return false;
    }
    let tail = s.substring_char(n - m, n);
    tail.to_owned() == p.to_owned()
}

/// The remainder after a prefix, when the prefix is there.
pub fn strip_prefix_str(s: &str, p: &str) -> (r: Option<String>)
    ensures
        match r {
            Some(rest) => spec_starts_with(s@, p@) && rest@ == s@.subrange(
                p@.len() as int,
                s@.len() as int,
            ),
            None => !spec_starts_with(s@, p@),
        },
{
    if starts_with(s, p) {
        let rest = s.substring_char(p.unicode_len(), s.unicode_len());
        Some(rest.to_owned())
    } else {
        None
    }
}

/// The remainder before a suffix, when the suffix is there.
pub fn strip_suffix_str(s: &str, p: &str) -> (r: Option<String>)
    ensures
        match r {
            Some(rest) => spec_ends_with(s@, p@) && rest@ == s@.subrange(
                0,
                s@.len() - p@.len(),
            ),
            None => !spec_ends_with(s@, p@),
        },
{
    if ends_with(s, p) {
        let head = s.substring_char(0, s.unicode_len() - p.unicode_len());
        Some(head.to_owned())
    } else {
        None
    }
}

pub fn str_eq(a: &str, b: &str) -> (r: bool)
    ensures
        r == (a@ == b@),
{
    a.to_owned() == b.to_owned()
}

pub fn string_eq_str(a: &String, b: &str) -> (r: bool)
    ensures
        r == (a@ == b@),
{
    str_eq(a.as_str(), b)
}

pub fn contains_char(s: &str, c: char) -> (r: bool)
    ensures
        r == s@.contains(c),
{
    let n = s.unicode_len();
    let mut i: usize = 0;
    while i < n
        invariant
            i <= n,
            n == s@.len(),
            forall|j: int| 0 <= j < i ==> s@[j] != c,
        decreases n - i,
    {
        if s.get_char(i) == c {
            proof {
                assert(s@[i as int] == c);
            }
            return true;
        }
        i = i + 1;
    }
    false
}

/// The index of the first occurrence of `c`, if any.
pub open spec fn spec_find(s: Seq<char>, c: char) -> Option<int>
    decreases s.len(),
{
    if s.len() == 0 {
        None
    } else if s[0] == c {
        Some(0int)
    } else {
        match spec_find(s.drop_first(), c) {
            Some(i) => Some(i + 1),
            None => None,
        }
    }
}

pub proof fn lemma_find_bounds(s: Seq<char>, c: char)
    ensures
        match spec_find(s, c) {
            Some(i) => 0 <= i < s.len() && s[i] == c,
            None => true,
        },
    decreases s.len(),
{
    if s.len() > 0 && s[0] != c {
        lemma_find_bounds(s.drop_first(), c);
    }
}

pub fn find_char(s: &str, c: char) -> (r: Option<usize>)
    ensures
        match r {
            Some(i) => spec_find(s@, c) == Some(i as int),
            None => spec_find(s@, c) is None,
        },
    decreases s@.len(),
{
    let n = s.unicode_len();
    if n == 0 {
        None
    } else if s.get_char(0) == c {
        Some(0)
    } else {
        let rest = s.substring_char(1, n);
        proof {
            assert(rest@ =~= s@.drop_first());
            lemma_find_bounds(rest@, c);
        }
        match find_char(rest, c) {
            Some(i) => Some(i + 1),
            None => None,
        }
    }
}

/// Whitespace tokenization, carrying the token being read.
pub open spec fn spec_tokens_acc(s: Seq<char>, cur: Seq<char>) -> Seq<Seq<char>>
    decreases s.len(),
{
    if s.len() == 0 {
        if cur.len() == 0 {
            seq![]
        } else {
            seq![cur]
        }
    } else if is_space(s[0]) {
        if cur.len() == 0 {
            spec_tokens_acc(s.drop_first(), seq![])
        } else {
            seq![cur] + spec_tokens_acc(s.drop_first(), seq![])
        }
    } else {
        spec_tokens_acc(s.drop_first(), cur.push(s[0]))
    }
}

/// The whitespace-separated tokens of the text, in order.
pub open spec fn spec_tokens(s: Seq<char>) -> Seq<Seq<char>> {
    spec_tokens_acc(s, seq![])
}

pub fn split_ws(s: &str) -> (r: Vec<String>)
    ensures
        r@.map_values(|t: String| t@) == spec_tokens(s@),
{
    let n = s.unicode_len();
    let mut out: Vec<String> = Vec::new();
    let mut cur: String = String::new();
    let mut i: usize = 0;
    proof {
        assert(s@.subrange(0, n as int) =~= s@);
    }
    while i < n
        invariant
            i <= n,
            n == s@.len(),
            out@.map_values(|t: String| t@) + spec_tokens_acc(s@.subrange(i as int, n as int), cur@)
                =~= spec_tokens(s@),
        decreases n - i,
    {
        let ghost prev_rest = s@.subrange(i as int, n as int);
        let ghost prev_out = out@;
        let ghost prev_cur = cur@;
        let c = s.get_char(i);
        proof {
            assert(prev_rest.len() > 0);
            assert(prev_rest[0] == s@[i as int]);
            assert(prev_rest.drop_first() =~= s@.subrange(i as int + 1, n as int));
        }
        if is_space_char(c) {
            if cur.as_str().unicode_len() > 0 {
                out.push(cur);
                cur = String::new();
                proof {
                    assert(spec_tokens_acc(prev_rest, prev_cur) == seq![prev_cur]
                        + spec_tokens_acc(prev_rest.drop_first(), Seq::<char>::empty()));
                    assert(out@.map_values(|t: String| t@) =~= prev_out.map_values(
                        |t: String| t@,
                    ).push(prev_cur));
                    assert(out@.map_values(|t: String| t@) + spec_tokens_acc(
                        s@.subrange(i as int + 1, n as int),
                        cur@,
                    ) =~= prev_out.map_values(|t: String| t@) + spec_tokens_acc(
                        prev_rest,
                        prev_cur,
                    ));
                }
            } else {
                proof {
                    assert(prev_cur =~= Seq::<char>::empty());
                    assert(spec_tokens_acc(prev_rest, prev_cur) == spec_tokens_acc(
                        prev_rest.drop_first(),
                        Seq::<char>::empty(),
                    ));
                }
            }
        } else {
            push_char(&mut cur, c);
            proof {
                assert(spec_tokens_acc(prev_rest, prev_cur) == spec_tokens_acc(
                    prev_rest.drop_first(),
                    prev_cur.push(c),
                ));
            }
        }
        i = i + 1;
    }
    proof {
        assert(s@.subrange(n as int, n as int) =~= Seq::<char>::empty());
    }
    if cur.as_str().unicode_len() > 0 {
        let ghost old_out = out@;
        let ghost old_cur = cur@;
        out.push(cur);
        proof {
            assert(out@.map_values(|t: String| t@) =~= old_out.map_values(|t: String| t@).push(
                old_cur,
            ));
        }
    }
    out
}

/// The parts joined with the separator between consecutive parts.
pub open spec fn spec_join(parts: Seq<Seq<char>>, sep: Seq<char>) -> Seq<char>
    decreases parts.len(),
{
    if parts.len() == 0 {
        seq![]
    } else if parts.len() == 1 {
        parts[0]
    } else {
        parts[0] + sep + spec_join(parts.drop_first(), sep)
    }
}

fn join_from(parts: &Vec<String>, from: usize, sep: &str) -> (r: String)
    requires
        from <= parts@.len(),
    ensures
        r@ == spec_join(
            parts@.map_values(|t: String| t@).subrange(from as int, parts@.len() as int),
            sep@,
        ),
    decreases parts@.len() - from,
{
    let ghost all = parts@.map_values(|t: String| t@);
    if from == parts.len() {
        proof {
            assert(all.subrange(from as int, all.len() as int) =~= Seq::<Seq<char>>::empty());
        }
        String::new()
    } else if from + 1 == parts.len() {
        proof {
            assert(all.subrange(from as int, all.len() as int) =~= seq![all[from as int]]);
        }
        parts[from].clone()
    } else {
        let mut out = parts[from].clone();
        out.append(sep);
        let rest = join_from(parts, from + 1, sep);
        out.append(rest.as_str());
        proof {
            let tail = all.subrange(from as int, all.len() as int);
            assert(tail.drop_first() =~= all.subrange(from as int + 1, all.len() as int));
            assert(tail[0] == all[from as int]);
        }
        out
    }
}

/// Joins the parts with the separator.
pub fn join_strings(parts: &Vec<String>, sep: &str) -> (r: String)
    ensures
        r@ == spec_join(parts@.map_values(|t: String| t@), sep@),
{
    let r = join_from(parts, 0, sep);
    proof {
        let all = parts@.map_values(|t: String| t@);
        assert(all.subrange(0, all.len() as int) =~= all);
    }
    r
}

/// Whether `needle` occurs anywhere in `s`.
pub open spec fn spec_contains_seq(s: Seq<char>, needle: Seq<char>) -> bool {
    exists|i: int|
        0 <= i <= s.len() - needle.len() && (#[trigger] s.subrange(i, i + needle.len() as int))
            == needle
}

pub fn contains_str(s: &str, needle: &str) -> (r: bool)
    ensures
        r == spec_contains_seq(s@, needle@),
{
    let n = s.unicode_len();
    let m = needle.unicode_len();
    if m > n {
        return false;
    }
    if m == 0 {
        proof {
            assert(s@.subrange(0, 0 + needle@.len() as int) =~= needle@);
            assert(spec_contains_seq(s@, needle@));
        }
        return true;
    }
    let mut i: usize = 0;
    while i <= n - m
        invariant
            0 < m <= n,
            n == s@.len(),
            m == needle@.len(),
            i <= n - m + 1,
            forall|k: int|
                0 <= k < i ==> (#[trigger] s@.subrange(k, k + needle@.len() as int)) != needle@,
        decreases n - m - i + 1,
    {
        let window = s.substring_char(i, i + m);
        if str_eq(window, needle) {
            proof {
                assert(s@.subrange(i as int, i as int + needle@.len() as int) == needle@);
            }
            return true;
        }
        i = i + 1;
    }
    false
}


/// ASCII lowercasing of one character; everything else passes through.
pub open spec fn ascii_lower_char(c: char) -> char {
    if c == 'A' {
        'a'
    } else
    if c == 'B' {
        'b'
    } else
    if c == 'C' {
        'c'
    } else
    if c == 'D' {
        'd'
    } else
    if c == 'E' {
        'e'
    } else
    if c == 'F' {
        'f'
    } else
    if c == 'G' {
        'g'
    } else
    if c == 'H' {
        'h'
    } else
    if c == 'I' {
        'i'
    } else
    if c == 'J' {
        'j'
    } else
    if c == 'K' {
        'k'
    } else
    if c == 'L' {
        'l'
    } else
    if c == 'M' {
        'm'
    } else
    if c == 'N' {
        'n'
    } else
    if c == 'O' {
        'o'
    } else
    if c == 'P' {
        'p'
    } else
    if c == 'Q' {
        'q'
    } else
    if c == 'R' {
        'r'
    } else
    if c == 'S' {
        's'
    } else
    if c == 'T' {
        't'
    } else
    if c == 'U' {
        'u'
    } else
    if c == 'V' {
        'v'
    } else
    if c == 'W' {
        'w'
    } else
    if c == 'X' {
        'x'
    } else
    if c == 'Y' {
        'y'
    } else
    if c == 'Z' {
        'z'
    } else {
        c
    }
}

fn ascii_lower_char_exec(c: char) -> (r: char)
    ensures
        r == ascii_lower_char(c),
{
    if c == 'A' {
        'a'
    } else
    if c == 'B' {
        'b'
    } else
    if c == 'C' {
        'c'
    } else
    if c == 'D' {
        'd'
    } else
    if c == 'E' {
        'e'
    } else
    if c == 'F' {
        'f'
    } else
    if c == 'G' {
        'g'
    } else
    if c == 'H' {
        'h'
    } else
    if c == 'I' {
        'i'
    } else
    if c == 'J' {
        'j'
    } else
    if c == 'K' {
        'k'
    } else
    if c == 'L' {
        'l'
    } else
    if c == 'M' {
        'm'
    } else
    if c == 'N' {
        'n'
    } else
    if c == 'O' {
        'o'
    } else
    if c == 'P' {
        'p'
    } else
    if c == 'Q' {
        'q'
    } else
    if c == 'R' {
        'r'
    } else
    if c == 'S' {
        's'
    } else
    if c == 'T' {
        't'
    } else
    if c == 'U' {
        'u'
    } else
    if c == 'V' {
        'v'
    } else
    if c == 'W' {
        'w'
    } else
    if c == 'X' {
        'x'
    } else
    if c == 'Y' {
        'y'
    } else
    if c == 'Z' {
        'z'
    } else {
        c
    }
}

/// The text with ASCII letters lowercased, other characters untouched.
pub open spec fn spec_ascii_lower(s: Seq<char>) -> Seq<char> {
    s.map_values(|c: char| ascii_lower_char(c))
}

pub fn ascii_lower(s: &str) -> (r: String)
    ensures
        r@ == spec_ascii_lower(s@),
{
    let n = s.unicode_len();
    let mut out = String::new();
    let mut i: usize = 0;
    while i < n
        invariant
            i <= n,
            n == s@.len(),
            out@ =~= spec_ascii_lower(s@.subrange(0, i as int)),
        decreases n - i,
    {
        let c = s.get_char(i);
        push_char(&mut out, ascii_lower_char_exec(c));
        proof {
            assert(out@ =~= spec_ascii_lower(s@.subrange(0, i as int + 1)));
        }
        i = i + 1;
    }
    proof {
        assert(s@.subrange(0, n as int) =~= s@);
    }
    out
}

/// The decimal digit characters.
pub open spec fn digit_char(d: int) -> char {
    if d == 0 {
        '0'
    } else if d == 1 {
        '1'
    } else if d == 2 {
        '2'
    } else if d == 3 {
        '3'
    } else if d == 4 {
        '4'
    } else if d == 5 {
        '5'
    } else if d == 6 {
        '6'
    } else if d == 7 {
        '7'
    } else if d == 8 {
        '8'
    } else {
        '9'
    }
}

/// The decimal rendering of a non-negative number.
pub open spec fn spec_u64_str(n: int) -> Seq<char>
    decreases n,
{
    if n < 10 {
        seq![digit_char(n)]
    } else {
        spec_u64_str(n / 10).push(digit_char(n % 10))
    }
}

fn exec_digit_char(d: u64) -> (c: char)
    requires
        d < 10,
    ensures
        c == digit_char(d as int),
{
    if d == 0 {
        '0'
    } else if d == 1 {
        '1'
    } else if d == 2 {
        '2'
    } else if d == 3 {
        '3'
    } else if d == 4 {
        '4'
    } else if d == 5 {
        '5'
    } else if d == 6 {
        '6'
    } else if d == 7 {
        '7'
    } else if d == 8 {
        '8'
    } else {
        '9'
    }
}

/// Renders a number in decimal.
pub fn u64_to_string(n: u64) -> (r: String)
    ensures
        r@ == spec_u64_str(n as int),
    decreases n,
{
    if n < 10 {
        let mut out = String::new();
        push_char(&mut out, exec_digit_char(n));
        proof {
            assert(out@ =~= spec_u64_str(n as int));
        }
        out
    } else {
        let mut out = u64_to_string(n / 10);
        push_char(&mut out, exec_digit_char(n % 10));
        out
    }
}

/// Renders a count in decimal.
pub fn usize_to_string(n: usize) -> (r: String)
    ensures
        r@ == spec_u64_str(n as int),
{
    u64_to_string(n as u64)
}

/// The decimal rendering of a signed number.
pub open spec fn spec_i64_str(n: int) -> Seq<char> {
    if n < 0 {
        seq!['-'] + spec_u64_str(-n)
    } else {
        spec_u64_str(n)
    }
}

/// Renders a signed number in decimal.
pub fn i64_to_string(n: i64) -> (r: String)
    ensures
        r@ == spec_i64_str(n as int),
{
    if n < 0 {
        let wide: i128 = -(n as i128);
        let magnitude: u64 = wide as u64;
        let mut out = String::new();
        push_char(&mut out, '-');
        let digits = u64_to_string(magnitude);
        out.append(digits.as_str());
        proof {
            assert(out@ =~= seq!['-'] + spec_u64_str(-(n as int)));
        }
        out
    } else {
        u64_to_string(n as u64)
    }
}

/// The text with every trailing occurrence of one character removed.
pub open spec fn spec_trim_end_char(s: Seq<char>, c: char) -> Seq<char>
    decreases s.len(),
{
    if s.len() > 0 && s[s.len() - 1] == c {
        spec_trim_end_char(s.drop_last(), c)
    } else {
        s
    }
}

pub fn trim_end_char(s: &str, c: char) -> (r: String)
    ensures
        r@ == spec_trim_end_char(s@, c),
    decreases s@.len(),
{
    let n = s.unicode_len();
    if n > 0 && s.get_char(n - 1) == c {
        let rest = s.substring_char(0, n - 1);
        proof {
            assert(rest@ =~= s@.drop_last());
        }
        trim_end_char(rest, c)
    } else {
        s.to_owned()
    }
}

/// A clone of a vector of strings, with the view carried over exactly.
pub fn clone_string_vec(v: &Vec<String>) -> (r: Vec<String>)
    ensures
        r@ == v@,
{
    let mut out: Vec<String> = Vec::new();
    let mut i: usize = 0;
    while i < v.len()
        invariant
            i <= v@.len(),
            out@ =~= v@.subrange(0, i as int),
        decreases v@.len() - i,
    {
        out.push(v[i].clone());
        proof {
            assert(out@ =~= v@.subrange(0, i as int + 1));
        }
        i = i + 1;
    }
    proof {
        assert(v@.subrange(0, v@.len() as int) =~= v@);
    }
    out
}

/// Left-to-right replacement of every non-overlapping occurrence of `from`.
pub open spec fn spec_replace(s: Seq<char>, from: Seq<char>, to: Seq<char>) -> Seq<char>
    decreases s.len(),
    when from.len() > 0
{
    if s.len() < from.len() {
        s
    } else if s.subrange(0, from.len() as int) == from {
        to + spec_replace(s.subrange(from.len() as int, s.len() as int), from, to)
    } else {
        seq![s[0]] + spec_replace(s.drop_first(), from, to)
    }
}

pub fn replace_all(s: &str, from: &str, to: &str) -> (r: String)
    requires
        from@.len() > 0,
    ensures
        r@ == spec_replace(s@, from@, to@),
{
    let n = s.unicode_len();
    let m = from.unicode_len();
    let mut out = String::new();
    let mut i: usize = 0;
    proof {
        assert(s@.subrange(0, n as int) =~= s@);
    }
    while i < n
        invariant
            i <= n,
            n == s@.len(),
            m == from@.len(),
            m > 0,
            out@ + spec_replace(s@.subrange(i as int, n as int), from@, to@) =~= spec_replace(
                s@,
                from@,
                to@,
            ),
        decreases n - i,
    {
        let ghost rest = s@.subrange(i as int, n as int);
        let is_match: bool = if m <= n - i {
            let window = s.substring_char(i, i + m);
            let eq = str_eq(window, from);
            proof {
                assert(rest.subrange(0, m as int) =~= window@);
            }
            eq
        } else {
            false
        };
        if is_match {
            out.append(to);
            proof {
                assert(rest.subrange(m as int, rest.len() as int) =~= s@.subrange(
                    (i + m) as int,
                    n as int,
                ));
            }
            i = i + m;
        } else {
            let c = s.get_char(i);
            push_char(&mut out, c);
            proof {
                assert(rest[0] == c);
                assert(rest.drop_first() =~= s@.subrange(i as int + 1, n as int));
                if rest.len() < m {
                    assert(seq![rest[0]] + rest.drop_first() =~= rest);
                }
            }
            i = i + 1;
        }
    }
    proof {
        assert(s@.subrange(n as int, n as int) =~= Seq::<char>::empty());
    }
    out
}


/// Splitting at every occurrence of one separator, keeping empty fields.
pub open spec fn spec_split_char_acc(s: Seq<char>, sep: char, cur: Seq<char>) -> Seq<Seq<char>>
    decreases s.len(),
{
    if s.len() == 0 {
        seq![cur]
    } else if s[0] == sep {
        seq![cur] + spec_split_char_acc(s.drop_first(), sep, Seq::empty())
    } else {
        spec_split_char_acc(s.drop_first(), sep, cur.push(s[0]))
    }
}

/// The fields of the text split at a separator; a text without the separator
/// is one field, and empty fields are kept.
pub open spec fn spec_split_char(s: Seq<char>, sep: char) -> Seq<Seq<char>> {
    spec_split_char_acc(s, sep, Seq::empty())
}

/// Splits the text at every occurrence of the separator.
pub fn split_on_char(s: &str, sep: char) -> (r: Vec<String>)
    ensures
        r@.map_values(|t: String| t@) == spec_split_char(s@, sep),
{
    let n = s.unicode_len();
    let mut out: Vec<String> = Vec::new();
    let mut cur: String = String::new();
    let mut i: usize = 0;
    proof {
        assert(s@.subrange(0, n as int) =~= s@);
    }
    while i < n
        invariant
            i <= n,
            n == s@.len(),
            out@.map_values(|t: String| t@) + spec_split_char_acc(
                s@.subrange(i as int, n as int),
                sep,
                cur@,
            ) =~= spec_split_char(s@, sep),
        decreases n - i,
    {
        let ghost prev_rest = s@.subrange(i as int, n as int);
        let ghost prev_out = out@;
        let ghost prev_cur = cur@;
        let c = s.get_char(i);
        proof {
            assert(prev_rest[0] == c);
            assert(prev_rest.drop_first() =~= s@.subrange(i as int + 1, n as int));
        }
        if c == sep {
            out.push(cur);
            cur = String::new();
            proof {
                assert(out@.map_values(|t: String| t@) =~= prev_out.map_values(
                    |t: String| t@,
                ).push(prev_cur));
            }
        } else {
            push_char(&mut cur, c);
        }
        i = i + 1;
    }
    proof {
        assert(s@.subrange(n as int, n as int) =~= Seq::<char>::empty());
    }
    let ghost prev_out = out@;
    let ghost prev_cur = cur@;
    out.push(cur);
    proof {
        assert(out@.map_values(|t: String| t@) =~= prev_out.map_values(|t: String| t@).push(
            prev_cur,
        ));
    }
    out
}

} // verus!
