//! Verified text utilities: substring search, suffix tests, decimal
//! rendering of counters, and word joining. Contracts are stated over
//! `Seq<char>` views of `str` and `String`.

use vstd::prelude::*;
use vstd::string::*;

verus! {

/// `pat` occurs in `s` starting at position `i`.
pub open spec fn match_at(s: Seq<char>, pat: Seq<char>, i: int) -> bool {
    0 <= i && i + pat.len() <= s.len() && s.subrange(i, i + pat.len()) == pat
}

/// `pat` occurs somewhere in `s`.
pub open spec fn contains_seq(s: Seq<char>, pat: Seq<char>) -> bool {
    exists|i: int| match_at(s, pat, i)
}

/// The position of the first occurrence of `pat` in `s` at or after `from`.
pub open spec fn spec_find_from(s: Seq<char>, pat: Seq<char>, from: int) -> Option<int>
    decreases s.len() + 1 - from,
{
    if from < 0 || from + pat.len() > s.len() {
        None
    } else if s.subrange(from, from + pat.len()) == pat {
        Some(from)
    } else {
        spec_find_from(s, pat, from + 1)
    }
}

/// The position of the first occurrence of `pat` in `s`.
pub open spec fn spec_find(s: Seq<char>, pat: Seq<char>) -> Option<int> {
    spec_find_from(s, pat, 0)
}

/// What `spec_find_from` returns is the leftmost match at or after `from`,
/// and `None` means there is none.
pub proof fn lemma_spec_find_from(s: Seq<char>, pat: Seq<char>, from: int)
    requires
        0 <= from,
    ensures
        spec_find_from(s, pat, from) is Some ==> {
            let i = spec_find_from(s, pat, from)->0;
            from <= i && match_at(s, pat, i) && forall|j: int|
                from <= j < i ==> !match_at(s, pat, j)
        },
        spec_find_from(s, pat, from) is None ==> forall|j: int|
            from <= j ==> !match_at(s, pat, j),
    decreases s.len() + 1 - from,
{
    if from + pat.len() > s.len() {
    } else if s.subrange(from, from + pat.len()) == pat {
    } else {
        lemma_spec_find_from(s, pat, from + 1);
    }
}

/// `pat` occurs at the very position `i` of `s`; a single left-to-right
/// character comparison.
fn match_here(s: &str, pat: &str, i: usize) -> (r: bool)
    requires
        i + pat@.len() <= s@.len(),
    ensures
        r == match_at(s@, pat@, i as int),
{
    let n = s.unicode_len();
    let m = pat.unicode_len();
    let mut k: usize = 0;
    while k < m
        invariant
            k <= m,
            m == pat@.len(),
            n == s@.len(),
            i + m <= n,
            forall|t: int| 0 <= t < k ==> s@[i + t] == pat@[t],
        decreases m - k,
    {
        if s.get_char(i + k) != pat.get_char(k) {
            proof {
                assert(s@.subrange(i as int, i + m) != pat@) by {
                    assert(s@.subrange(i as int, i + m)[k as int] == s@[i + k]);
                }
            }
            return false;
        }
        k += 1;
    }
    proof {
        assert(s@.subrange(i as int, i + m) =~= pat@);
    }
    true
}

/// The position of the first occurrence of `pat` in `s`, if any.
pub fn find_sub(s: &str, pat: &str) -> (r: Option<usize>)
    ensures
        match r {
            Some(i) => spec_find(s@, pat@) == Some(i as int),
            None => spec_find(s@, pat@) is None,
        },
{
    let n = s.unicode_len();
    let m = pat.unicode_len();
    if m > n {
        return None;
    }
    if m == 0 {
        proof {
            assert(s@.subrange(0, 0) =~= pat@);
        }
        return Some(0);
    }
    let bound = n - m;
    let mut i: usize = 0;
    loop
        invariant
            i <= bound + 1,
            bound == n - m,
            1 <= m <= n,
            n == s@.len(),
            m == pat@.len(),
            spec_find(s@, pat@) == spec_find_from(s@, pat@, i as int),
        decreases n - i,
    {
        if i > bound {
            return None;
        }
        if match_here(s, pat, i) {
            return Some(i);
        }
        proof {
            assert(spec_find_from(s@, pat@, i as int) == spec_find_from(s@, pat@, i + 1));
        }
        i += 1;
    }
}

/// `pat` occurs somewhere in `s`.
pub fn contains_sub(s: &str, pat: &str) -> (r: bool)
    ensures
        r == contains_seq(s@, pat@),
{
    proof {
        lemma_spec_find_from(s@, pat@, 0);
    }
    match find_sub(s, pat) {
        Some(_) => true,
        None => false,
    }
}

/// The two slices spell the same characters.
pub fn str_eq(a: &str, b: &str) -> (r: bool)
    ensures
        r == (a@ == b@),
{
    let n = a.unicode_len();
    if n != b.unicode_len() {
        return false;
    }
    let mut i: usize = 0;
    while i < n
        invariant
            i <= n,
            n == a@.len(),
            n == b@.len(),
            forall|t: int| 0 <= t < i ==> a@[t] == b@[t],
        decreases n - i,
    {
        if a.get_char(i) != b.get_char(i) {
            return false;
        }
        i += 1;
    }
    proof {
        assert(a@ =~= b@);
    }
    true
}

/// `s` ends with the characters of `ending`.
pub open spec fn ends_with(s: Seq<char>, ending: Seq<char>) -> bool {
    ending.len() <= s.len() && s.subrange(s.len() - ending.len(), s.len() as int) == ending
}

/// The path's final characters equal `ending`; the suffix test that the
/// corpus traversal filters files by.
pub fn has_file_extension(path: &str, ending: &str) -> (r: bool)
    ensures
        r == ends_with(path@, ending@),
{
    let n = path.unicode_len();
    let m = ending.unicode_len();
    if m > n {
        return false;
    }
    match_here(path, ending, n - m)
}

/// The decimal digit `d` as a character.
pub open spec fn dec_digit(d: nat) -> char {
    if d == 0 {
        '0'
    } else if d == 1 {
        '1'
    } else if d == 2 {
        '2'
    } else if d == 3 {
        '3'
    } else if d == 4 {
        '4'
    } else if d == 5 {
        '5'
    } else if d == 6 {
        '6'
    } else if d == 7 {
        '7'
    } else if d == 8 {
        '8'
    } else {
        '9'
    }
}

/// The usual decimal spelling of `n`, most significant digit first and
/// without leading zeros (a lone zero for `n == 0`).
pub open spec fn spec_dec(n: nat) -> Seq<char>
    decreases n,
{
    if n < 10 {
        seq![dec_digit(n)]
    } else {
        spec_dec(n / 10).push(dec_digit(n % 10))
    }
}

/// One decimal digit as a string slice.
fn digit_str(d: u64) -> (r: &'static str)
    requires
        d < 10,
    ensures
        r@ == seq![dec_digit(d as nat)],
{
    proof {
        reveal_strlit("0");
        reveal_strlit("1");
        reveal_strlit("2");
        reveal_strlit("3");
        reveal_strlit("4");
        reveal_strlit("5");
        reveal_strlit("6");
        reveal_strlit("7");
        reveal_strlit("8");
        reveal_strlit("9");
    }
    let r = if d == 0 {
        "0"
    } else if d == 1 {
        "1"
    } else if d == 2 {
        "2"
    } else if d == 3 {
        "3"
    } else if d == 4 {
        "4"
    } else if d == 5 {
        "5"
    } else if d == 6 {
        "6"
    } else if d == 7 {
        "7"
    } else if d == 8 {
        "8"
    } else {
        "9"
    };
    proof {
        assert(r@ =~= seq![dec_digit(d as nat)]);
    }
    r
}

/// Renders `n` in decimal.
pub fn u64_to_dec(n: u64) -> (r: String)
    ensures
        r@ == spec_dec(n as nat),
    decreases n,
{
    if n < 10 {
        digit_str(n).to_owned()
    } else {
        proof {
            assert(n / 10 < n) by (nonlinear_arith)
                requires
                    n >= 10,
            ;
        }
        let mut s = u64_to_dec(n / 10);
        s.append(digit_str(n % 10));
        proof {
            assert(spec_dec((n / 10) as nat).push(dec_digit((n % 10) as nat)) =~= spec_dec(
                (n / 10) as nat,
            ) + seq![dec_digit((n % 10) as nat)]);
        }
        s
    }
}

/// A word as whitespace tokenization produces it: non-empty and without
/// spaces.
pub open spec fn is_word(w: Seq<char>) -> bool {
    w.len() > 0 && forall|t: int| 0 <= t < w.len() ==> w[t] != ' '
}

/// Words joined by single spaces: the text of a windowed chunk.
pub open spec fn spec_join(ws: Seq<Seq<char>>) -> Seq<char>
    decreases ws.len(),
{
    if ws.len() == 0 {
        Seq::empty()
    } else if ws.len() == 1 {
        ws[0]
    } else {
        spec_join(ws.drop_last()) + seq![' '] + ws.last()
    }
}

/// Joins `words[from..to]` with single spaces.
pub fn join_words(words: &Vec<String>, from: usize, to: usize) -> (r: String)
    requires
        from <= to <= words@.len(),
    ensures
        r@ == spec_join(words@.subrange(from as int, to as int).map_values(|w: String| w@)),
{
    let mut r = String::new();
    let mut i: usize = from;
    proof {
        assert(words@.subrange(from as int, from as int).map_values(|w: String| w@)
            =~= Seq::<Seq<char>>::empty());
    }
    while i < to
        invariant
            from <= i <= to <= words@.len(),
            r@ == spec_join(words@.subrange(from as int, i as int).map_values(|w: String| w@)),
        decreases to - i,
    {
        if i > from {
            r.append(" ");
        }
        r.append(words[i].as_str());
        proof {
            reveal_strlit(" ");
            let u = words@.subrange(from as int, i as int).map_values(|w: String| w@);
            let u2 = words@.subrange(from as int, i + 1).map_values(|w: String| w@);
            assert(u2 =~= u.push(words@[i as int]@));
            if i > from {
                assert(u2.drop_last() =~= u);
                assert(" "@ =~= seq![' ']);
            }
        }
        i += 1;
    }
    r
}

/// The joined text unfolds from the front: the first word, a space, and
/// the rest joined.
pub proof fn lemma_join_front(ws: Seq<Seq<char>>)
    requires
        ws.len() >= 2,
    ensures
        spec_join(ws) == ws[0] + seq![' '] + spec_join(ws.drop_first()),
    decreases ws.len(),
{
    if ws.len() == 2 {
        assert(ws.drop_last() =~= seq![ws[0]]);
        assert(ws.drop_first() =~= seq![ws[1]]);
        assert(spec_join(seq![ws[0]]) == ws[0]);
        assert(spec_join(seq![ws[1]]) == ws[1]);
    } else {
        let head = ws.drop_last();
        lemma_join_front(head);
        assert(head[0] == ws[0]);
        assert(head.drop_first() =~= ws.drop_first().drop_last());
        assert(ws.drop_first().len() >= 2);
        assert(spec_join(ws.drop_first()) == spec_join(ws.drop_first().drop_last()) + seq![' ']
            + ws.drop_first().last());
        assert(ws.drop_first().last() == ws.last());
        assert((ws[0] + seq![' '] + spec_join(ws.drop_first().drop_last())) + seq![' ']
            + ws.last() =~= ws[0] + seq![' '] + (spec_join(ws.drop_first().drop_last())
            + seq![' '] + ws.last()));
    }
}

/// Splitting the joined text on spaces gives the words back: joining is
/// lossless for genuine words, so a chunk of `k` words holds exactly `k`
/// words.
pub proof fn lemma_join_split_roundtrip(ws: Seq<Seq<char>>)
    requires
        ws.len() >= 1,
        forall|k: int| 0 <= k < ws.len() ==> is_word(#[trigger] ws[k]),
    ensures
        spec_split_char(spec_join(ws), ' ') == ws,
    decreases ws.len(),
{
    let s = spec_join(ws);
    if ws.len() == 1 {
        assert(s == ws[0]);
        lemma_split_char_peel(s, ' ', s.len() as int);
        assert(spec_split_char(s, ' ') =~~= seq![s]);
        assert(seq![s] =~~= ws);
    } else {
        lemma_join_front(ws);
        let w0 = ws[0];
        let rest = spec_join(ws.drop_first());
        assert(s == w0 + seq![' '] + rest);
        assert(s.len() == w0.len() + 1 + rest.len());
        assert(forall|t: int| 0 <= t < w0.len() ==> s[t] == w0[t] && s[t] != ' ');
        assert(s[w0.len() as int] == ' ');
        lemma_split_char_peel(s, ' ', w0.len() as int);
        assert(s.take(w0.len() as int) =~= w0);
        assert(s.skip(w0.len() as int + 1) =~= rest);
        lemma_join_split_roundtrip(ws.drop_first());
        assert(spec_split_char(s, ' ') =~~= seq![w0] + ws.drop_first());
        assert(seq![w0] + ws.drop_first() =~~= ws);
    }
}

/// ASCII whitespace, as the interactive loop strips it from an input line.
pub open spec fn is_ascii_ws(c: char) -> bool {
    c == ' ' || c == '\t' || c == '\n' || c == '\r'
}

/// The index of the first character at or after `i` that is not ASCII
/// whitespace (`s.len()` if there is none).
pub open spec fn trim_start_idx(s: Seq<char>, i: int) -> int
    decreases s.len() - i,
{
    if 0 <= i < s.len() && is_ascii_ws(s[i]) {
        trim_start_idx(s, i + 1)
    } else {
        i
    }
}

/// The index just after the last character before `j` that is not ASCII
/// whitespace (`0` if there is none).
pub open spec fn trim_end_idx(s: Seq<char>, j: int) -> int
    decreases j,
{
    if 0 < j <= s.len() && is_ascii_ws(s[j - 1]) {
        trim_end_idx(s, j - 1)
    } else {
        j
    }
}

/// `s` with leading and trailing ASCII whitespace removed.
pub open spec fn spec_trim(s: Seq<char>) -> Seq<char> {
    let a = trim_start_idx(s, 0);
    let b = trim_end_idx(s, s.len() as int);
    if a <= b {
        s.subrange(a, b)
    } else {
        Seq::empty()
    }
}

/// `trim_end_idx` never moves past the ends of the string.
pub proof fn lemma_trim_end_le(s: Seq<char>, j: int)
    requires
        0 <= j <= s.len(),
    ensures
        0 <= trim_end_idx(s, j) <= j,
    decreases j,
{
    if 0 < j && is_ascii_ws(s[j - 1]) {
        lemma_trim_end_le(s, j - 1);
    }
}

/// Strips leading and trailing ASCII whitespace.
pub fn trim_ascii(s: &str) -> (r: &str)
    ensures
        r@ == spec_trim(s@),
{
    let n = s.unicode_len();
    let mut a: usize = 0;
    loop
        invariant
            a <= n,
            n == s@.len(),
            trim_start_idx(s@, 0) == trim_start_idx(s@, a as int),
        ensures
            a <= n,
            n == s@.len(),
            trim_start_idx(s@, 0) == a,
            a < n ==> !is_ascii_ws(s@[a as int]),
        decreases n - a,
    {
        if a == n {
            break;
        }
        let c = s.get_char(a);
        if !(c == ' ' || c == '\t' || c == '\n' || c == '\r') {
            break;
        }
        a += 1;
    }
    if a == n {
        proof {
            lemma_trim_end_le(s@, n as int);
        }
        let r = s.substring_char(n, n);
        proof {
            assert(r@ =~= spec_trim(s@));
        }
        return r;
    }
    let mut b: usize = n;
    loop
        invariant
            a < b <= n,
            n == s@.len(),
            !is_ascii_ws(s@[a as int]),
            trim_end_idx(s@, n as int) == trim_end_idx(s@, b as int),
        ensures
            a < b <= n,
            trim_end_idx(s@, n as int) == b,
        decreases b,
    {
        let c = s.get_char(b - 1);
        if !(c == ' ' || c == '\t' || c == '\n' || c == '\r') {
            break;
        }
        proof {
            assert(b - 1 > a) by {
                assert(is_ascii_ws(s@[b - 1]));
            }
        }
        b -= 1;
    }
    s.substring_char(a, b)
}

/// The index of the first element of `lines` in which `m` occurs.
pub open spec fn first_match_idx(lines: Seq<Seq<char>>, m: Seq<char>) -> Option<int>
    decreases lines.len(),
{
    if lines.len() == 0 {
        None
    } else if contains_seq(lines[0], m) {
        Some(0)
    } else {
        match first_match_idx(lines.drop_first(), m) {
            Some(i) => Some(i + 1),
            None => None,
        }
    }
}

/// What `first_match_idx` returns is the first element in which `m` occurs,
/// and `None` means there is none.
pub proof fn lemma_first_match_idx(lines: Seq<Seq<char>>, m: Seq<char>)
    ensures
        first_match_idx(lines, m) is Some ==> {
            let i = first_match_idx(lines, m)->0;
            0 <= i < lines.len() && contains_seq(lines[i], m) && forall|j: int|
                0 <= j < i ==> !contains_seq(#[trigger] lines[j], m)
        },
        first_match_idx(lines, m) is None ==> forall|j: int|
            0 <= j < lines.len() ==> !contains_seq(#[trigger] lines[j], m),
    decreases lines.len(),
{
    if lines.len() == 0 {
    } else if contains_seq(lines[0], m) {
    } else {
        let d = lines.drop_first();
        lemma_first_match_idx(d, m);
        match first_match_idx(d, m) {
            Some(i) => {
                assert(lines[i + 1] == d[i]);
                assert forall|j: int| 0 <= j < i + 1 implies !contains_seq(
                    #[trigger] lines[j],
                    m,
                ) by {
                    if j > 0 {
                        assert(d[j - 1] == lines[j]);
                    }
                }
            },
            None => {
                assert forall|j: int| 0 <= j < lines.len() implies !contains_seq(
                    #[trigger] lines[j],
                    m,
                ) by {
                    if j > 0 {
                        assert(d[j - 1] == lines[j]);
                    }
                }
            },
        }
    }
}

/// `s` split on every occurrence of `sep`, empty pieces kept: an empty
/// string yields one empty piece, and each separator starts a new piece.
pub open spec fn spec_split_char(s: Seq<char>, sep: char) -> Seq<Seq<char>>
    decreases s.len(),
{
    if s.len() == 0 {
        seq![Seq::<char>::empty()]
    } else if s[0] == sep {
        seq![Seq::<char>::empty()] + spec_split_char(s.drop_first(), sep)
    } else {
        let rest = spec_split_char(s.drop_first(), sep);
        seq![seq![s[0]] + rest[0]] + rest.drop_first()
    }
}

/// Splitting yields at least one piece.
pub proof fn lemma_split_char_len(s: Seq<char>, sep: char)
    ensures
        spec_split_char(s, sep).len() >= 1,
    decreases s.len(),
{
    if s.len() > 0 {
        lemma_split_char_len(s.drop_first(), sep);
    }
}

/// Peeling the first piece: if the first `sep` of `s` stands at `i` (or `s`
/// holds none and `i` is its length), the split is `s[..i]` followed by the
/// split of what comes after that separator.
pub proof fn lemma_split_char_peel(s: Seq<char>, sep: char, i: int)
    requires
        0 <= i <= s.len(),
        forall|t: int| 0 <= t < i ==> s[t] != sep,
        i == s.len() || s[i] == sep,
    ensures
        i == s.len() ==> spec_split_char(s, sep) =~~= seq![s],
        i < s.len() ==> spec_split_char(s, sep) =~~= seq![s.take(i)] + spec_split_char(
            s.skip(i + 1),
            sep,
        ),
    decreases i,
{
    lemma_split_char_len(s, sep);
    if i == 0 {
        if 0 < s.len() {
            assert(s.skip(1) =~= s.drop_first());
            assert(s.take(0) =~= Seq::<char>::empty());
        }
    } else {
        let d = s.drop_first();
        lemma_split_char_len(d, sep);
        lemma_split_char_peel(d, sep, i - 1);
        if i == s.len() {
            assert(spec_split_char(d, sep) =~~= seq![d]);
            assert(seq![s[0]] + d =~= s);
        } else {
            assert(spec_split_char(d, sep) =~~= seq![d.take(i - 1)] + spec_split_char(
                d.skip(i),
                sep,
            ));
            assert(seq![s[0]] + d.take(i - 1) =~= s.take(i));
            assert(d.skip(i) =~= s.skip(i + 1));
            assert((seq![d.take(i - 1)] + spec_split_char(d.skip(i), sep)).drop_first()
                =~~= spec_split_char(s.skip(i + 1), sep));
        }
    }
}

} // verus!
