use vstd::prelude::*;

verus! {

/// Whether two string slices hold the same characters.
pub fn str_eq(a: &str, b: &str) -> (r: bool)
    ensures
        r == (a@ == b@),
{
    let n = a.unicode_len();
    if n != b.unicode_len() {
        return false;
    }
    let mut i: usize = 0;
    while i < n
        invariant
            n == a@.len(),
            n == b@.len(),
            i <= n,
            forall|j: int| 0 <= j < i ==> a@[j] == b@[j],
        decreases n - i,
    {
        if a.get_char(i) != b.get_char(i) {
            return false;
        }
        i = i + 1;
    }
    assert(a@ =~= b@);
    true
}


/// Whether `c` is white space in the sense of `char::is_whitespace`
/// (the Unicode `White_Space` property).
pub open spec fn is_ws(c: char) -> bool {
    ('\u{9}' <= c && c <= '\u{d}') || c == ' ' || c == '\u{85}' || c == '\u{a0}'
        || c == '\u{1680}' || ('\u{2000}' <= c && c <= '\u{200a}') || c == '\u{2028}'
        || c == '\u{2029}' || c == '\u{202f}' || c == '\u{205f}' || c == '\u{3000}'
}

/// Whether `c` is ASCII white space in the sense of
/// `char::is_ascii_whitespace`.
pub open spec fn is_ascii_ws(c: char) -> bool {
    c == ' ' || c == '\t' || c == '\n' || c == '\u{c}' || c == '\r'
}

/// `s` without its leading white space.
pub open spec fn trim_start(s: Seq<char>) -> Seq<char>
    decreases s.len(),
{
    if s.len() > 0 && is_ws(s[0]) {
        trim_start(s.drop_first())
    } else {
        s
    }
}

/// `s` without its trailing white space.
pub open spec fn trim_end(s: Seq<char>) -> Seq<char>
    decreases s.len(),
{
    if s.len() > 0 && is_ws(s.last()) {
        trim_end(s.drop_last())
    } else {
        s
    }
}

/// `s` without leading and trailing white space, as `str::trim` gives it.
pub open spec fn trim(s: Seq<char>) -> Seq<char> {
    trim_end(trim_start(s))
}

/// Whether `c` is white space.
pub fn char_is_ws(c: char) -> (r: bool)
    ensures
        r == is_ws(c),
{
    ('\u{9}' <= c && c <= '\u{d}') || c == ' ' || c == '\u{85}' || c == '\u{a0}'
        || c == '\u{1680}' || ('\u{2000}' <= c && c <= '\u{200a}') || c == '\u{2028}'
        || c == '\u{2029}' || c == '\u{202f}' || c == '\u{205f}' || c == '\u{3000}'
}

/// Whether `c` is ASCII white space.
pub fn char_is_ascii_ws(c: char) -> (r: bool)
    ensures
        r == is_ascii_ws(c),
{
    c == ' ' || c == '\t' || c == '\n' || c == '\u{c}' || c == '\r'
}

proof fn lemma_trim_start_skip(s: Seq<char>, a: int)
    requires
        0 <= a <= s.len(),
        forall|j: int| 0 <= j < a ==> is_ws(s[j]),
    ensures
        trim_start(s) == trim_start(s.subrange(a, s.len() as int)),
    decreases a,
{
    if a > 0 {
        assert(s.drop_first().subrange(a - 1, s.drop_first().len() as int) =~= s.subrange(
            a,
            s.len() as int,
        ));
        lemma_trim_start_skip(s.drop_first(), a - 1);
    } else {
        assert(s.subrange(0, s.len() as int) =~= s);
    }
}

proof fn lemma_trim_end_cut(s: Seq<char>, b: int)
    requires
        0 <= b <= s.len(),
        forall|j: int| b <= j < s.len() ==> is_ws(s[j]),
    ensures
        trim_end(s) == trim_end(s.subrange(0, b)),
    decreases s.len() - b,
{
    if b < s.len() {
        assert(s.drop_last().subrange(0, b) =~= s.subrange(0, b));
        lemma_trim_end_cut(s.drop_last(), b);
    } else {
        assert(s.subrange(0, b) =~= s);
    }
}

/// `s` without leading and trailing white space.
pub fn trim_str(s: &str) -> (r: String)
    ensures
        r@ == trim(s@),
{
    let n = s.unicode_len();
    let mut a: usize = 0;
    while a < n && char_is_ws(s.get_char(a))
        invariant
            n == s@.len(),
            a <= n,
            forall|j: int| 0 <= j < a ==> is_ws(s@[j]),
        decreases n - a,
    {
        a = a + 1;
    }
    let mut b: usize = n;
    while b > a && char_is_ws(s.get_char(b - 1))
        invariant
            n == s@.len(),
            a <= b <= n,
            forall|j: int| b <= j < n ==> is_ws(s@[j]),
        decreases b,
    {
        b = b - 1;
    }
    proof {
        let t = s@.subrange(a as int, n as int);
        lemma_trim_start_skip(s@, a as int);
        assert(trim_start(t) == t);
        lemma_trim_end_cut(t, (b - a) as int);
        assert(t.subrange(0, (b - a) as int) =~= s@.subrange(a as int, b as int));
        let u = s@.subrange(a as int, b as int);
        assert(u.len() == 0 || !is_ws(u.last()));
        assert(trim_end(u) == u);
    }
    String::from_str(s.substring_char(a, b))
}


/// The characters of `s`.
pub fn chars_of(s: &str) -> (r: Vec<char>)
    ensures
        r@ == s@,
{
    let mut r: Vec<char> = Vec::new();
    for c in it: s.chars()
        invariant
            it.seq() == s@,
            r@ == it.seq().take(it.index() as int),
    {
        proof {
            assert(it.seq().take(it.index() + 1) =~= r@.push(c));
        }
        r.push(c);
    }
    assert(s@.take(s@.len() as int) =~= s@);
    r
}

/// Whether `p` occurs in `s` at index `i`.
pub open spec fn occurs_at(s: Seq<char>, p: Seq<char>, i: int) -> bool {
    0 <= i && i + p.len() <= s.len() && s.subrange(i, i + p.len()) == p
}

/// The first index from `k` on where `p` occurs in `s`.
pub open spec fn find_seq_from(s: Seq<char>, p: Seq<char>, k: int) -> Option<int>
    decreases s.len() + 1 - k,
{
    if k < 0 || k > s.len() || k + p.len() > s.len() {
        None
    } else if occurs_at(s, p, k) {
        Some(k)
    } else {
        find_seq_from(s, p, k + 1)
    }
}

/// The pieces of `s` between the occurrences of `p`, as `str::split` gives
/// them for a non-empty pattern.
pub open spec fn split_seq(s: Seq<char>, p: Seq<char>) -> Seq<Seq<char>>
    decreases s.len(),
{
    if p.len() == 0 {
        seq![s]
    } else {
        match find_seq_from(s, p, 0) {
            Some(i) => if 0 <= i && i + p.len() <= s.len() {
                seq![s.subrange(0, i)] + split_seq(s.subrange(i + p.len(), s.len() as int), p)
            } else {
                seq![s]
            },
            None => seq![s],
        }
    }
}

/// Whether `p` occurs in `s` at index `i`, on characters.
fn occurs_at_chars(s: &Vec<char>, p: &Vec<char>, i: usize) -> (r: bool)
    ensures
        r == occurs_at(s@, p@, i as int),
{
    let sl = s.len();
    if i > sl || p.len() > sl - i {
        return false;
    }
    let mut j: usize = 0;
    while j < p.len()
        invariant
            sl == s@.len(),
            i + p@.len() <= s@.len(),
            j <= p@.len(),
            forall|m: int| 0 <= m < j ==> s@[i + m] == p@[m],
        decreases p@.len() - j,
    {
        if s[i + j] != p[j] {
            assert(s@.subrange(i as int, i + p@.len())[j as int] != p@[j as int]);
            return false;
        }
        j = j + 1;
    }
    assert(s@.subrange(i as int, i + p@.len()) =~= p@);
    true
}

/// The first index from `k` on where `p` occurs in `s`, on characters.
fn find_chars_from(s: &Vec<char>, p: &Vec<char>, k: usize) -> (r: Option<usize>)
    ensures
        match r {
            Some(i) => find_seq_from(s@, p@, k as int) == Some(i as int),
            None => find_seq_from(s@, p@, k as int) is None,
        },
{
    let n = s.len();
    let m = p.len();
    let mut i = k;
    while i <= n && m <= n - i
        invariant
            n == s@.len(),
            m == p@.len(),
            k <= i,
            find_seq_from(s@, p@, k as int) == find_seq_from(s@, p@, i as int),
        decreases s@.len() + 1 - i,
    {
        if occurs_at_chars(s, p, i) {
            return Some(i);
        }
        proof {
            if m == 0 {
                assert(s@.subrange(i as int, i as int) =~= p@);
            }
        }
        i = i + 1;
    }
    None
}

/// The first index where `p` occurs in `s`.
pub fn find_str(s: &str, p: &str) -> (r: Option<usize>)
    ensures
        match r {
            Some(i) => find_seq_from(s@, p@, 0) == Some(i as int),
            None => find_seq_from(s@, p@, 0) is None,
        },
{
    find_chars_from(&chars_of(s), &chars_of(p), 0)
}

pub proof fn lemma_find_bound(s: Seq<char>, p: Seq<char>, k: int)
    ensures
        find_seq_from(s, p, k) matches Some(i) ==> k <= i && occurs_at(s, p, i),
    decreases s.len() + 1 - k,
{
    if !(k < 0 || k > s.len() || k + p.len() > s.len()) && !occurs_at(s, p, k) {
        lemma_find_bound(s, p, k + 1);
    }
}

/// Whether `p` occurs in `s`.
pub open spec fn contains_seq(s: Seq<char>, p: Seq<char>) -> bool {
    find_seq_from(s, p, 0) is Some
}

/// Whether `p` occurs in `s`.
pub fn contains_str(s: &str, p: &str) -> (r: bool)
    ensures
        r == contains_seq(s@, p@),
{
    find_str(s, p).is_some()
}

/// The pieces of `s` between the occurrences of the non-empty `p`, in order.
pub fn split_str(s: &str, p: &str) -> (r: Vec<String>)
    requires
        p@.len() > 0,
    ensures
        r@.map_values(|x: String| x@) == split_seq(s@, p@),
{
    let sc = chars_of(s);
    let pc = chars_of(p);
    let n = sc.len();
    let m = pc.len();
    let mut r: Vec<String> = Vec::new();
    let mut start: usize = 0;
    assert(s@.subrange(0, n as int) =~= s@);
    while start <= n
        invariant
            sc@ == s@,
            pc@ == p@,
            n == s@.len(),
            m == p@.len(),
            m > 0,
            start <= n,
            r@.map_values(|x: String| x@) + split_seq(s@.subrange(start as int, n as int), p@)
                == split_seq(s@, p@),
        decreases n - start,
    {
        let ghost rest = s@.subrange(start as int, n as int);
        match find_chars_from(&sc, &pc, start) {
            Some(i) => {
                proof {
                    lemma_find_bound(s@, p@, start as int);
                    lemma_find_shift(s@, p@, start as int);
                    assert(find_seq_from(rest, p@, 0) == Some(i - start));
                    assert(rest.subrange(0, i - start) =~= s@.subrange(start as int, i as int));
                    assert(rest.subrange(i - start + m, rest.len() as int) =~= s@.subrange(
                        i + m,
                        n as int,
                    ));
                }
                let piece = String::from_str(s.substring_char(start, i));
                proof {
                    assert(r@.push(piece).map_values(|x: String| x@) =~= r@.map_values(
                        |x: String| x@,
                    ).push(piece@));
                    assert(seq![rest.subrange(0, i - start)] + split_seq(
                        rest.subrange(i - start + m, rest.len() as int),
                        p@,
                    ) == split_seq(rest, p@));
                    assert(r@.map_values(|x: String| x@).push(piece@) + split_seq(
                        s@.subrange(i + m, n as int),
                        p@,
                    ) =~= r@.map_values(|x: String| x@) + split_seq(rest, p@));
                }
                r.push(piece);
                start = i + m;
            },
            None => {
                proof {
                    lemma_find_shift(s@, p@, start as int);
                    assert(find_seq_from(rest, p@, 0) is None);
                }
                let piece = String::from_str(s.substring_char(start, n));
                proof {
                    assert(r@.push(piece).map_values(|x: String| x@) =~= r@.map_values(
                        |x: String| x@,
                    ) + split_seq(rest, p@));
                }
                r.push(piece);
                return r;
            },
        }
    }
    r
}

/// Searching `s` from `k` is searching its suffix from `k` from the start.
proof fn lemma_find_shift(s: Seq<char>, p: Seq<char>, k: int)
    requires
        0 <= k <= s.len(),
    ensures
        match find_seq_from(s, p, k) {
            Some(i) => find_seq_from(s.subrange(k, s.len() as int), p, 0) == Some(i - k),
            None => find_seq_from(s.subrange(k, s.len() as int), p, 0) is None,
        },
{
    lemma_find_shift_from(s, p, k, k);
}

proof fn lemma_find_shift_from(s: Seq<char>, p: Seq<char>, k: int, j: int)
    requires
        0 <= k <= j,
        k <= s.len(),
    ensures
        match find_seq_from(s, p, j) {
            Some(i) => find_seq_from(s.subrange(k, s.len() as int), p, j - k) == Some(i - k),
            None => find_seq_from(s.subrange(k, s.len() as int), p, j - k) is None,
        },
    decreases s.len() + 1 - j,
{
    let t = s.subrange(k, s.len() as int);
    if j > s.len() || j + p.len() > s.len() {
    } else {
        assert(t.subrange(j - k, j - k + p.len()) =~= s.subrange(j, j + p.len()));
        if !occurs_at(s, p, j) {
            lemma_find_shift_from(s, p, k, j + 1);
        }
    }
}

/// Whether `p` is a prefix of `s`.
pub fn starts_with(s: &str, p: &str) -> (r: bool)
    ensures
        r == p@.is_prefix_of(s@),
{
    let sc = chars_of(s);
    let pc = chars_of(p);
    let r = occurs_at_chars(&sc, &pc, 0);
    proof {
        if p@.len() <= s@.len() {
            assert(s@.subrange(0, p@.len() as int) =~= s@.take(p@.len() as int));
        }
    }
    r
}

/// Whether `p` is a suffix of `s`.
pub open spec fn is_suffix(p: Seq<char>, s: Seq<char>) -> bool {
    p.len() <= s.len() && s.subrange(s.len() - p.len(), s.len() as int) == p
}

/// Whether `p` is a suffix of `s`.
pub fn ends_with(s: &str, p: &str) -> (r: bool)
    ensures
        r == is_suffix(p@, s@),
{
    let sc = chars_of(s);
    let pc = chars_of(p);
    if pc.len() > sc.len() {
        return false;
    }
    occurs_at_chars(&sc, &pc, sc.len() - pc.len())
}

/// The concatenation of two strings.
pub fn concat(a: &str, b: &str) -> (r: String)
    ensures
        r@ == a@ + b@,
{
    let mut r = String::from_str(a);
    r.append(b);
    r
}

/// The words of `s` separated by ASCII white space, as
/// `str::split_ascii_whitespace` gives them.
pub open spec fn words(s: Seq<char>) -> Seq<Seq<char>> {
    words_from(s, 0, 0)
}

/// The words of `s` at or after `k`, where the current word started at
/// `start` (`start == k` when no word is open).
pub open spec fn words_from(s: Seq<char>, start: int, k: int) -> Seq<Seq<char>>
    decreases s.len() - k,
{
    if k < 0 || start < 0 || start > k || k >= s.len() {
        if 0 <= start < k <= s.len() {
            seq![s.subrange(start, k)]
        } else {
            Seq::empty()
        }
    } else if is_ascii_ws(s[k]) {
        if start < k {
            seq![s.subrange(start, k)] + words_from(s, k + 1, k + 1)
        } else {
            words_from(s, k + 1, k + 1)
        }
    } else {
        words_from(s, start, k + 1)
    }
}

/// The words of `s` separated by ASCII white space.
pub fn split_words(s: &str) -> (r: Vec<String>)
    ensures
        r@.map_values(|x: String| x@) == words(s@),
{
    let sc = chars_of(s);
    let n = sc.len();
    let mut r: Vec<String> = Vec::new();
    let mut start: usize = 0;
    let mut k: usize = 0;
    while k < n
        invariant
            sc@ == s@,
            n == s@.len(),
            start <= k <= n,
            r@.map_values(|x: String| x@) + words_from(s@, start as int, k as int) == words(s@),
        decreases n - k,
    {
        if char_is_ascii_ws(sc[k]) {
            if start < k {
                let w = String::from_str(s.substring_char(start, k));
                proof {
                    assert(r@.push(w).map_values(|x: String| x@) =~= r@.map_values(
                        |x: String| x@,
                    ).push(w@));
                    assert(r@.map_values(|x: String| x@).push(w@) + words_from(
                        s@,
                        k + 1,
                        k + 1,
                    ) =~= r@.map_values(|x: String| x@) + words_from(
                        s@,
                        start as int,
                        k as int,
                    ));
                }
                r.push(w);
            }
            k = k + 1;
            start = k;
        } else {
            k = k + 1;
        }
    }
    if start < n {
        let w = String::from_str(s.substring_char(start, n));
        proof {
            assert(r@.push(w).map_values(|x: String| x@) =~= r@.map_values(|x: String| x@)
                + words_from(s@, start as int, n as int));
        }
        r.push(w);
    } else {
        assert(r@.map_values(|x: String| x@) =~= r@.map_values(|x: String| x@) + words_from(
            s@,
            start as int,
            k as int,
        ));
    }
    r
}


/// The ASCII lower case of a character, as a code point.
pub open spec fn ascii_lower(c: char) -> u32 {
    let x = c as u32;
    if 65 <= x && x <= 90 {
        (x + 32) as u32
    } else {
        x
    }
}

/// Whether two strings are equal when ASCII letters are compared without
/// regard to case (`str::eq_ignore_ascii_case`).
pub open spec fn eq_ignore_ascii_case(a: Seq<char>, b: Seq<char>) -> bool {
    a.len() == b.len() && forall|i: int| 0 <= i < a.len() ==> ascii_lower(#[trigger] a[i]) == ascii_lower(b[i])
}

fn char_ascii_lower(c: char) -> (r: u32)
    ensures
        r == ascii_lower(c),
{
    let x = c as u32;
    if 65 <= x && x <= 90 {
        x + 32
    } else {
        x
    }
}

/// Whether two strings are equal ignoring the case of ASCII letters.
pub fn str_eq_ignore_ascii_case(a: &str, b: &str) -> (r: bool)
    ensures
        r == eq_ignore_ascii_case(a@, b@),
{
    let n = a.unicode_len();
    if n != b.unicode_len() {
        return false;
    }
    let mut i: usize = 0;
    while i < n
        invariant
            n == a@.len(),
            n == b@.len(),
            i <= n,
            forall|j: int| 0 <= j < i ==> ascii_lower(#[trigger] a@[j]) == ascii_lower(b@[j]),
        decreases n - i,
    {
        if char_ascii_lower(a.get_char(i)) != char_ascii_lower(b.get_char(i)) {
            return false;
        }
        i = i + 1;
    }
    true
}

} // verus!
