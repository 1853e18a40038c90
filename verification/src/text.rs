//! Character-level helpers shared by the codec and the address parser:
//! whitespace runs, tokens, trimming and decimal numbers.

use vstd::prelude::*;

verus! {

/// The characters that carry the Unicode `White_Space` property.
pub open spec fn is_space(c: char) -> bool {
    let u = c as u32;
    ||| 0x09 <= u <= 0x0D
    ||| u == 0x20
    ||| u == 0x85
    ||| u == 0xA0
    ||| u == 0x1680
    ||| 0x2000 <= u <= 0x200A
    ||| u == 0x2028
    ||| u == 0x2029
    ||| u == 0x202F
    ||| u == 0x205F
    ||| u == 0x3000
}

/// Tells whether `c` is a whitespace character.
pub fn is_whitespace(c: char) -> (b: bool)
    ensures
        b == is_space(c),
{
    let u: u32 = c as u32;
    (0x09 <= u && u <= 0x0D) || u == 0x20 || u == 0x85 || u == 0xA0 || u == 0x1680 || (0x2000 <= u
        && u <= 0x200A) || u == 0x2028 || u == 0x2029 || u == 0x202F || u == 0x205F || u == 0x3000
}

/// The characters of `s`, in order.
pub fn chars_of(s: &str) -> (v: Vec<char>)
    ensures
        v@ == s@,
{
    let mut v: Vec<char> = Vec::new();
    for c in it: s.chars()
        invariant
            v@ == it.seq().take(it.index()),
    {
        v.push(c);
    }
    v
}

/// Length of the longest prefix of `s` in which every character `c` has
/// `is_space(c) == space`.
pub open spec fn run_len(s: Seq<char>, space: bool) -> nat
    decreases s.len(),
{
    if s.len() > 0 && is_space(s[0]) == space {
        1 + run_len(s.drop_first(), space)
    } else {
        0
    }
}

/// A run is a prefix, its characters are all of the asked kind, and the
/// character after it, if there is one, is of the other kind.
pub proof fn lemma_run_len_props(s: Seq<char>, space: bool)
    ensures
        run_len(s, space) <= s.len(),
        forall|k: int| 0 <= k < run_len(s, space) ==> is_space(#[trigger] s[k]) == space,
        run_len(s, space) < s.len() ==> is_space(s[run_len(s, space) as int]) != space,
    decreases s.len(),
{
    if s.len() > 0 && is_space(s[0]) == space {
        let t = s.drop_first();
        lemma_run_len_props(t, space);
        assert forall|k: int| 0 <= k < run_len(s, space) implies is_space(#[trigger] s[k])
            == space by {
            if k > 0 {
                assert(s[k] == t[k - 1]);
            }
        }
        if run_len(s, space) < s.len() {
            assert(s[run_len(s, space) as int] == t[run_len(t, space) as int]);
        }
    }
}

/// The three facts of `lemma_run_len_props` determine the run's length.
pub proof fn lemma_run_len_is(s: Seq<char>, space: bool, n: int)
    requires
        0 <= n <= s.len(),
        forall|k: int| 0 <= k < n ==> is_space(#[trigger] s[k]) == space,
        n < s.len() ==> is_space(s[n]) != space,
    ensures
        run_len(s, space) == n,
    decreases n,
{
    if n > 0 {
        let t = s.drop_first();
        assert forall|k: int| 0 <= k < n - 1 implies is_space(#[trigger] t[k]) == space by {
            assert(t[k] == s[k + 1]);
        }
        lemma_run_len_is(t, space, n - 1);
    }
}

/// Scans `v[from..to]` from the left and returns where its first run of the
/// asked kind ends.
pub fn scan_run(v: &[char], from: usize, to: usize, space: bool) -> (end: usize)
    requires
        from <= to <= v.len(),
    ensures
        from <= end <= to,
        end == from + run_len(v@.subrange(from as int, to as int), space),
{
    let mut j: usize = from;
    while j < to && is_whitespace(v[j]) == space
        invariant
            from <= j <= to <= v.len(),
            forall|k: int| from <= k < j ==> is_space(#[trigger] v@[k]) == space,
        decreases to - j,
    {
        j += 1;
    }
    proof {
        let s = v@.subrange(from as int, to as int);
        assert forall|k: int| 0 <= k < j - from implies is_space(#[trigger] s[k]) == space by {
            assert(s[k] == v@[from + k]);
        }
        lemma_run_len_is(s, space, j - from);
    }
    j
}

/// Number of whitespace characters at the end of `s`.
pub open spec fn trailing_len(s: Seq<char>) -> nat
    decreases s.len(),
{
    if s.len() > 0 && is_space(s.last()) {
        1 + trailing_len(s.drop_last())
    } else {
        0
    }
}

/// The whitespace at the end of `s` is a suffix of whitespace characters, and
/// the character before it, if there is one, is none.
pub proof fn lemma_trailing_len_is(s: Seq<char>, n: int)
    requires
        0 <= n <= s.len(),
        forall|k: int| s.len() - n <= k < s.len() ==> is_space(#[trigger] s[k]),
        n < s.len() ==> !is_space(s[s.len() - n - 1]),
    ensures
        trailing_len(s) == n,
    decreases n,
{
    if n > 0 {
        let t = s.drop_last();
        assert forall|k: int| t.len() - (n - 1) <= k < t.len() implies is_space(
            #[trigger] t[k],
        ) by {
            assert(t[k] == s[k]);
        }
        lemma_trailing_len_is(t, n - 1);
    }
}

/// `s` without the whitespace at its start.
pub open spec fn trim_start(s: Seq<char>) -> Seq<char> {
    s.skip(run_len(s, true) as int)
}

/// `s` without the whitespace at its end.
pub open spec fn trim_end(s: Seq<char>) -> Seq<char> {
    s.take(s.len() - trailing_len(s))
}

/// `s` without the whitespace at its start and at its end.
pub open spec fn trim(s: Seq<char>) -> Seq<char> {
    trim_end(trim_start(s))
}

/// Finds the part of `v[from..to]` that is left when the whitespace at both
/// ends is taken away.
pub fn trim_range(v: &[char], from: usize, to: usize) -> (r: (usize, usize))
    requires
        from <= to <= v.len(),
    ensures
        from <= r.0 <= r.1 <= to,
        v@.subrange(r.0 as int, r.1 as int) == trim(v@.subrange(from as int, to as int)),
{
    let a = scan_run(v, from, to, true);
    let mut b: usize = to;
    while b > a && is_whitespace(v[b - 1])
        invariant
            a <= b <= to <= v.len(),
            forall|k: int| b <= k < to ==> is_space(#[trigger] v@[k]),
        decreases b,
    {
        b -= 1;
    }
    proof {
        let s = v@.subrange(from as int, to as int);
        let t = trim_start(s);
        assert(t =~= v@.subrange(a as int, to as int));
        if b == a && a < to {
            lemma_run_len_props(s, true);
            assert(false) by {
                if a > from {
                    assert(s[a - from - 1] == v@[a - 1]);
                }
                assert(s[a - from] == v@[a as int]);
            }
        }
        assert forall|k: int| t.len() - (to - b) <= k < t.len() implies is_space(
            #[trigger] t[k],
        ) by {
            assert(t[k] == v@[a + k]);
        }
        lemma_trailing_len_is(t, to - b);
        assert(trim_end(t) =~= v@.subrange(a as int, b as int));
    }
    (a, b)
}

/// The maximal runs of non-whitespace characters of `s`, in order.
pub open spec fn tokens(s: Seq<char>) -> Seq<Seq<char>>
    decreases s.len(),
{
    if s.len() == 0 {
        Seq::empty()
    } else if is_space(s[0]) {
        tokens(s.drop_first())
    } else {
        let n = run_len(s, false) as int;
        proof {
            lemma_run_len_props(s, false);
        }
        seq![s.take(n)] + tokens(s.skip(n))
    }
}

/// Whitespace in front of `s` adds no token.
pub proof fn lemma_tokens_trim_start(s: Seq<char>)
    ensures
        tokens(s) == tokens(trim_start(s)),
    decreases s.len(),
{
    if s.len() > 0 && is_space(s[0]) {
        let t = s.drop_first();
        lemma_tokens_trim_start(t);
        lemma_run_len_props(t, true);
        assert(trim_start(s) =~= trim_start(t));
    } else {
        assert(trim_start(s) =~= s);
    }
}

/// The parts of `v` that the index pairs in `spans` cut out.
pub open spec fn cut(v: Seq<char>, spans: Seq<(usize, usize)>) -> Seq<Seq<char>> {
    Seq::new(spans.len(), |k: int| v.subrange(spans[k].0 as int, spans[k].1 as int))
}

/// Every pair of `spans` is a range of `v[from..to]`.
pub open spec fn spans_within(spans: Seq<(usize, usize)>, from: int, to: int) -> bool {
    forall|k: int| 0 <= k < spans.len() ==> from <= (#[trigger] spans[k]).0 <= spans[k].1 <= to
}

/// Splits `v[from..to]` at whitespace and returns where each token lies.
pub fn split_tokens(v: &[char], from: usize, to: usize) -> (spans: Vec<(usize, usize)>)
    requires
        from <= to <= v.len(),
    ensures
        spans_within(spans@, from as int, to as int),
        cut(v@, spans@) == tokens(v@.subrange(from as int, to as int)),
{
    let mut spans: Vec<(usize, usize)> = Vec::new();
    let mut i: usize = from;
    let ghost whole = v@.subrange(from as int, to as int);
    loop
        invariant
            from <= i <= to <= v.len(),
            whole == v@.subrange(from as int, to as int),
            spans_within(spans@, from as int, to as int),
            tokens(whole) == cut(v@, spans@) + tokens(v@.subrange(i as int, to as int)),
        ensures
            spans_within(spans@, from as int, to as int),
            cut(v@, spans@) == tokens(whole),
        decreases to - i,
    {
        let ghost rest = v@.subrange(i as int, to as int);
        let a = scan_run(v, i, to, true);
        proof {
            lemma_tokens_trim_start(rest);
            assert(trim_start(rest) =~= v@.subrange(a as int, to as int));
        }
        if a == to {
            assert(tokens(v@.subrange(a as int, to as int)) =~= Seq::empty());
            assert(cut(v@, spans@) + Seq::<Seq<char>>::empty() =~= cut(v@, spans@));
            break ;
        }
        let b = scan_run(v, a, to, false);
        proof {
            let t = v@.subrange(a as int, to as int);
            lemma_run_len_props(rest, true);
            assert(rest[a - i] == v@[a as int]);
            assert(t[0] == v@[a as int]);
            assert(!is_space(t[0]));
            assert(b > a);
            assert(t.take(b - a) =~= v@.subrange(a as int, b as int));
            assert(t.skip(b - a) =~= v@.subrange(b as int, to as int));
            assert(cut(v@, spans@.push((a, b))) =~= cut(v@, spans@) + seq![
                v@.subrange(a as int, b as int),
            ]);
        }
        spans.push((a, b));
        i = b;
    }
    spans
}

/// The code of `c` with the ASCII letters `a` to `z` mapped to `A` to `Z`.
pub open spec fn ascii_upper(c: char) -> u32 {
    let u = c as u32;
    if 0x61 <= u <= 0x7A {
        (u - 0x20) as u32
    } else {
        u
    }
}

/// `a` and `b` are the same text when ASCII letters are compared without
/// regard to case.
pub open spec fn same_ignoring_case(a: Seq<char>, b: Seq<char>) -> bool {
    &&& a.len() == b.len()
    &&& forall|k: int| 0 <= k < a.len() ==> ascii_upper(#[trigger] a[k]) == ascii_upper(b[k])
}

fn upper_code(c: char) -> (u: u32)
    ensures
        u == ascii_upper(c),
{
    let u: u32 = c as u32;
    if 0x61 <= u && u <= 0x7A {
        u - 0x20
    } else {
        u
    }
}

/// Compares `v[from..to]` with `word`, ASCII letters without regard to case.
pub fn matches_ignoring_case(v: &[char], from: usize, to: usize, word: &str) -> (b: bool)
    requires
        from <= to <= v.len(),
    ensures
        b == same_ignoring_case(v@.subrange(from as int, to as int), word@),
{
    let w = chars_of(word);
    if w.len() != to - from {
        return false;
    }
    let ghost s = v@.subrange(from as int, to as int);
    let mut k: usize = 0;
    while k < w.len()
        invariant
            from <= to <= v.len(),
            w.len() == to - from,
            k <= w.len(),
            w@ == word@,
            s == v@.subrange(from as int, to as int),
            forall|j: int| 0 <= j < k ==> ascii_upper(#[trigger] s[j]) == ascii_upper(w@[j]),
        decreases w.len() - k,
    {
        if upper_code(v[from + k]) != upper_code(w[k]) {
            assert(s[k as int] == v@[from + k]);
            return false;
        }
        assert(s[k as int] == v@[from + k]);
        k += 1;
    }
    true
}

/// Number of characters of `s` that stand before the first `stop`, or the
/// length of `s` where it holds none.
pub open spec fn until(s: Seq<char>, stop: char) -> nat
    decreases s.len(),
{
    if s.len() > 0 && s[0] != stop {
        1 + until(s.drop_first(), stop)
    } else {
        0
    }
}

/// `until` is the one position that no `stop` precedes and that holds a
/// `stop` or ends the text.
pub proof fn lemma_until_is(s: Seq<char>, stop: char, n: int)
    requires
        0 <= n <= s.len(),
        forall|k: int| 0 <= k < n ==> #[trigger] s[k] != stop,
        n < s.len() ==> s[n] == stop,
    ensures
        until(s, stop) == n,
    decreases n,
{
    if n > 0 {
        let t = s.drop_first();
        assert forall|k: int| 0 <= k < n - 1 implies #[trigger] t[k] != stop by {
            assert(t[k] == s[k + 1]);
        }
        lemma_until_is(t, stop, n - 1);
    }
}

/// Finds the first `stop` in `v[from..to]`, or `to` where there is none.
pub fn find_char(v: &[char], from: usize, to: usize, stop: char) -> (at: usize)
    requires
        from <= to <= v.len(),
    ensures
        from <= at <= to,
        at == from + until(v@.subrange(from as int, to as int), stop),
        forall|k: int| from <= k < at ==> v@[k] != stop,
        at < to ==> v@[at as int] == stop,
{
    let mut j: usize = from;
    while j < to && v[j] != stop
        invariant
            from <= j <= to <= v.len(),
            forall|k: int| from <= k < j ==> v@[k] != stop,
        decreases to - j,
    {
        j += 1;
    }
    proof {
        let s = v@.subrange(from as int, to as int);
        assert forall|k: int| 0 <= k < j - from implies #[trigger] s[k] != stop by {
            assert(s[k] == v@[from + k]);
        }
        lemma_until_is(s, stop, j - from);
    }
    j
}

/// No character of `s` is a line feed.
pub open spec fn one_line(s: Seq<char>) -> bool {
    forall|k: int| 0 <= k < s.len() ==> #[trigger] s[k] != '\n'
}

/// The text that an optional string holds.
pub open spec fn text_of(s: Option<String>) -> Option<Seq<char>> {
    match s {
        Some(t) => Some(t@),
        None => None,
    }
}

/// The texts that the strings of `v` hold, in order.
pub open spec fn texts(v: Seq<String>) -> Seq<Seq<char>> {
    Seq::new(v.len(), |k: int| v[k]@)
}

} // verus!
