//! Text helpers over `String`/`&str` with specifications on `Seq<char>`.

use vstd::prelude::*;

verus! {

/// The view of an optional string.
pub open spec fn opt_view(o: Option<String>) -> Option<Seq<char>> {
    match o {
        Some(s) => Some(s@),
        None => None,
    }
}

/// The first present value of a sequence of options.
pub open spec fn first_present(s: Seq<Option<Seq<char>>>) -> Option<Seq<char>>
    decreases s.len(),
{
    if s.len() == 0 {
        None
    } else if s[0] is Some {
        s[0]
    } else {
        first_present(s.drop_first())
    }
}

pub proof fn lemma_first_present(s: Seq<Option<Seq<char>>>, i: int)
    requires
        0 <= i <= s.len(),
        forall|j: int| 0 <= j < i ==> s[j] is None,
    ensures
        i < s.len() && s[i] is Some ==> first_present(s) == s[i],
        i == s.len() ==> first_present(s) is None,
    decreases i,
{
    if i > 0 {
        let t = s.drop_first();
        assert forall|j: int| 0 <= j < i - 1 implies t[j] is None by {
            assert(t[j] == s[j + 1]);
        }
        lemma_first_present(t, i - 1);
        if i < s.len() {
            assert(t[i - 1] == s[i]);
        }
    }
}

/// What `str::to_lowercase` returns for a string (Unicode lowercase mapping).
pub uninterp spec fn lowercase(s: Seq<char>) -> Seq<char>;

/// Calls `str::to_lowercase`. Claims only that the result is the named
/// function `lowercase` of the argument's characters: the mapping is fixed
/// by the Unicode tables and depends on nothing else.
#[verifier::external_body]
pub(crate) fn to_lowercase(s: &str) -> (r: String)
    ensures
        r@ == lowercase(s@),
{
    s.to_lowercase()
}

/// `s` without the leading run of `c`.
pub open spec fn trim_start(s: Seq<char>, c: char) -> Seq<char>
    decreases s.len(),
{
    if s.len() > 0 && s[0] == c {
        trim_start(s.drop_first(), c)
    } else {
        s
    }
}

/// The number of leading occurrences of `c` in `s`.
pub open spec fn leading_count(s: Seq<char>, c: char) -> nat
    decreases s.len(),
{
    if s.len() > 0 && s[0] == c {
        1 + leading_count(s.drop_first(), c)
    } else {
        0
    }
}

pub proof fn lemma_trim_start(s: Seq<char>, c: char, n: int)
    requires
        0 <= n <= s.len(),
        forall|j: int| 0 <= j < n ==> s[j] == c,
        n == s.len() || s[n] != c,
    ensures
        trim_start(s, c) == s.subrange(n, s.len() as int),
    decreases n,
{
    if n == 0 {
        assert(s.subrange(0, s.len() as int) =~= s);
    } else {
        let t = s.drop_first();
        assert forall|j: int| 0 <= j < n - 1 implies t[j] == c by {
            assert(t[j] == s[j + 1]);
        }
        if n - 1 < t.len() {
            assert(t[n - 1] == s[n]);
        }
        lemma_trim_start(t, c, n - 1);
        assert(t.subrange(n - 1, t.len() as int) =~= s.subrange(n, s.len() as int));
    }
}

/// `s` with every leading `c` removed (as `str::trim_start_matches(c)`).
pub fn trim_start_char(s: &str, c: char) -> (r: &str)
    ensures
        r@ == trim_start(s@, c),
{
    let len = s.unicode_len();
    let mut n: usize = 0;
    while n < len && s.get_char(n) == c
        invariant
            n <= len,
            len == s@.len(),
            forall|j: int| 0 <= j < n ==> s@[j] == c,
        decreases len - n,
    {
        n = n + 1;
    }
    proof {
        lemma_trim_start(s@, c, n as int);
    }
    s.substring_char(n, len)
}

/// The characters of `s`.
pub fn chars_of(s: &str) -> (r: Vec<char>)
    ensures
        r@ == s@,
{
    let mut v: Vec<char> = Vec::new();
    for c in it: s.chars()
        invariant
            v@ == it.seq().take(it.index() as int),
    {
        v.push(c);
    }
    assert(v@ =~= s@);
    v
}

/// The string made of `cs[from..to]`.
pub fn string_of(cs: &Vec<char>, from: usize, to: usize) -> (r: String)
    requires
        from <= to <= cs@.len(),
    ensures
        r@ == cs@.subrange(from as int, to as int),
{
    let mut s = String::new();
    let mut i = from;
    while i < to
        invariant
            from <= i <= to,
            to <= cs@.len(),
            s@ == cs@.subrange(from as int, i as int),
        decreases to - i,
    {
        push_char(&mut s, cs[i]);
        assert(s@ =~= cs@.subrange(from as int, i + 1));
        i = i + 1;
    }
    s
}

/// Appends the characters of `s` to `v`.
pub fn extend_chars(v: &mut Vec<char>, s: &str)
    ensures
        final(v)@ == old(v)@ + s@,
{
    let mut cs = chars_of(s);
    v.append(&mut cs);
}

/// The pieces of `s` between occurrences of `c` (as `str::split(c)`): one
/// more piece than there are occurrences.
pub open spec fn split_pieces(s: Seq<char>, c: char) -> Seq<Seq<char>>
    decreases s.len(),
{
    if s.len() == 0 {
        seq![Seq::empty()]
    } else {
        let p = split_pieces(s.drop_last(), c);
        if s.last() == c {
            p.push(Seq::empty())
        } else {
            p.update(p.len() - 1, p.last().push(s.last()))
        }
    }
}

pub proof fn lemma_split_pieces_nonempty(s: Seq<char>, c: char)
    ensures
        split_pieces(s, c).len() >= 1,
    decreases s.len(),
{
    if s.len() > 0 {
        lemma_split_pieces_nonempty(s.drop_last(), c);
    }
}

/// `s` without one trailing `'\r'`.
pub open spec fn strip_cr(s: Seq<char>) -> Seq<char> {
    if s.len() > 0 && s.last() == '\r' {
        s.drop_last()
    } else {
        s
    }
}

/// The lines of `s` (as `str::lines`): split at `'\n'`, a `'\r'` before a
/// `'\n'` dropped, and no empty last line after a final `'\n'`.
pub open spec fn lines_of(s: Seq<char>) -> Seq<Seq<char>> {
    let p = split_pieces(s, '\n');
    let k = p.len() - 1;
    let terminated = p.take(k).map_values(|l: Seq<char>| strip_cr(l));
    if p[k].len() == 0 {
        terminated
    } else {
        terminated.push(p[k])
    }
}

/// `s` without leading and trailing `c`.
pub open spec fn trim_both(s: Seq<char>, c: char) -> Seq<char> {
    trim_end(trim_start(s, c), c)
}

/// `s` without the trailing run of `c`.
pub open spec fn trim_end(s: Seq<char>, c: char) -> Seq<char>
    decreases s.len(),
{
    if s.len() > 0 && s.last() == c {
        trim_end(s.drop_last(), c)
    } else {
        s
    }
}

pub proof fn lemma_trim_end(s: Seq<char>, c: char, n: int)
    requires
        0 <= n <= s.len(),
        forall|j: int| n <= j < s.len() ==> s[j] == c,
        n == 0 || s[n - 1] != c,
    ensures
        trim_end(s, c) == s.subrange(0, n),
    decreases s.len() - n,
{
    if n == s.len() {
        assert(s.subrange(0, n) =~= s);
    } else {
        let t = s.drop_last();
        assert forall|j: int| n <= j < t.len() implies t[j] == c by {
            assert(t[j] == s[j]);
        }
        lemma_trim_end(t, c, n);
        assert(t.subrange(0, n) =~= s.subrange(0, n));
    }
}

/// `cs` without leading and trailing `c`.
pub fn trim_chars(cs: &Vec<char>, c: char) -> (r: Vec<char>)
    ensures
        r@ == trim_both(cs@, c),
{
    let len = cs.len();
    let mut a: usize = 0;
    while a < len && cs[a] == c
        invariant
            a <= len,
            len == cs@.len(),
            forall|j: int| 0 <= j < a ==> cs@[j] == c,
        decreases len - a,
    {
        a = a + 1;
    }
    proof {
        lemma_trim_start(cs@, c, a as int);
    }
    let ghost t = cs@.subrange(a as int, len as int);
    let mut b: usize = len;
    while b > a && cs[b - 1] == c
        invariant
            a <= b <= len,
            len == cs@.len(),
            forall|j: int| b <= j < len ==> cs@[j] == c,
        decreases b,
    {
        b = b - 1;
    }
    proof {
        assert forall|j: int| (b - a) <= j < t.len() implies t[j] == c by {
            assert(t[j] == cs@[j + a]);
        }
        if b > a {
            assert(t[b - a - 1] == cs@[b - 1]);
        }
        lemma_trim_end(t, c, (b - a) as int);
        assert(t.subrange(0, (b - a) as int) =~= cs@.subrange(a as int, b as int));
    }
    let mut out: Vec<char> = Vec::new();
    let mut i = a;
    while i < b
        invariant
            a <= i <= b,
            b <= len,
            len == cs@.len(),
            out@ == cs@.subrange(a as int, i as int),
        decreases b - i,
    {
        out.push(cs[i]);
        assert(out@ =~= cs@.subrange(a as int, i + 1));
        i = i + 1;
    }
    out
}

/// The pieces of `cs` between occurrences of `c`.
pub fn split_chars(cs: &Vec<char>, c: char) -> (r: Vec<Vec<char>>)
    ensures
        r@.map_values(|v: Vec<char>| v@) == split_pieces(cs@, c),
{
    let mut pieces: Vec<Vec<char>> = Vec::new();
    let mut cur: Vec<char> = Vec::new();
    let mut i: usize = 0;
    while i < cs.len()
        invariant
            i <= cs@.len(),
            pieces@.map_values(|v: Vec<char>| v@).push(cur@) == split_pieces(cs@.take(i as int), c),
        decreases cs@.len() - i,
    {
        let ghost before = pieces@.map_values(|v: Vec<char>| v@).push(cur@);
        proof {
            assert(cs@.take(i + 1).drop_last() =~= cs@.take(i as int));
        }
        if cs[i] == c {
            let mut done: Vec<char> = Vec::new();
            std::mem::swap(&mut done, &mut cur);
            pieces.push(done);
            assert(pieces@.map_values(|v: Vec<char>| v@).push(cur@) =~= before.push(Seq::empty()));
        } else {
            cur.push(cs[i]);
            assert(pieces@.map_values(|v: Vec<char>| v@).push(cur@) =~= before.update(
                before.len() - 1,
                before.last().push(cs@[i as int]),
            ));
        }
        i = i + 1;
    }
    pieces.push(cur);
    proof {
        assert(cs@.take(i as int) =~= cs@);
    }
    pieces
}

/// The lines of `cs` (as `str::lines`).
pub fn lines_chars(cs: &Vec<char>) -> (r: Vec<Vec<char>>)
    ensures
        r@.map_values(|v: Vec<char>| v@) == lines_of(cs@),
{
    let pieces = split_chars(cs, '\n');
    let ghost p = split_pieces(cs@, '\n');
    proof {
        lemma_split_pieces_nonempty(cs@, '\n');
    }
    let k = pieces.len() - 1;
    let mut out: Vec<Vec<char>> = Vec::new();
    let mut i: usize = 0;
    while i < k
        invariant
            k == pieces@.len() - 1,
            p == pieces@.map_values(|v: Vec<char>| v@),
            i <= k,
            out@.map_values(|v: Vec<char>| v@) == p.take(i as int).map_values(|l: Seq<char>| strip_cr(l)),
        decreases k - i,
    {
        let mut line = pieces[i].clone();
        let n = line.len();
        if n > 0 && line[n - 1] == '\r' {
            line.pop();
        }
        assert(line@ == strip_cr(p[i as int]));
        let ghost before = out@.map_values(|v: Vec<char>| v@);
        out.push(line);
        assert(p.take(i + 1).map_values(|l: Seq<char>| strip_cr(l)) =~= p.take(i as int).map_values(
            |l: Seq<char>| strip_cr(l),
        ).push(strip_cr(p[i as int])));
        assert(out@.map_values(|v: Vec<char>| v@) =~= before.push(line@));
        i = i + 1;
    }
    if pieces[k].len() > 0 {
        let last = pieces[k].clone();
        out.push(last);
        assert(out@.map_values(|v: Vec<char>| v@) =~= lines_of(cs@));
    } else {
        assert(out@.map_values(|v: Vec<char>| v@) =~= lines_of(cs@));
    }
    out
}

/// Unicode White_Space (as `char::is_whitespace`).
pub open spec fn is_unicode_ws(c: char) -> bool {
    let n = c as u32;
    (0x9 <= n <= 0xD) || n == 0x20 || n == 0x85 || n == 0xA0 || n == 0x1680 || (0x2000 <= n <= 0x200A)
        || n == 0x2028 || n == 0x2029 || n == 0x202F || n == 0x205F || n == 0x3000
}

/// Whether `c` is Unicode whitespace.
pub fn is_whitespace(c: char) -> (r: bool)
    ensures
        r == is_unicode_ws(c),
{
    let n = c as u32;
    (0x9 <= n && n <= 0xD) || n == 0x20 || n == 0x85 || n == 0xA0 || n == 0x1680 || (0x2000 <= n && n
        <= 0x200A) || n == 0x2028 || n == 0x2029 || n == 0x202F || n == 0x205F || n == 0x3000
}

/// Scanning the first `k` characters for words: the words finished so far and
/// the word in progress.
pub open spec fn words_scan(s: Seq<char>, k: int) -> (Seq<Seq<char>>, Seq<char>)
    decreases k,
{
    if k <= 0 {
        (Seq::empty(), Seq::empty())
    } else {
        let (done, cur) = words_scan(s, k - 1);
        if is_unicode_ws(s[k - 1]) {
            if cur.len() > 0 {
                (done.push(cur), Seq::empty())
            } else {
                (done, cur)
            }
        } else {
            (done, cur.push(s[k - 1]))
        }
    }
}

/// The non-empty runs of non-whitespace (as `str::split_whitespace`).
pub open spec fn words(s: Seq<char>) -> Seq<Seq<char>> {
    let (done, cur) = words_scan(s, s.len() as int);
    if cur.len() > 0 {
        done.push(cur)
    } else {
        done
    }
}

/// The words of `s`.
pub fn split_whitespace(s: &str) -> (r: Vec<String>)
    ensures
        r@.map_values(|w: String| w@) == words(s@),
{
    let cs = chars_of(s);
    let mut done: Vec<String> = Vec::new();
    let mut start: usize = 0;
    let mut k: usize = 0;
    while k < cs.len()
        invariant
            k <= cs@.len(),
            start <= k,
            words_scan(cs@, k as int) == (done@.map_values(|w: String| w@), cs@.subrange(start as int, k as int)),
        decreases cs@.len() - k,
    {
        let ghost before = done@.map_values(|w: String| w@);
        if is_whitespace(cs[k]) {
            if start < k {
                let w = string_of(&cs, start, k);
                done.push(w);
                assert(done@.map_values(|w: String| w@) =~= before.push(cs@.subrange(start as int, k as int)));
            }
            start = k + 1;
            assert(cs@.subrange(start as int, k + 1) =~= Seq::<char>::empty());
        } else {
            assert(cs@.subrange(start as int, k + 1) =~= cs@.subrange(start as int, k as int).push(cs@[k as int]));
        }
        k = k + 1;
    }
    if start < k {
        let w = string_of(&cs, start, k);
        let ghost before = done@.map_values(|w: String| w@);
        done.push(w);
        assert(done@.map_values(|w: String| w@) =~= before.push(cs@.subrange(start as int, k as int)));
    }
    proof {
        assert(cs@.len() == s@.len());
    }
    done
}

/// `s` without its leading run of characters from `set`.
pub open spec fn trim_start_any(s: Seq<char>, set: Seq<char>) -> Seq<char>
    decreases s.len(),
{
    if s.len() > 0 && set.contains(s[0]) {
        trim_start_any(s.drop_first(), set)
    } else {
        s
    }
}

pub proof fn lemma_trim_start_any(s: Seq<char>, set: Seq<char>, n: int)
    requires
        0 <= n <= s.len(),
        forall|j: int| 0 <= j < n ==> set.contains(s[j]),
        n == s.len() || !set.contains(s[n]),
    ensures
        trim_start_any(s, set) == s.subrange(n, s.len() as int),
    decreases n,
{
    if n == 0 {
        assert(s.subrange(0, s.len() as int) =~= s);
    } else {
        let t = s.drop_first();
        assert forall|j: int| 0 <= j < n - 1 implies set.contains(t[j]) by {
            assert(t[j] == s[j + 1]);
        }
        if n - 1 < t.len() {
            assert(t[n - 1] == s[n]);
        }
        lemma_trim_start_any(t, set, n - 1);
        assert(t.subrange(n - 1, t.len() as int) =~= s.subrange(n, s.len() as int));
    }
}

/// `s` without its leading run of characters from `set` (as
/// `str::trim_start_matches` with a character set).
pub fn trim_start_matches_any(s: &str, set: &Vec<char>) -> (r: String)
    ensures
        r@ == trim_start_any(s@, set@),
{
    let cs = chars_of(s);
    let mut n: usize = 0;
    while n < cs.len() && contains_char(set, cs[n])
        invariant
            n <= cs@.len(),
            cs@ == s@,
            forall|j: int| 0 <= j < n ==> set@.contains(cs@[j]),
        decreases cs@.len() - n,
    {
        n = n + 1;
    }
    proof {
        lemma_trim_start_any(s@, set@, n as int);
    }
    string_of(&cs, n, cs.len())
}

/// Whether `c` occurs in `set`.
pub fn contains_char(set: &Vec<char>, c: char) -> (r: bool)
    ensures
        r == set@.contains(c),
{
    let mut i: usize = 0;
    while i < set.len()
        invariant
            i <= set@.len(),
            forall|j: int| 0 <= j < i ==> set@[j] != c,
        decreases set@.len() - i,
    {
        if set[i] == c {
            return true;
        }
        i = i + 1;
    }
    false
}

/// The code of the ASCII lowercase of a character (other characters
/// unchanged).
pub open spec fn ascii_lower(c: char) -> u32 {
    if 'A' <= c <= 'Z' {
        ((c as u32) + 32) as u32
    } else {
        c as u32
    }
}

/// Equality up to ASCII case (as `str::eq_ignore_ascii_case`).
pub open spec fn eq_ignore_ascii_case(a: Seq<char>, b: Seq<char>) -> bool {
    a.len() == b.len() && forall|i: int| 0 <= i < a.len() ==> ascii_lower(a[i]) == ascii_lower(b[i])
}

fn to_ascii_lower(c: char) -> (r: u32)
    ensures
        r == ascii_lower(c),
{
    if 'A' <= c && c <= 'Z' {
        (c as u32) + 32
    } else {
        c as u32
    }
}

/// Whether `a` and `b` are equal up to ASCII case.
pub fn eq_ignore_case(a: &str, b: &str) -> (r: bool)
    ensures
        r == eq_ignore_ascii_case(a@, b@),
{
    let ca = chars_of(a);
    let cb = chars_of(b);
    if ca.len() != cb.len() {
        return false;
    }
    let mut i: usize = 0;
    while i < ca.len()
        invariant
            i <= ca@.len(),
            ca@.len() == cb@.len(),
            ca@ == a@,
            cb@ == b@,
            forall|j: int| 0 <= j < i ==> ascii_lower(ca@[j]) == ascii_lower(cb@[j]),
        decreases ca@.len() - i,
    {
        if to_ascii_lower(ca[i]) != to_ascii_lower(cb[i]) {
            return false;
        }
        i = i + 1;
    }
    true
}

/// Lexicographic order on character sequences by code point (the order of
/// `str`'s `Ord`).
pub open spec fn seq_lt(a: Seq<char>, b: Seq<char>) -> bool
    decreases a.len(),
{
    if a.len() == 0 {
        b.len() > 0
    } else if b.len() == 0 {
        false
    } else if a[0] != b[0] {
        a[0] < b[0]
    } else {
        seq_lt(a.drop_first(), b.drop_first())
    }
}

pub proof fn lemma_seq_lt_trichotomy(a: Seq<char>, b: Seq<char>)
    ensures
        seq_lt(a, b) || a == b || seq_lt(b, a),
        !(seq_lt(a, b) && seq_lt(b, a)),
        !(seq_lt(a, b) && a == b),
    decreases a.len(),
{
    if a.len() > 0 && b.len() > 0 && a[0] == b[0] {
        lemma_seq_lt_trichotomy(a.drop_first(), b.drop_first());
        if a.drop_first() == b.drop_first() {
            assert(a =~= seq![a[0]] + a.drop_first());
            assert(b =~= seq![b[0]] + b.drop_first());
        }
    } else if a.len() == 0 && b.len() == 0 {
        assert(a =~= b);
    } else if a.len() > 0 && b.len() > 0 {
    }
}

pub proof fn lemma_seq_lt_transitive(a: Seq<char>, b: Seq<char>, c: Seq<char>)
    requires
        seq_lt(a, b),
        seq_lt(b, c),
    ensures
        seq_lt(a, c),
    decreases a.len(),
{
    if a.len() > 0 && b.len() > 0 && c.len() > 0 && a[0] == b[0] && b[0] == c[0] {
        lemma_seq_lt_transitive(a.drop_first(), b.drop_first(), c.drop_first());
    }
}

/// Whether `a` sorts before `b`.
pub fn str_lt(a: &str, b: &str) -> (r: bool)
    ensures
        r == seq_lt(a@, b@),
{
    let ca = chars_of(a);
    let cb = chars_of(b);
    let mut i: usize = 0;
    assert(a@.skip(0) =~= a@);
    assert(b@.skip(0) =~= b@);
    while i < ca.len() && i < cb.len() && ca[i] == cb[i]
        invariant
            i <= ca@.len(),
            i <= cb@.len(),
            ca@ == a@,
            cb@ == b@,
            seq_lt(a@, b@) == seq_lt(a@.skip(i as int), b@.skip(i as int)),
        decreases ca@.len() - i,
    {
        proof {
            let sa = a@.skip(i as int);
            let sb = b@.skip(i as int);
            assert(sa.drop_first() =~= a@.skip(i + 1));
            assert(sb.drop_first() =~= b@.skip(i + 1));
        }
        i = i + 1;
    }
    let ghost sa = a@.skip(i as int);
    let ghost sb = b@.skip(i as int);
    assert(sa.len() == ca@.len() - i);
    assert(sb.len() == cb@.len() - i);
    if i == ca.len() {
        i < cb.len()
    } else if i == cb.len() {
        false
    } else {
        assert(sa[0] == a@[i as int]);
        assert(sb[0] == b@[i as int]);
        ca[i] < cb[i]
    }
}

/// Whether `s` is strictly increasing.
pub open spec fn strictly_sorted(s: Seq<Seq<char>>) -> bool {
    forall|i: int, j: int| 0 <= i < j < s.len() ==> seq_lt(#[trigger] s[i], #[trigger] s[j])
}

/// Adds `x` to the strictly sorted `v`, unless present.
pub fn insert_sorted(v: &mut Vec<String>, x: String)
    requires
        strictly_sorted(old(v)@.map_values(|s: String| s@)),
    ensures
        strictly_sorted(final(v)@.map_values(|s: String| s@)),
        final(v)@.map_values(|s: String| s@).to_set() == old(v)@.map_values(|s: String| s@).to_set().insert(x@),
{
    let ghost s0 = v@.map_values(|s: String| s@);
    let mut i: usize = 0;
    while i < v.len() && str_lt(v[i].as_str(), x.as_str())
        invariant
            i <= v@.len(),
            s0 == v@.map_values(|s: String| s@),
            forall|j: int| 0 <= j < i ==> seq_lt(#[trigger] s0[j], x@),
        decreases v@.len() - i,
    {
        i = i + 1;
    }
    if i < v.len() && v[i] == x {
        proof {
            assert(s0.to_set().insert(x@) =~= s0.to_set()) by {
                assert(s0[i as int] == x@);
            }
        }
        return ;
    }
    proof {
        if i < s0.len() {
            lemma_seq_lt_trichotomy(s0[i as int], x@);
        }
    }
    let ghost xv = x@;
    v.insert(i, x);
    proof {
        let s1 = v@.map_values(|s: String| s@);
        assert(s1 =~= s0.insert(i as int, xv));
        assert forall|a: int, b: int| 0 <= a < b < s1.len() implies seq_lt(#[trigger] s1[a], #[trigger] s1[b]) by {
            if b < i {
            } else if a < i && b == i {
            } else if a < i && b > i {
                assert(s1[b] == s0[b - 1]);
                if i < s0.len() {
                    assert(seq_lt(xv, s0[i as int]));
                    if b - 1 > i {
                        lemma_seq_lt_transitive(xv, s0[i as int], s0[b - 1]);
                    }
                    lemma_seq_lt_transitive(s0[a], xv, s0[b - 1]);
                }
            } else if a == i {
                assert(s1[b] == s0[b - 1]);
                if b - 1 > i {
                    lemma_seq_lt_transitive(xv, s0[i as int], s0[b - 1]);
                }
            } else {
                assert(s1[a] == s0[a - 1]);
                assert(s1[b] == s0[b - 1]);
            }
        }
        assert(s1.to_set() =~= s0.to_set().insert(xv)) by {
            assert forall|e: Seq<char>| s1.to_set().contains(e) <==> s0.to_set().insert(xv).contains(e) by {
                if s1.to_set().contains(e) {
                    let k = choose|k: int| 0 <= k < s1.len() && s1[k] == e;
                    if k < i {
                        assert(s0[k] == e);
                    } else if k > i {
                        assert(s0[k - 1] == e);
                    }
                }
                if s0.to_set().contains(e) {
                    let k = choose|k: int| 0 <= k < s0.len() && s0[k] == e;
                    if k < i {
                        assert(s1[k] == e);
                    } else {
                        assert(s1[k + 1] == e);
                    }
                }
                if e == xv {
                    assert(s1[i as int] == xv);
                }
            }
        }
    }
}

/// Appends one character (as `String::push`).
#[verifier::external_body]
pub(crate) fn push_char(s: &mut String, c: char)
    ensures
        final(s)@ == old(s)@.push(c),
{
    s.push(c);
}

} // verus!
