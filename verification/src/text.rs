//! Character-level text utilities shared by the prompt, session and
//! formatting code.  Strings are reasoned about through their `Seq<char>`
//! views; the executable helpers here work on `Vec<char>` buffers.
use vstd::prelude::*;
use vstd::string::*;

verus! {

// ==================== specifications ====================

/// The Unicode `White_Space` property (what `char::is_whitespace` tests).
pub open spec fn is_ws(c: char) -> bool {
    let u = c as u32;
    ||| 0x9 <= u <= 0xD
    ||| u == 0x20
    ||| u == 0x85
    ||| u == 0xA0
    ||| u == 0x1680
    ||| 0x2000 <= u <= 0x200A
    ||| u == 0x2028
    ||| u == 0x2029
    ||| u == 0x202F
    ||| u == 0x205F
    ||| u == 0x3000
}

/// `s` with its leading whitespace removed.
pub open spec fn trim_start(s: Seq<char>) -> Seq<char>
    decreases s.len(),
{
    if s.len() > 0 && is_ws(s[0]) {
        trim_start(s.drop_first())
    } else {
        s
    }
}

/// `s` with its trailing whitespace removed.
pub open spec fn trim_end(s: Seq<char>) -> Seq<char>
    decreases s.len(),
{
    if s.len() > 0 && is_ws(s.last()) {
        trim_end(s.drop_last())
    } else {
        s
    }
}

/// `s` with whitespace removed at both ends (what `str::trim` returns).
pub open spec fn trim(s: Seq<char>) -> Seq<char> {
    trim_end(trim_start(s))
}

/// Whether `a` is immediately followed by `b` at position `i` of `s`.
pub open spec fn pair_at(s: Seq<char>, i: int, a: char, b: char) -> bool {
    0 <= i && i + 1 < s.len() && s[i] == a && s[i + 1] == b
}

/// The first index `i >= from` at which `a` is immediately followed by `b`,
/// or `-1` when there is none.
pub open spec fn find_pair(s: Seq<char>, a: char, b: char, from: int) -> int
    decreases s.len() - from,
{
    if from < 0 || from + 1 >= s.len() {
        -1
    } else if s[from] == a && s[from + 1] == b {
        from
    } else {
        find_pair(s, a, b, from + 1)
    }
}

/// The first index `i >= from` holding `c`, or `-1` when there is none.
pub open spec fn find_char(s: Seq<char>, c: char, from: int) -> int
    decreases s.len() - from,
{
    if from < 0 || from >= s.len() {
        -1
    } else if s[from] == c {
        from
    } else {
        find_char(s, c, from + 1)
    }
}

/// Whether `pat` occurs in `s` starting at `pos`.
pub open spec fn occurs_at(s: Seq<char>, pat: Seq<char>, pos: int) -> bool {
    0 <= pos && pos + pat.len() <= s.len() && s.subrange(pos, pos + pat.len()) == pat
}

/// `s[pos..]` with every non-overlapping occurrence of `pat`, taken from the
/// left, replaced by `rep` (the meaning of `str::replace` for a non-empty
/// pattern).
pub open spec fn replace_from(s: Seq<char>, pat: Seq<char>, rep: Seq<char>, pos: int) -> Seq<char>
    decreases s.len() - pos,
{
    if pos < 0 || pos >= s.len() || pat.len() == 0 {
        if 0 <= pos <= s.len() {
            s.subrange(pos, s.len() as int)
        } else {
            seq![]
        }
    } else if occurs_at(s, pat, pos) {
        rep + replace_from(s, pat, rep, pos + pat.len())
    } else {
        seq![s[pos]] + replace_from(s, pat, rep, pos + 1)
    }
}

/// Every occurrence of `pat` in `s` replaced by `rep`.
pub open spec fn replace_all(s: Seq<char>, pat: Seq<char>, rep: Seq<char>) -> Seq<char> {
    replace_from(s, pat, rep, 0)
}

/// The parts joined with `sep` between consecutive parts.
pub open spec fn join(parts: Seq<Seq<char>>, sep: Seq<char>) -> Seq<char>
    decreases parts.len(),
{
    if parts.len() == 0 {
        seq![]
    } else if parts.len() == 1 {
        parts[0]
    } else {
        join(parts.drop_last(), sep) + sep + parts.last()
    }
}

/// The character views of a sequence of strings.
pub open spec fn views(v: Seq<String>) -> Seq<Seq<char>> {
    v.map_values(|s: String| s@)
}

// ==================== lemmas ====================

pub proof fn lemma_find_pair(s: Seq<char>, a: char, b: char, from: int)
    requires
        0 <= from,
    ensures
        ({
            let r = find_pair(s, a, b, from);
            ||| r == -1 && forall|j: int| from <= j ==> !#[trigger] pair_at(s, j, a, b)
            ||| (from <= r && pair_at(s, r, a, b) && forall|j: int|
                from <= j < r ==> !#[trigger] pair_at(s, j, a, b))
        }),
    decreases s.len() - from,
{
    if from + 1 >= s.len() {
    } else if s[from] == a && s[from + 1] == b {
    } else {
        lemma_find_pair(s, a, b, from + 1);
    }
}

pub proof fn lemma_find_char(s: Seq<char>, c: char, from: int)
    requires
        0 <= from,
    ensures
        ({
            let r = find_char(s, c, from);
            ||| r == -1 && forall|j: int| from <= j < s.len() ==> s[j] != c
            ||| (from <= r < s.len() && s[r] == c && forall|j: int| from <= j < r ==> s[j] != c)
        }),
    decreases s.len() - from,
{
    if from >= s.len() {
    } else if s[from] == c {
    } else {
        lemma_find_char(s, c, from + 1);
    }
}

/// `find_char` from the start finds `c` exactly when `c` occurs.
pub proof fn lemma_find_char_contains(s: Seq<char>, c: char)
    ensures
        (find_char(s, c, 0) >= 0) == s.contains(c),
        find_char(s, c, 0) < s.len(),
{
    lemma_find_char(s, c, 0);
    if s.contains(c) {
        let k = choose|k: int| 0 <= k < s.len() && s[k] == c;
        assert(s[k] == c);
    }
}

pub proof fn lemma_join_push(parts: Seq<Seq<char>>, p: Seq<char>, sep: Seq<char>)
    ensures
        join(parts.push(p), sep) == if parts.len() == 0 { p } else { join(parts, sep) + sep + p },
{
    assert(parts.push(p).drop_last() =~= parts);
}

// ==================== executable helpers ====================

/// Whether `c` is Unicode whitespace, as `char::is_whitespace` decides.
pub fn is_whitespace(c: char) -> (r: bool)
    ensures
        r == is_ws(c),
{
    let u = c as u32;
    (0x9 <= u && u <= 0xD) || u == 0x20 || u == 0x85 || u == 0xA0 || u == 0x1680 || (0x2000 <= u
        && u <= 0x200A) || u == 0x2028 || u == 0x2029 || u == 0x202F || u == 0x205F || u == 0x3000
}

/// Appends one character to a `String` (`String::push`).
#[verifier::external_body]
fn string_push(s: &mut String, c: char)
    ensures
        final(s)@ == old(s)@.push(c),
{
    s.push(c)
}

/// Compares two string slices (`<str as PartialEq>::eq`): equal exactly when
/// they hold the same characters.
#[verifier::external_body]
pub fn str_eq(a: &str, b: &str) -> (r: bool)
    ensures
        r == (a@ == b@),
{
    a == b
}

/// The characters of `s`.
pub fn chars_of(s: &str) -> (v: Vec<char>)
    ensures
        v@ == s@,
{
    let n = s.unicode_len();
    let mut v: Vec<char> = Vec::new();
    let mut i: usize = 0;
    while i < n
        invariant
            n == s@.len(),
            i <= n,
            v@ == s@.subrange(0, i as int),
        decreases n - i,
    {
        let c = s.get_char(i);
        v.push(c);
        i = i + 1;
        assert(v@ =~= s@.subrange(0, i as int));
    }
    assert(v@ =~= s@);
    v
}

/// A `String` holding the characters of `v`.
pub fn string_of(v: &Vec<char>) -> (s: String)
    ensures
        s@ == v@,
{
    let mut s = String::new();
    let mut i: usize = 0;
    while i < v.len()
        invariant
            i <= v.len(),
            s@ == v@.subrange(0, i as int),
        decreases v.len() - i,
    {
        string_push(&mut s, v[i]);
        i = i + 1;
        assert(s@ =~= v@.subrange(0, i as int));
    }
    assert(v@ =~= v@.subrange(0, v.len() as int));
    s
}

/// A `String` holding the characters of `s`.
pub fn string_from(s: &str) -> (r: String)
    ensures
        r@ == s@,
{
    s.to_owned()
}

/// Appends `v[lo..hi]` to `out`.
pub fn push_range(out: &mut Vec<char>, v: &Vec<char>, lo: usize, hi: usize)
    requires
        lo <= hi <= v.len(),
    ensures
        final(out)@ == old(out)@ + v@.subrange(lo as int, hi as int),
{
    let ghost start = out@;
    let mut i = lo;
    while i < hi
        invariant
            lo <= i <= hi,
            hi <= v.len(),
            out@ == start + v@.subrange(lo as int, i as int),
        decreases hi - i,
    {
        out.push(v[i]);
        i = i + 1;
        assert(out@ =~= start + v@.subrange(lo as int, i as int));
    }
}

/// Appends all of `v` to `out`.
pub fn push_all(out: &mut Vec<char>, v: &Vec<char>)
    ensures
        final(out)@ == old(out)@ + v@,
{
    push_range(out, v, 0, v.len());
    assert(v@.subrange(0, v@.len() as int) =~= v@);
}

/// `v[lo..hi]` as a new buffer.
pub fn slice(v: &Vec<char>, lo: usize, hi: usize) -> (r: Vec<char>)
    requires
        lo <= hi <= v.len(),
    ensures
        r@ == v@.subrange(lo as int, hi as int),
{
    let mut r: Vec<char> = Vec::new();
    push_range(&mut r, v, lo, hi);
    assert(r@ =~= v@.subrange(lo as int, hi as int));
    r
}

/// The bounds of `v[lo..hi]` with surrounding whitespace removed.
pub fn trim_bounds(v: &Vec<char>, lo: usize, hi: usize) -> (r: (usize, usize))
    requires
        lo <= hi <= v.len(),
    ensures
        lo <= r.0 <= r.1 <= hi,
        v@.subrange(r.0 as int, r.1 as int) == trim(v@.subrange(lo as int, hi as int)),
{
    let mut a = lo;
    while a < hi && is_whitespace(v[a])
        invariant
            lo <= a <= hi,
            hi <= v.len(),
            trim_start(v@.subrange(lo as int, hi as int)) == trim_start(v@.subrange(a as int, hi as int)),
        decreases hi - a,
    {
        assert(v@.subrange(a as int, hi as int).drop_first() =~= v@.subrange(a + 1, hi as int));
        a = a + 1;
    }
    assert(trim_start(v@.subrange(a as int, hi as int)) == v@.subrange(a as int, hi as int));
    let mut b = hi;
    while b > a && is_whitespace(v[b - 1])
        invariant
            lo <= a <= b <= hi,
            hi <= v.len(),
            trim(v@.subrange(lo as int, hi as int)) == trim_end(v@.subrange(a as int, b as int)),
        decreases b - a,
    {
        assert(v@.subrange(a as int, b as int).drop_last() =~= v@.subrange(a as int, b - 1));
        b = b - 1;
    }
    (a, b)
}

/// The first position at or after `from` where `a` is followed by `b`.
pub fn find_pair_in(v: &Vec<char>, a: char, b: char, from: usize) -> (r: Option<usize>)
    requires
        from <= v.len(),
    ensures
        match r {
            Some(i) => i as int == find_pair(v@, a, b, from as int),
            None => find_pair(v@, a, b, from as int) == -1,
        },
{
    let mut i = from;
    while i < v.len() && i + 1 < v.len()
        invariant
            from <= i <= v.len(),
            find_pair(v@, a, b, from as int) == find_pair(v@, a, b, i as int),
        decreases v.len() - i,
    {
        if v[i] == a && v[i + 1] == b {
            return Some(i);
        }
        i = i + 1;
    }
    None
}

/// The first position at or after `from` holding `c`.
pub fn find_char_in(v: &Vec<char>, c: char, from: usize) -> (r: Option<usize>)
    requires
        from <= v.len(),
    ensures
        match r {
            Some(i) => i as int == find_char(v@, c, from as int),
            None => find_char(v@, c, from as int) == -1,
        },
{
    let mut i = from;
    while i < v.len()
        invariant
            from <= i <= v.len(),
            find_char(v@, c, from as int) == find_char(v@, c, i as int),
        decreases v.len() - i,
    {
        if v[i] == c {
            return Some(i);
        }
        i = i + 1;
    }
    None
}

/// Whether `pat` occurs in `s` at `pos`.
pub fn occurs_at_exec(s: &Vec<char>, pat: &Vec<char>, pos: usize) -> (r: bool)
    ensures
        r == occurs_at(s@, pat@, pos as int),
{
    if pat.len() > s.len() || pos > s.len() - pat.len() {
        return false;
    }
    let mut k: usize = 0;
    while k < pat.len()
        invariant
            k <= pat.len(),
            pos + pat.len() <= s.len(),
            forall|j: int| 0 <= j < k ==> s@[pos + j] == pat@[j],
        decreases pat.len() - k,
    {
        if s[pos + k] != pat[k] {
            assert(s@.subrange(pos as int, pos + pat.len())[k as int] != pat@[k as int]);
            return false;
        }
        k = k + 1;
    }
    assert(s@.subrange(pos as int, pos + pat.len()) =~= pat@);
    true
}

/// Every non-overlapping occurrence of `pat` in `s` replaced by `rep`.
pub fn replace_all_in(s: &Vec<char>, pat: &Vec<char>, rep: &Vec<char>) -> (r: Vec<char>)
    requires
        pat.len() > 0,
    ensures
        r@ == replace_all(s@, pat@, rep@),
{
    let mut out: Vec<char> = Vec::new();
    let mut pos: usize = 0;
    while pos < s.len()
        invariant
            pos <= s.len(),
            pat.len() > 0,
            out@ + replace_from(s@, pat@, rep@, pos as int) == replace_all(s@, pat@, rep@),
        decreases s.len() - pos,
    {
        let ghost before = out@;
        if occurs_at_exec(s, pat, pos) {
            push_all(&mut out, rep);
            assert(out@ + replace_from(s@, pat@, rep@, pos + pat.len()) =~= before + (rep@
                + replace_from(s@, pat@, rep@, pos + pat.len())));
            pos = pos + pat.len();
        } else {
            out.push(s[pos]);
            assert(out@ + replace_from(s@, pat@, rep@, pos + 1) =~= before + (seq![s@[pos as int]]
                + replace_from(s@, pat@, rep@, pos + 1)));
            pos = pos + 1;
        }
    }
    assert(s@.subrange(s@.len() as int, s@.len() as int) =~= Seq::<char>::empty());
    assert(out@ + replace_from(s@, pat@, rep@, pos as int) =~= out@);
    out
}

/// The parts joined with `sep`.
pub fn join_chars(parts: &Vec<Vec<char>>, sep: &Vec<char>) -> (r: Vec<char>)
    ensures
        r@ == join(parts@.map_values(|p: Vec<char>| p@), sep@),
{
    let ghost ps = parts@.map_values(|p: Vec<char>| p@);
    let mut out: Vec<char> = Vec::new();
    let mut i: usize = 0;
    while i < parts.len()
        invariant
            i <= parts.len(),
            ps == parts@.map_values(|p: Vec<char>| p@),
            out@ == join(ps.subrange(0, i as int), sep@),
        decreases parts.len() - i,
    {
        proof {
            lemma_join_push(ps.subrange(0, i as int), ps[i as int], sep@);
            assert(ps.subrange(0, i as int).push(ps[i as int]) =~= ps.subrange(0, i + 1));
        }
        if i > 0 {
            push_all(&mut out, sep);
        }
        push_all(&mut out, &parts[i]);
        i = i + 1;
    }
    assert(ps.subrange(0, i as int) =~= ps);
    out
}

/// The strings of `v` joined with `sep`.
pub fn join_strings(v: &Vec<String>, sep: &str) -> (r: String)
    ensures
        r@ == join(views(v@), sep@),
{
    let mut parts: Vec<Vec<char>> = Vec::new();
    let mut i: usize = 0;
    while i < v.len()
        invariant
            i <= v.len(),
            parts@.len() == i,
            forall|j: int| 0 <= j < i ==> #[trigger] parts@[j]@ == v@[j]@,
        decreases v.len() - i,
    {
        parts.push(chars_of(v[i].as_str()));
        i = i + 1;
    }
    assert(parts@.map_values(|p: Vec<char>| p@) =~= views(v@));
    string_of(&join_chars(&parts, &chars_of(sep)))
}

} // verus!

verus! {

/// The decimal digits of `n`, most significant first (`0` for zero).
pub open spec fn decimal(n: nat) -> Seq<char>
    decreases n,
{
    if n < 10 {
        seq![digit_char(n)]
    } else {
        decimal(n / 10) + seq![digit_char(n % 10)]
    }
}

/// The decimal digit character for a value below ten.
pub open spec fn digit_char(d: nat) -> char {
    seq!['0', '1', '2', '3', '4', '5', '6', '7', '8', '9'][d as int]
}

/// The decimal digits of `n`.
pub fn decimal_chars(n: u64) -> (r: Vec<char>)
    ensures
        r@ == decimal(n as nat),
    decreases n,
{
    let digits: Vec<char> = vec!['0', '1', '2', '3', '4', '5', '6', '7', '8', '9'];
    assert(digits@ =~= seq!['0', '1', '2', '3', '4', '5', '6', '7', '8', '9']);
    if n < 10 {
        let r: Vec<char> = vec![digits[n as usize]];
        assert(r@ =~= decimal(n as nat));
        r
    } else {
        let mut r = decimal_chars(n / 10);
        r.push(digits[(n % 10) as usize]);
        assert(r@ =~= decimal(n as nat));
        r
    }
}

/// The decimal text of `n`.
pub fn decimal_string(n: u64) -> (s: String)
    ensures
        s@ == decimal(n as nat),
{
    string_of(&decimal_chars(n))
}

/// The whitespace-separated words of `s`, in order (what
/// `str::split_whitespace` yields).
pub open spec fn words(s: Seq<char>) -> Seq<Seq<char>>
    decreases s.len(),
{
    if s.len() == 0 {
        seq![]
    } else {
        let w = words(s.drop_last());
        let c = s.last();
        if is_ws(c) {
            w
        } else if s.len() >= 2 && !is_ws(s[s.len() - 2]) {
            w.update(w.len() - 1, w.last().push(c))
        } else {
            w.push(seq![c])
        }
    }
}

/// A text that ends in a non-blank character has at least one word.
pub proof fn lemma_words_nonempty(s: Seq<char>)
    requires
        s.len() > 0,
        !is_ws(s.last()),
    ensures
        words(s).len() > 0,
    decreases s.len(),
{
    if s.len() >= 2 && !is_ws(s[s.len() - 2]) {
        assert(s.drop_last().last() == s[s.len() - 2]);
        lemma_words_nonempty(s.drop_last());
    }
}

/// The words of `s`.
pub fn split_words(s: &str) -> (r: Vec<String>)
    ensures
        views(r@) == words(s@),
{
    let cs = chars_of(s);
    let mut out: Vec<Vec<char>> = Vec::new();
    let mut i: usize = 0;
    while i < cs.len()
        invariant
            i <= cs.len(),
            cs@ == s@,
            out@.map_values(|w: Vec<char>| w@) == words(cs@.subrange(0, i as int)),
        decreases cs.len() - i,
    {
        let ghost prev = cs@.subrange(0, i as int);
        let ghost ws = out@.map_values(|w: Vec<char>| w@);
        assert(cs@.subrange(0, i + 1).drop_last() =~= prev);
        let c = cs[i];
        if !is_whitespace(c) {
            if i > 0 && !is_whitespace(cs[i - 1]) {
                proof {
                    assert(prev.last() == cs@[i - 1]);
                    lemma_words_nonempty(prev);
                }
                let last = out.len() - 1;
                let mut w = out.remove(last);
                w.push(c);
                out.push(w);
                assert(out@.map_values(|w: Vec<char>| w@) =~= ws.update(ws.len() - 1, ws.last().push(c)));
            } else {
                let mut w: Vec<char> = Vec::new();
                w.push(c);
                assert(w@ =~= seq![c]);
                out.push(w);
                assert(out@.map_values(|w: Vec<char>| w@) =~= ws.push(seq![c]));
            }
        }
        i = i + 1;
    }
    assert(cs@.subrange(0, i as int) =~= cs@);
    let mut r: Vec<String> = Vec::new();
    let mut k: usize = 0;
    while k < out.len()
        invariant
            k <= out.len(),
            out@.map_values(|w: Vec<char>| w@) == words(s@),
            r@.len() == k,
            forall|j: int| 0 <= j < k ==> #[trigger] r@[j]@ == out@[j]@,
        decreases out.len() - k,
    {
        r.push(string_of(&out[k]));
        k = k + 1;
    }
    assert(views(r@) =~= words(s@)) by {
        assert forall|j: int| 0 <= j < r@.len() implies #[trigger] views(r@)[j] == words(s@)[j] by {
            assert(out@.map_values(|w: Vec<char>| w@)[j] == out@[j]@);
        }
    }
    r
}

proof fn lemma_trim_start_first(s: Seq<char>)
    ensures
        trim_start(s).len() > 0 ==> !is_ws(trim_start(s)[0]),
    decreases s.len(),
{
    if s.len() > 0 && is_ws(s[0]) {
        lemma_trim_start_first(s.drop_first());
    }
}

proof fn lemma_trim_end_prefix(s: Seq<char>)
    ensures
        trim_end(s).len() <= s.len(),
        forall|i: int| 0 <= i < trim_end(s).len() ==> #[trigger] trim_end(s)[i] == s[i],
        trim_end(s).len() > 0 ==> !is_ws(trim_end(s).last()),
    decreases s.len(),
{
    if s.len() > 0 && is_ws(s.last()) {
        lemma_trim_end_prefix(s.drop_last());
    }
}

/// A non-empty trimmed text starts and ends with a non-blank character.
pub proof fn lemma_trim_ends(s: Seq<char>)
    ensures
        trim(s).len() > 0 ==> !is_ws(trim(s)[0]) && !is_ws(trim(s).last()),
{
    lemma_trim_start_first(s);
    lemma_trim_end_prefix(trim_start(s));
    if trim(s).len() > 0 {
        assert(trim(s)[0] == trim_start(s)[0]);
    }
}

/// Trimming a trimmed text changes nothing.
pub proof fn lemma_trim_idempotent(s: Seq<char>)
    ensures
        trim(trim(s)) == trim(s),
{
    let t = trim(s);
    lemma_trim_ends(s);
    if t.len() > 0 {
        assert(trim_start(t) == t);
        assert(trim_end(t) == t);
    } else {
        assert(trim_start(t) == t);
        assert(trim_end(t) == t);
    }
}

/// Each part occurs in the parts joined with any separator.
pub proof fn lemma_join_contains(parts: Seq<Seq<char>>, sep: Seq<char>, i: int)
    requires
        0 <= i < parts.len(),
    ensures
        has_substring(join(parts, sep), parts[i]),
    decreases parts.len(),
{
    let p = parts[i];
    if parts.len() == 1 {
        assert(join(parts, sep) == parts[0]);
        assert(p.subrange(0, p.len() as int) =~= p);
        assert(occurs_at(join(parts, sep), p, 0));
    } else {
        let j0 = join(parts.drop_last(), sep);
        let whole = j0 + sep + parts.last();
        assert(join(parts, sep) == whole);
        if i == parts.len() - 1 {
            let pos: int = (j0.len() + sep.len()) as int;
            assert(whole.subrange(pos, pos + p.len()) =~= p);
            assert(occurs_at(whole, p, pos));
        } else {
            assert(parts.drop_last()[i] == p);
            lemma_join_contains(parts.drop_last(), sep, i);
            let pos = choose|pos: int| occurs_at(j0, p, pos);
            assert(whole.subrange(pos, pos + p.len()) =~= j0.subrange(pos, pos + p.len()));
            assert(occurs_at(whole, p, pos));
        }
    }
}

/// The first word of a text that starts with a non-blank character begins
/// with that character.
pub proof fn lemma_words_first(s: Seq<char>)
    requires
        s.len() > 0,
        !is_ws(s[0]),
    ensures
        words(s).len() > 0,
        words(s)[0].len() > 0,
        words(s)[0][0] == s[0],
    decreases s.len(),
{
    let d = s.drop_last();
    let c = s.last();
    if s.len() == 1 {
        assert(d.len() == 0);
        assert(words(d) == Seq::<Seq<char>>::empty());
        assert(c == s[0]);
        assert(words(s) == words(d).push(seq![c]));
    } else {
        assert(d[0] == s[0]);
        lemma_words_first(d);
        let w = words(d);
        if is_ws(c) {
            assert(words(s) == w);
        } else if !is_ws(s[s.len() - 2]) {
            let u = w.update(w.len() - 1, w.last().push(c));
            assert(words(s) == u);
            if w.len() == 1 {
                assert(u[0] == w[0].push(c));
            } else {
                assert(u[0] == w[0]);
            }
        } else {
            assert(words(s) == w.push(seq![c]));
            assert(w.push(seq![c])[0] == w[0]);
        }
    }
}

/// `s` without leading and trailing whitespace.
pub fn trim_str(s: &str) -> (r: String)
    ensures
        r@ == trim(s@),
{
    let v = chars_of(s);
    let (a, b) = trim_bounds(&v, 0, v.len());
    assert(v@.subrange(0, v@.len() as int) =~= v@);
    string_of(&slice(&v, a, b))
}

/// Whether `pat` occurs somewhere in `s`.
pub open spec fn has_substring(s: Seq<char>, pat: Seq<char>) -> bool {
    exists|pos: int| occurs_at(s, pat, pos)
}

/// Whether `pat` occurs in `s`.
pub fn contains_text(s: &str, pat: &str) -> (b: bool)
    ensures
        b == has_substring(s@, pat@),
{
    let sv = chars_of(s);
    let pv = chars_of(pat);
    let n = sv.len();
    let mut pos: usize = 0;
    while pos < n
        invariant
            n == sv@.len(),
            sv@ == s@,
            pv@ == pat@,
            pos <= n,
            forall|q: int| 0 <= q < pos ==> !occurs_at(s@, pat@, q),
        decreases n - pos,
    {
        if occurs_at_exec(&sv, &pv, pos) {
            return true;
        }
        pos = pos + 1;
    }
    if occurs_at_exec(&sv, &pv, n) {
        return true;
    }
    proof {
        assert forall|q: int| !occurs_at(s@, pat@, q) by {
            if 0 <= q < n {
                assert(!occurs_at(s@, pat@, q));
            }
        }
    }
    false
}

} // verus!
