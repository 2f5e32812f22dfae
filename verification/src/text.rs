//! Text primitives on `str` and `String`, each with its meaning over `Seq<char>`.
use vstd::prelude::*;
use vstd::string::*;

verus! {

// ── Whitespace ───────────────────────────────────────────────────────────────

/// Unicode `White_Space`: the characters that `char::is_whitespace` accepts.
pub open spec fn is_ws(c: char) -> bool {
    let u = c as u32;
    ||| 0x09 <= u <= 0x0D
    ||| u == 0x20
    ||| u == 0x85
    ||| u == 0xA0
    ||| u == 0x1680
    ||| 0x2000 <= u <= 0x200A
    ||| u == 0x2028
    ||| u == 0x2029
    ||| u == 0x202F
    ||| u == 0x205F
    ||| u == 0x3000
}

/// Whether `c` is Unicode whitespace.
pub fn is_whitespace(c: char) -> (b: bool)
    ensures
        b == is_ws(c),
{
    let u = c as u32;
    (0x09 <= u && u <= 0x0D) || u == 0x20 || u == 0x85 || u == 0xA0 || u == 0x1680 || (0x2000
        <= u && u <= 0x200A) || u == 0x2028 || u == 0x2029 || u == 0x202F || u == 0x205F || u
        == 0x3000
}

/// `s` without its leading whitespace.
pub open spec fn trim_start_seq(s: Seq<char>) -> Seq<char>
    decreases s.len(),
{
    if s.len() > 0 && is_ws(s[0]) {
        trim_start_seq(s.drop_first())
    } else {
        s
    }
}

/// `s` without its trailing whitespace.
pub open spec fn trim_end_seq(s: Seq<char>) -> Seq<char>
    decreases s.len(),
{
    if s.len() > 0 && is_ws(s.last()) {
        trim_end_seq(s.drop_last())
    } else {
        s
    }
}

/// `s` without leading and trailing whitespace (what `str::trim` returns).
pub open spec fn trim_seq(s: Seq<char>) -> Seq<char> {
    trim_end_seq(trim_start_seq(s))
}

/// `s` without every leading copy of the non-empty pattern `p` (what
/// `str::trim_start_matches` returns for a string pattern).
pub open spec fn strip_prefixes(s: Seq<char>, p: Seq<char>) -> Seq<char>
    decreases s.len(),
{
    if p.len() > 0 && p.is_prefix_of(s) {
        strip_prefixes(s.skip(p.len() as int), p)
    } else {
        s
    }
}

/// `s` without every trailing copy of the non-empty pattern `p` (what
/// `str::trim_end_matches` returns for a string pattern).
pub open spec fn strip_suffixes(s: Seq<char>, p: Seq<char>) -> Seq<char>
    decreases s.len(),
{
    if p.len() > 0 && p.is_suffix_of(s) {
        strip_suffixes(s.take(s.len() - p.len()), p)
    } else {
        s
    }
}

/// `s` without leading and trailing copies of `c` (what `str::trim_matches`
/// returns for a character).
pub open spec fn strip_char_both(s: Seq<char>, c: char) -> Seq<char> {
    strip_suffixes(strip_prefixes(s, seq![c]), seq![c])
}

/// Whether `p` occurs in `s` starting at index `i`.
pub open spec fn occurs_at(s: Seq<char>, p: Seq<char>, i: int) -> bool {
    0 <= i && i + p.len() <= s.len() && s.subrange(i, i + p.len()) == p
}

/// The index of the first occurrence of `p` in `s`, if any (what `str::find`
/// gives, counted in characters).
pub open spec fn first_occurrence(s: Seq<char>, p: Seq<char>) -> Option<int> {
    if exists|i: int| occurs_at(s, p, i) {
        Some(choose|i: int| occurs_at(s, p, i) && forall|j: int| 0 <= j < i ==> !occurs_at(s, p, j))
    } else {
        None
    }
}

/// The index of the first whitespace character of `s`, if any.
pub open spec fn first_ws(s: Seq<char>) -> Option<int> {
    if exists|i: int| 0 <= i < s.len() && is_ws(s[i]) {
        Some(choose|i: int| 0 <= i < s.len() && is_ws(s[i]) && forall|j: int| 0 <= j < i ==> !is_ws(s[j]))
    } else {
        None
    }
}

/// The index of the first `c` in `s`, if any.
pub open spec fn first_index_of(s: Seq<char>, c: char) -> Option<int> {
    if s.contains(c) {
        Some(choose|i: int| 0 <= i < s.len() && s[i] == c && forall|j: int| 0 <= j < i ==> s[j] != c)
    } else {
        None
    }
}

/// The words of `s`: its maximal runs of non-whitespace characters, in order
/// (what `str::split_whitespace` yields).
pub open spec fn words(s: Seq<char>) -> Seq<Seq<char>>
    decreases s.len(),
{
    if s.len() == 0 {
        seq![]
    } else if is_ws(s[0]) {
        words(s.drop_first())
    } else {
        proof {
            lemma_word_len_bounds(s);
        }
        let n = word_len(s);
        seq![s.take(n)] + words(s.skip(n))
    }
}

/// The length of the run of non-whitespace characters that starts `s`.
pub open spec fn word_len(s: Seq<char>) -> int
    decreases s.len(),
{
    if s.len() == 0 || is_ws(s[0]) {
        0
    } else {
        1 + word_len(s.drop_first())
    }
}

/// A line without one trailing carriage return.
pub open spec fn strip_cr(l: Seq<char>) -> Seq<char> {
    if l.len() > 0 && l.last() == '\r' {
        l.drop_last()
    } else {
        l
    }
}

/// The lines of `s` (what `str::lines` yields): split at each newline, a line
/// ended by a newline losing one carriage return before it; a final newline
/// ends the last line rather than starting an empty one.
#[verifier::opaque]
pub open spec fn lines_seq(s: Seq<char>) -> Seq<Seq<char>>
    decreases s.len(),
{
    if s.len() == 0 {
        Seq::empty()
    } else {
        match first_index_of(s, '\n') {
            Some(i) => {
                if 0 <= i < s.len() {
                    seq![strip_cr(s.take(i))] + lines_seq(s.skip(i + 1))
                } else {
                    Seq::empty()
                }
            },
            None => seq![s],
        }
    }
}

/// The parts joined, with `sep` between each two.
pub open spec fn join_seq(parts: Seq<Seq<char>>, sep: Seq<char>) -> Seq<char>
    decreases parts.len(),
{
    if parts.len() == 0 {
        seq![]
    } else if parts.len() == 1 {
        parts[0]
    } else {
        join_seq(parts.drop_last(), sep) + sep + parts.last()
    }
}

/// The decimal digits of `n`, most significant first, without leading zeros
/// (a single `0` for zero).
pub open spec fn decimal(n: nat) -> Seq<char>
    decreases n,
{
    if n < 10 {
        seq![digit_char(n)]
    } else {
        decimal(n / 10) + seq![digit_char(n % 10)]
    }
}

/// The ASCII digit for `d` (below 10).
pub open spec fn digit_char(d: nat) -> char {
    (('0' as u32) + d) as char
}

/// The decimal form of a signed integer, with a leading `-` when negative.
pub open spec fn decimal_int(n: int) -> Seq<char> {
    if n < 0 {
        seq!['-'] + decimal((-n) as nat)
    } else {
        decimal(n as nat)
    }
}

/// An optional string, as characters.
pub open spec fn opt_view(o: Option<String>) -> Option<Seq<char>> {
    match o {
        Some(s) => Some(s@),
        None => None,
    }
}

/// The characters of each string of a sequence.
pub open spec fn seq_view(v: Seq<String>) -> Seq<Seq<char>> {
    v.map_values(|s: String| s@)
}

// ── Proof helpers ────────────────────────────────────────────────────────────

proof fn lemma_trim_start_step(s: Seq<char>, i: int)
    requires
        0 <= i < s.len(),
        is_ws(s[i]),
    ensures
        trim_start_seq(s.skip(i)) == trim_start_seq(s.skip(i + 1)),
{
    assert(s.skip(i).drop_first() =~= s.skip(i + 1));
}

proof fn lemma_trim_end_step(s: Seq<char>, j: int)
    requires
        0 < j <= s.len(),
        is_ws(s[j - 1]),
    ensures
        trim_end_seq(s.take(j)) == trim_end_seq(s.take(j - 1)),
{
    assert(s.take(j).drop_last() =~= s.take(j - 1));
}

/// Trimming leaves nothing to trim.
pub proof fn lemma_trim_idempotent(s: Seq<char>)
    ensures
        trim_seq(trim_seq(s)) == trim_seq(s),
        trim_seq(s).len() > 0 ==> !is_ws(trim_seq(s)[0]) && !is_ws(trim_seq(s).last()),
{
    lemma_trim_start_shape(s);
    lemma_trim_end_shape(trim_start_seq(s));
    let t = trim_seq(s);
    if t.len() > 0 {
        lemma_trim_end_prefix(trim_start_seq(s));
        assert(t[0] == trim_start_seq(s)[0]);
    }
    lemma_trim_start_fixed(t);
    lemma_trim_end_fixed(t);
}

/// Trimming only cuts whitespace off the ends: the result is an unchanged
/// run of the original's characters, with whitespace only before and after it.
pub proof fn lemma_trim_is_slice(s: Seq<char>)
    ensures
        exists|a: int|
            0 <= a && a + trim_seq(s).len() <= s.len() && #[trigger] s.subrange(a, a + trim_seq(s).len()) == trim_seq(s)
                && (forall|k: int| 0 <= k < a ==> is_ws(#[trigger] s[k]))
                && (forall|k: int| a + trim_seq(s).len() <= k < s.len() ==> is_ws(#[trigger] s[k])),
{
    lemma_trim_start_shape(s);
    let ts = trim_start_seq(s);
    lemma_trim_end_shape(ts);
    let a = s.len() - ts.len();
    let t = trim_seq(s);
    assert(s.subrange(a, a + t.len()) =~= t);
    lemma_trim_start_ws(s);
    lemma_trim_end_ws(ts);
    assert forall|k: int| a + t.len() <= k < s.len() implies is_ws(#[trigger] s[k]) by {
        assert(s[k] == ts[k - a]);
    }
}

proof fn lemma_trim_start_ws(s: Seq<char>)
    ensures
        forall|k: int| 0 <= k < s.len() - trim_start_seq(s).len() ==> is_ws(#[trigger] s[k]),
    decreases s.len(),
{
    if s.len() > 0 && is_ws(s[0]) {
        lemma_trim_start_ws(s.drop_first());
        assert forall|k: int| 0 <= k < s.len() - trim_start_seq(s).len() implies is_ws(#[trigger] s[k]) by {
            if k > 0 {
                assert(s[k] == s.drop_first()[k - 1]);
            }
        }
    }
}

proof fn lemma_trim_end_ws(s: Seq<char>)
    ensures
        forall|k: int| trim_end_seq(s).len() <= k < s.len() ==> is_ws(#[trigger] s[k]),
    decreases s.len(),
{
    if s.len() > 0 && is_ws(s.last()) {
        lemma_trim_end_ws(s.drop_last());
        lemma_trim_end_shape(s.drop_last());
        assert forall|k: int| trim_end_seq(s).len() <= k < s.len() implies is_ws(#[trigger] s[k]) by {
            if k < s.len() - 1 {
                assert(s[k] == s.drop_last()[k]);
            }
        }
    }
}

proof fn lemma_trim_start_shape(s: Seq<char>)
    ensures
        trim_start_seq(s).len() <= s.len(),
        trim_start_seq(s).len() > 0 ==> !is_ws(trim_start_seq(s)[0]),
        trim_start_seq(s) =~= s.skip(s.len() - trim_start_seq(s).len()),
    decreases s.len(),
{
    if s.len() > 0 && is_ws(s[0]) {
        lemma_trim_start_shape(s.drop_first());
    }
}

proof fn lemma_trim_end_shape(s: Seq<char>)
    ensures
        trim_end_seq(s).len() <= s.len(),
        trim_end_seq(s).len() > 0 ==> !is_ws(trim_end_seq(s).last()),
        trim_end_seq(s) =~= s.take(trim_end_seq(s).len() as int),
    decreases s.len(),
{
    if s.len() > 0 && is_ws(s.last()) {
        lemma_trim_end_shape(s.drop_last());
    }
}

proof fn lemma_trim_end_prefix(s: Seq<char>)
    requires
        s.len() > 0 ==> !is_ws(s[0]),
    ensures
        trim_end_seq(s).len() > 0 ==> trim_end_seq(s)[0] == s[0],
{
    lemma_trim_end_shape(s);
}

proof fn lemma_trim_start_fixed(s: Seq<char>)
    requires
        s.len() > 0 ==> !is_ws(s[0]),
    ensures
        trim_start_seq(s) == s,
{
}

proof fn lemma_trim_end_fixed(s: Seq<char>)
    requires
        s.len() > 0 ==> !is_ws(s.last()),
    ensures
        trim_end_seq(s) == s,
{
}

// ── Executable text operations ───────────────────────────────────────────────

/// The characters of a string slice, in order.
pub fn chars_of(s: &str) -> (v: Vec<char>)
    ensures
        v@ == s@,
{
    let mut v: Vec<char> = Vec::new();
    for c in it: s.chars()
        invariant
            v@ == it.seq().take(it.index() as int),
            it.seq() == s@,
    {
        v.push(c);
    }
    v
}

/// The characters of `s` from index `from` to index `to`, as a new string.
pub fn substring(s: &str, from: usize, to: usize) -> (r: String)
    requires
        from <= to <= s@.len(),
    ensures
        r@ == s@.subrange(from as int, to as int),
{
    String::from_str(s.substring_char(from, to))
}

/// The concatenation of two string slices.
pub fn concat2(a: &str, b: &str) -> (r: String)
    ensures
        r@ == a@ + b@,
{
    let mut r = String::from_str(a);
    r.append(b);
    r
}

/// The concatenation of three string slices.
pub fn concat3(a: &str, b: &str, c: &str) -> (r: String)
    ensures
        r@ == a@ + b@ + c@,
{
    let mut r = String::from_str(a);
    r.append(b);
    r.append(c);
    r
}

/// The concatenation of four string slices.
pub fn concat4(a: &str, b: &str, c: &str, d: &str) -> (r: String)
    ensures
        r@ == a@ + b@ + c@ + d@,
{
    let mut r = String::from_str(a);
    r.append(b);
    r.append(c);
    r.append(d);
    r
}

/// Whether two string slices hold the same characters.
pub fn str_eq(a: &str, b: &str) -> (r: bool)
    ensures
        r == (a@ == b@),
{
    let va = chars_of(a);
    let vb = chars_of(b);
    if va.len() != vb.len() {
        return false;
    }
    let mut i: usize = 0;
    while i < va.len()
        invariant
            va@ == a@,
            vb@ == b@,
            va.len() == vb.len(),
            i <= va.len(),
            forall|k: int| 0 <= k < i ==> va@[k] == vb@[k],
        decreases va.len() - i,
    {
        if va[i] != vb[i] {
            return false;
        }
        i = i + 1;
    }
    assert(a@ =~= b@);
    true
}

/// Whether `p` occurs in the character vector `v` at index `i`.
fn occurs_at_vec(v: &Vec<char>, p: &Vec<char>, i: usize) -> (r: bool)
    ensures
        r == occurs_at(v@, p@, i as int),
{
    if i > v.len() || p.len() > v.len() - i {
        return false;
    }
    let mut k: usize = 0;
    while k < p.len()
        invariant
            i + p.len() <= v.len(),
            k <= p.len(),
            forall|m: int| 0 <= m < k ==> v@[i + m] == p@[m],
        decreases p.len() - k,
    {
        if v[i + k] != p[k] {
            assert(v@.subrange(i as int, i + p.len())[k as int] != p@[k as int]);
            return false;
        }
        k = k + 1;
    }
    assert(v@.subrange(i as int, i + p.len()) =~= p@);
    true
}

/// Whether `s` begins with `p`.
pub fn starts_with(s: &str, p: &str) -> (r: bool)
    ensures
        r == p@.is_prefix_of(s@),
{
    let vs = chars_of(s);
    let vp = chars_of(p);
    let r = occurs_at_vec(&vs, &vp, 0);
    proof {
        if r {
            assert forall|k: int| 0 <= k < p@.len() implies p@[k] == s@[k] by {
                assert(s@.subrange(0, p@.len() as int)[k] == s@[k]);
            }
        } else if p@.is_prefix_of(s@) {
            assert(s@.subrange(0, p@.len() as int) =~= p@);
        }
    }
    r
}

/// Whether `c` occurs in `s`.
pub fn contains_char(s: &str, c: char) -> (r: bool)
    ensures
        r == s@.contains(c),
{
    let v = chars_of(s);
    let mut i: usize = 0;
    while i < v.len()
        invariant
            v@ == s@,
            i <= v.len(),
            forall|k: int| 0 <= k < i ==> v@[k] != c,
        decreases v.len() - i,
    {
        if v[i] == c {
            assert(s@[i as int] == c);
            return true;
        }
        i = i + 1;
    }
    false
}

/// The index of the first occurrence of `p` in `s`, counted in characters.
pub fn find(s: &str, p: &str) -> (r: Option<usize>)
    ensures
        r matches Some(i) ==> first_occurrence(s@, p@) == Some(i as int) && occurs_at(s@, p@, i as int)
            && forall|j: int| 0 <= j < i ==> !occurs_at(s@, p@, j),
        r is None ==> first_occurrence(s@, p@) is None,
{
    let vs = chars_of(s);
    let vp = chars_of(p);
    let mut i: usize = 0;
    loop
        invariant
            vs@ == s@,
            vp@ == p@,
            i <= vs.len(),
            forall|j: int| 0 <= j < i ==> !occurs_at(s@, p@, j),
        ensures
            forall|j: int| 0 <= j <= vs.len() ==> !occurs_at(s@, p@, j),
        decreases vs.len() - i,
    {
        if occurs_at_vec(&vs, &vp, i) {
            let ghost w = choose|k: int| occurs_at(s@, p@, k) && forall|j: int| 0 <= j < k ==> !occurs_at(s@, p@, j);
            assert(occurs_at(s@, p@, i as int));
            proof {
                if w < i {
                } else if w > i {
                }
            }
            return Some(i);
        }
        if i == vs.len() {
            break;
        }
        i = i + 1;
    }
    assert forall|j: int| !occurs_at(s@, p@, j) by {
        if 0 <= j <= vs.len() {
        }
    }
    None
}

/// The index of the first `c` in `s`, counted in characters.
pub fn find_char(s: &str, c: char) -> (r: Option<usize>)
    ensures
        r matches Some(i) ==> first_index_of(s@, c) == Some(i as int) && i < s@.len() && s@[i as int] == c
            && forall|j: int| 0 <= j < i ==> s@[j] != c,
        r is None ==> first_index_of(s@, c) is None,
{
    let v = chars_of(s);
    let mut i: usize = 0;
    while i < v.len()
        invariant
            v@ == s@,
            i <= v.len(),
            forall|j: int| 0 <= j < i ==> s@[j] != c,
        decreases v.len() - i,
    {
        if v[i] == c {
            let ghost w = choose|k: int| 0 <= k < s@.len() && s@[k] == c && forall|j: int| 0 <= j < k ==> s@[j] != c;
            assert(s@[i as int] == c);
            return Some(i);
        }
        i = i + 1;
    }
    None
}

proof fn lemma_lines_step(s: Seq<char>, start: int, i: int)
    requires
        0 <= start < s.len(),
        start <= i <= s.len(),
        forall|k: int| start <= k < i ==> s[k] != '\n',
        i < s.len() ==> s[i] == '\n',
    ensures
        i < s.len() ==> lines_seq(s.skip(start)) == seq![strip_cr(s.subrange(start, i))] + lines_seq(s.skip(i + 1)),
        i == s.len() ==> lines_seq(s.skip(start)) == seq![s.subrange(start, i)],
{
    reveal(lines_seq);
    let t = s.skip(start);
    let n = i - start;
    assert(t.len() > 0);
    assert(t.take(n) =~= s.subrange(start, i));
    if i < s.len() {
        assert(t[n] == '\n');
        assert(t.contains('\n'));
        let w = choose|k: int| 0 <= k < t.len() && t[k] == '\n' && forall|j: int| 0 <= j < k ==> t[j] != '\n';
        assert(exists|k: int| 0 <= k < t.len() && t[k] == '\n' && forall|j: int| 0 <= j < k ==> t[j] != '\n') by {
            assert(forall|j: int| 0 <= j < n ==> t[j] == s[start + j]);
        }
        if w < n {
            assert(t[w] == s[start + w]);
        } else if w > n {
            assert(t[n] != '\n');
        }
        assert(t.skip(n + 1) =~= s.skip(i + 1));
    } else {
        assert(!t.contains('\n')) by {
            if t.contains('\n') {
                let k = choose|k: int| 0 <= k < t.len() && t[k] == '\n';
                assert(t[k] == s[start + k]);
            }
        }
        assert(t =~= s.subrange(start, i));
    }
}

/// The end of the line that starts at `start`: the next newline, or the end.
fn line_end(v: &Vec<char>, start: usize) -> (i: usize)
    requires
        start <= v@.len(),
    ensures
        start <= i <= v@.len(),
        forall|k: int| start <= k < i ==> v@[k] != '\n',
        i < v@.len() ==> v@[i as int] == '\n',
{
    let mut i = start;
    while i < v.len() && v[i] != '\n'
        invariant
            start <= i <= v.len(),
            forall|k: int| start <= k < i ==> v@[k] != '\n',
        decreases v.len() - i,
    {
        i = i + 1;
    }
    i
}

/// The line from `start` to `i`, without a trailing carriage return when a
/// newline ends it.
fn line_text(s: &str, v: &Vec<char>, start: usize, i: usize) -> (r: String)
    requires
        v@ == s@,
        start <= i <= v@.len(),
    ensures
        i < v@.len() ==> r@ == strip_cr(s@.subrange(start as int, i as int)),
        i == v@.len() ==> r@ == s@.subrange(start as int, i as int),
{
    let mut end = i;
    if i < v.len() && end > start && v[end - 1] == '\r' {
        end = end - 1;
    }
    let r = substring(s, start, end);
    assert(r@ =~= strip_cr(s@.subrange(start as int, i as int)) || i == v@.len());
    r
}

/// The lines of `s`.
pub fn lines(s: &str) -> (r: Vec<String>)
    ensures
        seq_view(r@) == lines_seq(s@),
{
    let v = chars_of(s);
    let mut r: Vec<String> = Vec::new();
    let mut i: usize = 0;
    assert(s@.skip(0) =~= s@);
    assert(seq_view(r@) =~= Seq::<Seq<char>>::empty());
    while i < v.len()
        invariant
            v@ == s@,
            i <= v.len(),
            lines_seq(s@) == seq_view(r@) + lines_seq(s@.skip(i as int)),
        decreases v.len() - i,
    {
        let start = i;
        i = line_end(&v, start);
        let line = line_text(s, &v, start, i);
        proof {
            lemma_lines_step(s@, start as int, i as int);
        }
        let ghost prev = r@;
        r.push(line);
        proof {
            assert(r@ == prev.push(line));
            assert(seq_view(r@) =~= seq_view(prev).push(line@));
        }
        if i < v.len() {
            i = i + 1;
            assert(seq_view(r@) + lines_seq(s@.skip(i as int)) =~= seq_view(prev) + (seq![line@] + lines_seq(s@.skip(i as int))));
        } else {
            assert(s@.skip(i as int) =~= Seq::<char>::empty());
            assert(lines_seq(Seq::<char>::empty()) == Seq::<Seq<char>>::empty()) by {
                reveal(lines_seq);
            }
            assert(seq_view(r@) + lines_seq(s@.skip(i as int)) =~= seq_view(prev) + seq![line@]);
        }
    }
    assert(s@.skip(i as int) =~= Seq::<char>::empty());
    assert(lines_seq(Seq::<char>::empty()) == Seq::<Seq<char>>::empty()) by {
        reveal(lines_seq);
    }
    assert(seq_view(r@) + Seq::<Seq<char>>::empty() =~= seq_view(r@));
    r
}

/// The index of the first whitespace character of `s`.
pub fn find_whitespace(s: &str) -> (r: Option<usize>)
    ensures
        r matches Some(i) ==> first_ws(s@) == Some(i as int) && i < s@.len() && is_ws(s@[i as int])
            && forall|j: int| 0 <= j < i ==> !is_ws(s@[j]),
        r is None ==> first_ws(s@) is None,
{
    let v = chars_of(s);
    let mut i: usize = 0;
    while i < v.len()
        invariant
            v@ == s@,
            i <= v.len(),
            forall|j: int| 0 <= j < i ==> !is_ws(s@[j]),
        decreases v.len() - i,
    {
        if is_whitespace(v[i]) {
            let ghost w = choose|k: int| 0 <= k < s@.len() && is_ws(s@[k]) && forall|j: int| 0 <= j < k ==> !is_ws(s@[j]);
            assert(is_ws(s@[i as int]));
            return Some(i);
        }
        i = i + 1;
    }
    None
}

/// The index of the first non-whitespace character of `v` (its length if none).
fn leading_ws_end(v: &Vec<char>) -> (i: usize)
    ensures
        i <= v@.len(),
        trim_start_seq(v@) == v@.skip(i as int),
{
    let mut i: usize = 0;
    assert(v@.skip(0) =~= v@);
    while i < v.len() && is_whitespace(v[i])
        invariant
            i <= v.len(),
            trim_start_seq(v@) == trim_start_seq(v@.skip(i as int)),
        decreases v.len() - i,
    {
        proof {
            lemma_trim_start_step(v@, i as int);
        }
        i = i + 1;
    }
    i
}

/// The end of the characters of `v` from `i` on once trailing whitespace is dropped.
fn trailing_ws_start(v: &Vec<char>, i: usize) -> (j: usize)
    requires
        i <= v@.len(),
    ensures
        i <= j <= v@.len(),
        trim_end_seq(v@.skip(i as int)) == v@.subrange(i as int, j as int),
{
    let ghost t = v@.skip(i as int);
    let mut j: usize = v.len();
    assert(t.take((j - i) as int) =~= t);
    while j > i && is_whitespace(v[j - 1])
        invariant
            i <= j <= v.len(),
            t == v@.skip(i as int),
            trim_end_seq(t) == trim_end_seq(t.take(j - i)),
        decreases j,
    {
        proof {
            assert(t[j - i - 1] == v@[j - 1]);
            lemma_trim_end_step(t, (j - i) as int);
        }
        j = j - 1;
    }
    assert(t.take(j - i) =~= v@.subrange(i as int, j as int));
    j
}

/// `s` without leading and trailing whitespace.
pub fn trim(s: &str) -> (r: String)
    ensures
        r@ == trim_seq(s@),
{
    let v = chars_of(s);
    let i = leading_ws_end(&v);
    let j = trailing_ws_start(&v, i);
    substring(s, i, j)
}

/// `s` without every leading copy of `p`.
pub fn trim_start_matches(s: &str, p: &str) -> (r: String)
    ensures
        r@ == strip_prefixes(s@, p@),
{
    let vs = chars_of(s);
    let vp = chars_of(p);
    if vp.len() == 0 {
        return String::from_str(s);
    }
    let mut i: usize = 0;
    assert(s@.skip(0) =~= s@);
    while occurs_at_vec(&vs, &vp, i)
        invariant
            vs@ == s@,
            vp@ == p@,
            p@.len() > 0,
            i <= vs.len(),
            strip_prefixes(s@, p@) == strip_prefixes(s@.skip(i as int), p@),
        decreases vs.len() - i,
    {
        proof {
            let t = s@.skip(i as int);
            assert(t.subrange(0, p@.len() as int) =~= s@.subrange(i as int, i + p@.len()));
            assert(t.skip(p@.len() as int) =~= s@.skip(i + p@.len()));
        }
        i = i + vp.len();
    }
    proof {
        let t = s@.skip(i as int);
        if p@.is_prefix_of(t) {
            assert(t.subrange(0, p@.len() as int) =~= p@);
            assert(s@.subrange(i as int, i + p@.len()) =~= t.subrange(0, p@.len() as int));
        }
    }
    assert(s@.skip(i as int) =~= s@.subrange(i as int, s@.len() as int));
    substring(s, i, vs.len())
}

/// `s` without every trailing copy of `p`.
pub fn trim_end_matches(s: &str, p: &str) -> (r: String)
    ensures
        r@ == strip_suffixes(s@, p@),
{
    let vs = chars_of(s);
    let vp = chars_of(p);
    if vp.len() == 0 {
        return String::from_str(s);
    }
    let mut j: usize = vs.len();
    assert(s@.take(j as int) =~= s@);
    while j >= vp.len() && occurs_at_vec(&vs, &vp, j - vp.len())
        invariant
            vs@ == s@,
            vp@ == p@,
            p@.len() > 0,
            j <= vs.len(),
            strip_suffixes(s@, p@) == strip_suffixes(s@.take(j as int), p@),
        decreases j,
    {
        proof {
            let t = s@.take(j as int);
            assert(t.subrange(j - p@.len(), j as int) =~= s@.subrange(j - p@.len(), j as int));
            assert(t.take(j - p@.len()) =~= s@.take(j - p@.len()));
        }
        j = j - vp.len();
    }
    proof {
        let t = s@.take(j as int);
        if p@.is_suffix_of(t) {
            assert(t.subrange(j - p@.len(), j as int) =~= p@);
            assert(s@.subrange(j - p@.len(), j as int) =~= t.subrange(j - p@.len(), j as int));
        }
    }
    assert(s@.take(j as int) =~= s@.subrange(0, j as int));
    substring(s, 0, j)
}

/// `s` without leading and trailing copies of `c`.
pub fn trim_matches_char(s: &str, c: char) -> (r: String)
    ensures
        r@ == strip_char_both(s@, c),
{
    let v = chars_of(s);
    let mut i: usize = 0;
    assert(s@.skip(0) =~= s@);
    while i < v.len() && v[i] == c
        invariant
            v@ == s@,
            i <= v.len(),
            strip_prefixes(s@, seq![c]) == strip_prefixes(s@.skip(i as int), seq![c]),
        decreases v.len() - i,
    {
        proof {
            let t = s@.skip(i as int);
            assert(seq![c].is_prefix_of(t));
            assert(t.skip(1) =~= s@.skip(i + 1));
        }
        i = i + 1;
    }
    let ghost head = s@.skip(i as int);
    assert(strip_prefixes(head, seq![c]) == head) by {
        if seq![c].is_prefix_of(head) {
            assert(head[0] == seq![c][0]);
        }
    }
    let mut j: usize = v.len();
    assert(head.take(head.len() as int) =~= head);
    while j > i && v[j - 1] == c
        invariant
            v@ == s@,
            i <= j <= v.len(),
            head == s@.skip(i as int),
            strip_suffixes(head, seq![c]) == strip_suffixes(head.take(j - i), seq![c]),
        decreases j,
    {
        proof {
            let t = head.take(j - i);
            assert(t[j - i - 1] == s@[j - 1]);
            assert(t.subrange(t.len() - 1, t.len() as int) =~= seq![c]);
            assert(t.take(t.len() - 1) =~= head.take(j - i - 1));
        }
        j = j - 1;
    }
    proof {
        let t = head.take(j - i);
        if seq![c].is_suffix_of(t) {
            assert(t[t.len() - 1] == seq![c][0]);
        }
    }
    assert(head.take(j - i) =~= s@.subrange(i as int, j as int));
    substring(s, i, j)
}

/// The first word of a string is its leading run of non-whitespace.
pub proof fn lemma_word_len_bounds(s: Seq<char>)
    ensures
        0 <= word_len(s) <= s.len(),
        forall|k: int| 0 <= k < word_len(s) ==> !is_ws(s[k]),
        word_len(s) < s.len() ==> is_ws(s[word_len(s)]),
        s.len() > 0 && !is_ws(s[0]) ==> word_len(s) >= 1,
    decreases s.len(),
{
    if s.len() > 0 && !is_ws(s[0]) {
        lemma_word_len_bounds(s.drop_first());
        assert forall|k: int| 0 <= k < word_len(s) implies !is_ws(s[k]) by {
            if k > 0 {
                assert(s[k] == s.drop_first()[k - 1]);
            }
        }
    }
}

proof fn lemma_word_len_of_run(s: Seq<char>, n: int)
    requires
        0 <= n <= s.len(),
        forall|k: int| 0 <= k < n ==> !is_ws(s[k]),
        n < s.len() ==> is_ws(s[n]),
    ensures
        word_len(s) == n,
    decreases s.len(),
{
    if n > 0 {
        assert forall|k: int| 0 <= k < n - 1 implies !is_ws(s.drop_first()[k]) by {
            assert(s.drop_first()[k] == s[k + 1]);
        }
        if n - 1 < s.drop_first().len() {
            assert(s.drop_first()[n - 1] == s[n]);
        }
        lemma_word_len_of_run(s.drop_first(), n - 1);
    }
}

/// The words of `s`, separated by whitespace.
pub fn split_whitespace(s: &str) -> (r: Vec<String>)
    ensures
        r@.map_values(|w: String| w@) == words(s@),
{
    let v = chars_of(s);
    let mut r: Vec<String> = Vec::new();
    let mut i: usize = 0;
    assert(s@.skip(0) =~= s@);
    assert(r@.map_values(|w: String| w@) =~= Seq::<Seq<char>>::empty());
    while i < v.len()
        invariant
            v@ == s@,
            i <= v.len(),
            words(s@) == r@.map_values(|w: String| w@) + words(s@.skip(i as int)),
        decreases v.len() - i,
    {
        if is_whitespace(v[i]) {
            proof {
                assert(s@.skip(i as int).drop_first() =~= s@.skip(i + 1));
            }
            i = i + 1;
        } else {
            let start = i;
            while i < v.len() && !is_whitespace(v[i])
                invariant
                    v@ == s@,
                    start <= i <= v.len(),
                    forall|k: int| start <= k < i ==> !is_ws(s@[k]),
                decreases v.len() - i,
            {
                i = i + 1;
            }
            let w = substring(s, start, i);
            proof {
                let t = s@.skip(start as int);
                let n = (i - start) as int;
                assert forall|k: int| 0 <= k < n implies !is_ws(t[k]) by {
                    assert(t[k] == s@[start + k]);
                }
                if n < t.len() {
                    assert(t[n] == s@[i as int]);
                }
                lemma_word_len_of_run(t, n);
                assert(t.take(n) =~= s@.subrange(start as int, i as int));
                assert(t.skip(n) =~= s@.skip(i as int));
                assert(!is_ws(t[0]));
            }
            let ghost before = r@;
            r.push(w);
            proof {
                assert(r@.map_values(|w: String| w@) =~= before.map_values(|w: String| w@) + seq![
                    s@.subrange(start as int, i as int),
                ]);
            }
        }
    }
    assert(r@.map_values(|w: String| w@) + words(s@.skip(i as int)) =~= r@.map_values(
        |w: String| w@,
    ));
    r
}

/// The parts joined with `sep` between each two.
pub fn join(parts: &Vec<String>, sep: &str) -> (r: String)
    ensures
        r@ == join_seq(parts@.map_values(|p: String| p@), sep@),
{
    let ghost views = parts@.map_values(|p: String| p@);
    let mut r = String::new();
    let mut i: usize = 0;
    while i < parts.len()
        invariant
            views == parts@.map_values(|p: String| p@),
            i <= parts.len(),
            r@ == join_seq(views.take(i as int), sep@),
        decreases parts.len() - i,
    {
        proof {
            assert(views.take(i + 1).drop_last() =~= views.take(i as int));
            assert(views.take(i + 1).last() == parts@[i as int]@);
        }
        if i > 0 {
            r.append(sep);
        } else {
            assert(views.take(1) =~= seq![parts@[0]@]);
        }
        r.append(parts[i].as_str());
        i = i + 1;
    }
    assert(views.take(parts.len() as int) =~= views);
    r
}

proof fn lemma_digit(d: nat)
    requires
        d < 10,
    ensures
        "0123456789"@[d as int] == digit_char(d),
{
    reveal_strlit("0123456789");
}

/// The decimal digits of `n`.
pub fn decimal_u64(n: u64) -> (r: String)
    ensures
        r@ == decimal(n as nat),
    decreases n,
{
    let digits = "0123456789";
    proof {
        reveal_strlit("0123456789");
    }
    let d = (n % 10) as usize;
    proof {
        lemma_digit(d as nat);
    }
    let last = substring(digits, d, d + 1);
    assert(last@ =~= seq![digit_char((n % 10) as nat)]);
    if n < 10 {
        last
    } else {
        let mut head = decimal_u64(n / 10);
        head.append(last.as_str());
        head
    }
}

/// The decimal form of a signed 32-bit integer.
pub fn decimal_i32(n: i32) -> (r: String)
    ensures
        r@ == decimal_int(n as int),
{
    decimal_i64(n as i64)
}

/// The decimal form of a signed 64-bit integer.
pub fn decimal_i64(n: i64) -> (r: String)
    ensures
        r@ == decimal_int(n as int),
{
    if n < 0 {
        let m: u64 = (0i128 - (n as i128)) as u64;
        assert(m as nat == (-(n as int)) as nat);
        let digits = decimal_u64(m);
        proof {
            reveal_strlit("-");
        }
        let r = concat2("-", digits.as_str());
        assert(r@ =~= seq!['-'] + decimal((-(n as int)) as nat));
        r
    } else {
        decimal_u64(n as u64)
    }
}

// ── Outside text functions ───────────────────────────────────────────────────

/// What `str::to_lowercase` returns for a string: each character replaced by
/// its Unicode lowercase mapping (the standard library's tables).
pub uninterp spec fn lowercase(s: Seq<char>) -> Seq<char>;

/// Calls `str::to_lowercase`; the result is `lowercase` of the argument.
#[verifier::external_body]
pub(crate) fn to_lowercase(s: &str) -> (r: String)
    ensures
        r@ == lowercase(s@),
{
    s.to_lowercase()
}

} // verus!
