//! Text primitives over `Seq<char>`.
//!
//! Everything the rest of the crate says to a person or reads from one goes
//! through these functions, so their contracts are exact: each result is a
//! spec function of the characters that went in.

use vstd::prelude::*;
use vstd::utf8::*;

verus! {

broadcast use vstd::string::group_string_axioms;

/// `String::push` from std: appends one character at the end.
pub assume_specification[ String::push ](s: &mut String, ch: char)
    ensures
        final(s)@ == old(s)@.push(ch),
;

// ---------------------------------------------------------------------
// Character classes
// ---------------------------------------------------------------------

/// The Unicode `White_Space` property.
pub open spec fn is_space(c: char) -> bool {
    ||| '\u{9}' <= c <= '\u{d}'
    ||| c == ' '
    ||| c == '\u{85}'
    ||| c == '\u{a0}'
    ||| c == '\u{1680}'
    ||| '\u{2000}' <= c <= '\u{200a}'
    ||| c == '\u{2028}'
    ||| c == '\u{2029}'
    ||| c == '\u{202f}'
    ||| c == '\u{205f}'
    ||| c == '\u{3000}'
}

/// Whether `c` is white space.
pub fn is_white(c: char) -> (r: bool)
    ensures
        r == is_space(c),
{
    ('\u{9}' <= c && c <= '\u{d}') || c == ' ' || c == '\u{85}' || c == '\u{a0}' || c
        == '\u{1680}' || ('\u{2000}' <= c && c <= '\u{200a}') || c == '\u{2028}' || c == '\u{2029}'
        || c == '\u{202f}' || c == '\u{205f}' || c == '\u{3000}'
}

// ---------------------------------------------------------------------
// Characters of a string, and back
// ---------------------------------------------------------------------

/// The characters of `s`, in order.
pub fn chars_of(s: &str) -> (v: Vec<char>)
    ensures
        v@ == s@,
{
    let mut v: Vec<char> = Vec::new();
    for c in it: s.chars()
        invariant
            it.seq() == s@,
            v@ == s@.take(it.index() as int),
    {
        proof {
            assert(s@.take(it.index() as int).push(c) =~= s@.take(it.index() as int + 1));
        }
        v.push(c);
    }
    proof {
        assert(s@.take(s@.len() as int) =~= s@);
    }
    v
}

/// The characters `v[from..to]` as a string.
pub fn string_of(v: &Vec<char>, from: usize, to: usize) -> (r: String)
    requires
        from <= to <= v@.len(),
    ensures
        r@ == v@.subrange(from as int, to as int),
{
    let mut out = String::new();
    let mut i: usize = from;
    while i < to
        invariant
            from <= i <= to <= v@.len(),
            out@ == v@.subrange(from as int, i as int),
        decreases to - i,
    {
        out.push(v[i]);
        i = i + 1;
        proof {
            assert(v@.subrange(from as int, i as int) =~= v@.subrange(
                from as int,
                i as int - 1,
            ).push(v@[i as int - 1]));
        }
    }
    out
}

/// Whether two strings hold the same characters.
pub fn same(a: &str, b: &str) -> (r: bool)
    ensures
        r == (a@ == b@),
{
    let left = a.to_owned();
    let right = b.to_owned();
    left == right
}

// ---------------------------------------------------------------------
// Trimming
// ---------------------------------------------------------------------

/// `s` without its leading white space.
pub open spec fn trimmed_start(s: Seq<char>) -> Seq<char>
    decreases s.len(),
{
    if s.len() > 0 && is_space(s[0]) {
        trimmed_start(s.skip(1))
    } else {
        s
    }
}

/// `s` without its trailing white space.
pub open spec fn trimmed_end(s: Seq<char>) -> Seq<char>
    decreases s.len(),
{
    if s.len() > 0 && is_space(s.last()) {
        trimmed_end(s.drop_last())
    } else {
        s
    }
}

/// `s` without white space at either end.
pub open spec fn trimmed(s: Seq<char>) -> Seq<char> {
    trimmed_end(trimmed_start(s))
}

/// Whether `s` holds nothing but white space.
pub open spec fn is_blank_text(s: Seq<char>) -> bool {
    forall|i: int| 0 <= i < s.len() ==> is_space(#[trigger] s[i])
}

proof fn lemma_trimmed_start_from(s: Seq<char>, i: int)
    requires
        0 <= i <= s.len(),
        forall|k: int| 0 <= k < i ==> is_space(#[trigger] s[k]),
        i < s.len() ==> !is_space(s[i]),
    ensures
        trimmed_start(s) == s.skip(i),
    decreases i,
{
    if i == 0 {
        assert(s.skip(0) =~= s);
    } else {
        assert(is_space(s[0]));
        lemma_trimmed_start_from(s.skip(1), i - 1);
        assert(s.skip(1).skip(i - 1) =~= s.skip(i));
    }
}

proof fn lemma_trimmed_end_at(s: Seq<char>, j: int)
    requires
        0 <= j <= s.len(),
        forall|k: int| j <= k < s.len() ==> is_space(#[trigger] s[k]),
        j > 0 ==> !is_space(s[j - 1]),
    ensures
        trimmed_end(s) == s.take(j),
    decreases s.len() - j,
{
    if j == s.len() {
        assert(s.take(j) =~= s);
    } else {
        assert(is_space(s[s.len() - 1]));
        lemma_trimmed_end_at(s.drop_last(), j);
        assert(s.drop_last().take(j) =~= s.take(j));
    }
}

/// A text is blank exactly when trimming leaves nothing.
pub proof fn blank_means_nothing_left(s: Seq<char>)
    ensures
        is_blank_text(s) <==> trimmed(s).len() == 0,
{
    lemma_trimmed_shape(s);
}

/// What trimming returns: a middle piece with white space on both sides of
/// it and none at its own ends.
pub proof fn lemma_trimmed_shape(s: Seq<char>)
    ensures
        is_blank_text(s) <==> trimmed(s).len() == 0,
        trimmed(s).len() > 0 ==> !is_space(trimmed(s)[0]) && !is_space(trimmed(s).last()),
        exists|i: int, j: int| 0 <= i <= j <= s.len() && trimmed(s) == #[trigger] s.subrange(i, j),
    decreases s.len(),
{
    if s.len() > 0 && is_space(s[0]) {
        let t = s.skip(1);
        lemma_trimmed_shape(t);
        assert(trimmed(s) == trimmed(t));
        let (i, j) = choose|i: int, j: int|
            0 <= i <= j <= t.len() && trimmed(t) == #[trigger] t.subrange(i, j);
        assert(t.subrange(i, j) =~= s.subrange(i + 1, j + 1));
        assert forall|k: int| is_blank_text(t) && 0 <= k < s.len() implies is_space(
            #[trigger] s[k],
        ) by {
            if k > 0 {
                assert(t[k - 1] == s[k]);
            }
        }
        assert forall|k: int| is_blank_text(s) && 0 <= k < t.len() implies is_space(
            #[trigger] t[k],
        ) by {
            assert(t[k] == s[k + 1]);
        }
    } else {
        assert(trimmed_start(s) == s);
        lemma_trimmed_end_shape(s);
        if s.len() > 0 {
            assert(!is_blank_text(s)) by {
                assert(!is_space(s[0]));
            }
        }
    }
}

proof fn lemma_trimmed_end_shape(s: Seq<char>)
    ensures
        trimmed_end(s).len() > 0 ==> !is_space(trimmed_end(s).last()) && trimmed_end(s)[0] == s[0],
        exists|i: int, j: int|
            0 <= i <= j <= s.len() && trimmed_end(s) == #[trigger] s.subrange(i, j),
        s.len() > 0 && !is_space(s[0]) ==> trimmed_end(s).len() > 0,
    decreases s.len(),
{
    if s.len() > 0 && is_space(s.last()) {
        let t = s.drop_last();
        lemma_trimmed_end_shape(t);
        let (i, j) = choose|i: int, j: int|
            0 <= i <= j <= t.len() && trimmed_end(t) == #[trigger] t.subrange(i, j);
        assert(t.subrange(i, j) =~= s.subrange(i, j));
    } else {
        assert(s =~= s.subrange(0, s.len() as int));
    }
}

/// `s` without white space at either end.
pub fn trim(s: &str) -> (r: String)
    ensures
        r@ == trimmed(s@),
{
    let v = chars_of(s);
    let mut i: usize = 0;
    while i < v.len() && is_white(v[i])
        invariant
            i <= v@.len(),
            forall|k: int| 0 <= k < i ==> is_space(#[trigger] v@[k]),
        decreases v@.len() - i,
    {
        i = i + 1;
    }
    let mut j: usize = v.len();
    while j > i && is_white(v[j - 1])
        invariant
            i <= j <= v@.len(),
            forall|k: int| j <= k < v@.len() ==> is_space(#[trigger] v@[k]),
        decreases j,
    {
        j = j - 1;
    }
    proof {
        lemma_trimmed_start_from(v@, i as int);
        let t = v@.skip(i as int);
        assert forall|k: int| j - i <= k < t.len() implies is_space(#[trigger] t[k]) by {
            assert(t[k] == v@[k + i]);
        }
        lemma_trimmed_end_at(t, j - i);
        assert(t.take(j - i) =~= v@.subrange(i as int, j as int));
    }
    string_of(&v, i, j)
}

/// `s` without its leading white space.
pub fn trim_start(s: &str) -> (r: String)
    ensures
        r@ == trimmed_start(s@),
{
    let v = chars_of(s);
    let mut i: usize = 0;
    while i < v.len() && is_white(v[i])
        invariant
            i <= v@.len(),
            forall|k: int| 0 <= k < i ==> is_space(#[trigger] v@[k]),
        decreases v@.len() - i,
    {
        i = i + 1;
    }
    proof {
        lemma_trimmed_start_from(v@, i as int);
        assert(v@.skip(i as int) =~= v@.subrange(i as int, v@.len() as int));
    }
    string_of(&v, i, v.len())
}

/// `s` without its trailing white space.
pub fn trim_end(s: &str) -> (r: String)
    ensures
        r@ == trimmed_end(s@),
{
    let v = chars_of(s);
    let mut j: usize = v.len();
    while j > 0 && is_white(v[j - 1])
        invariant
            j <= v@.len(),
            forall|k: int| j <= k < v@.len() ==> is_space(#[trigger] v@[k]),
        decreases j,
    {
        j = j - 1;
    }
    proof {
        lemma_trimmed_end_at(v@, j as int);
        assert(v@.take(j as int) =~= v@.subrange(0, j as int));
    }
    string_of(&v, 0, j)
}

/// Whether `s` holds nothing but white space.
pub fn is_blank(s: &str) -> (r: bool)
    ensures
        r == is_blank_text(s@),
{
    for c in it: s.chars()
        invariant
            it.seq() == s@,
            forall|k: int| 0 <= k < it.index() ==> is_space(#[trigger] s@[k]),
    {
        if !is_white(c) {
            proof {
                assert(!is_space(s@[it.index() as int]));
            }
            return false;
        }
    }
    true
}

// ---------------------------------------------------------------------
// Searching
// ---------------------------------------------------------------------

/// Whether `needle` stands in `s` at position `at`.
pub open spec fn occurs_at(s: Seq<char>, needle: Seq<char>, at: int) -> bool {
    0 <= at && at + needle.len() <= s.len() && s.subrange(at, at + needle.len()) == needle
}

/// Whether `s` begins with `prefix`.
pub open spec fn has_prefix(s: Seq<char>, prefix: Seq<char>) -> bool {
    occurs_at(s, prefix, 0)
}

/// Whether `s` ends with `suffix`.
pub open spec fn has_suffix(s: Seq<char>, suffix: Seq<char>) -> bool {
    occurs_at(s, suffix, s.len() - suffix.len())
}

/// Whether `needle` stands anywhere in `s`.
pub open spec fn holds_text(s: Seq<char>, needle: Seq<char>) -> bool {
    exists|at: int| #[trigger] occurs_at(s, needle, at)
}

/// Whether `needle` stands in `v` at position `at`.
pub fn matches_at(v: &Vec<char>, needle: &Vec<char>, at: usize) -> (r: bool)
    requires
        at <= v@.len(),
    ensures
        r == occurs_at(v@, needle@, at as int),
{
    if needle.len() > v.len() - at {
        return false;
    }
    let mut k: usize = 0;
    while k < needle.len()
        invariant
            k <= needle@.len(),
            at + needle@.len() <= v.len(),
            forall|q: int| 0 <= q < k ==> v@[at + q] == #[trigger] needle@[q],
        decreases needle@.len() - k,
    {
        if v[at + k] != needle[k] {
            proof {
                assert(v@.subrange(at as int, at + needle@.len())[k as int] != needle@[k as int]);
            }
            return false;
        }
        k = k + 1;
    }
    proof {
        assert(v@.subrange(at as int, at + needle@.len()) =~= needle@);
    }
    true
}

/// Whether `s` begins with `prefix`.
pub fn starts_with(s: &str, prefix: &str) -> (r: bool)
    ensures
        r == has_prefix(s@, prefix@),
{
    matches_at(&chars_of(s), &chars_of(prefix), 0)
}

/// Whether `s` ends with `suffix`.
pub fn ends_with(s: &str, suffix: &str) -> (r: bool)
    ensures
        r == has_suffix(s@, suffix@),
{
    let v = chars_of(s);
    let p = chars_of(suffix);
    if p.len() > v.len() {
        return false;
    }
    matches_at(&v, &p, v.len() - p.len())
}

/// Whether `needle` stands anywhere in `s`.
pub fn contains(s: &str, needle: &str) -> (r: bool)
    ensures
        r == holds_text(s@, needle@),
{
    let v = chars_of(s);
    let n = chars_of(needle);
    let mut at: usize = 0;
    while at < v.len()
        invariant
            at <= v@.len(),
            v@ == s@,
            n@ == needle@,
            forall|q: int| 0 <= q < at ==> !#[trigger] occurs_at(v@, n@, q),
        decreases v@.len() - at,
    {
        if matches_at(&v, &n, at) {
            return true;
        }
        at = at + 1;
    }
    matches_at(&v, &n, at)
}

/// `s` after `prefix`, when it begins with it.
pub fn strip_prefix(s: &str, prefix: &str) -> (r: Option<String>)
    ensures
        has_prefix(s@, prefix@) <==> r is Some,
        r matches Some(t) ==> t@ == s@.skip(prefix@.len() as int),
{
    let v = chars_of(s);
    let p = chars_of(prefix);
    if matches_at(&v, &p, 0) {
        proof {
            assert(v@.subrange(p@.len() as int, v@.len() as int) =~= s@.skip(p@.len() as int));
        }
        Some(string_of(&v, p.len(), v.len()))
    } else {
        None
    }
}

// ---------------------------------------------------------------------
// Replacing
// ---------------------------------------------------------------------

/// `s[at..]` with every non-overlapping `from`, taken left to right, dropped.
pub open spec fn without_from(s: Seq<char>, from: Seq<char>, at: int) -> Seq<char>
    decreases s.len() - at,
{
    if at < 0 || at >= s.len() || from.len() == 0 {
        Seq::empty()
    } else if occurs_at(s, from, at) {
        without_from(s, from, at + from.len())
    } else {
        seq![s[at]] + without_from(s, from, at + 1)
    }
}

/// `s` with every non-overlapping `from` dropped.
pub fn remove_all(s: &str, from: &str) -> (r: String)
    requires
        from@.len() > 0,
    ensures
        r@ == without_from(s@, from@, 0),
{
    let v = chars_of(s);
    let f = chars_of(from);
    let mut out = String::new();
    let mut at: usize = 0;
    while at < v.len()
        invariant
            at <= v@.len(),
            f@.len() > 0,
            out@ + without_from(v@, f@, at as int) == without_from(v@, f@, 0),
        decreases v@.len() - at,
    {
        if matches_at(&v, &f, at) {
            at = at + f.len();
        } else {
            let ghost before = out@;
            out.push(v[at]);
            at = at + 1;
            proof {
                let rest = without_from(v@, f@, at as int);
                assert(before.push(v@[at - 1]) + rest =~= before + (seq![v@[at - 1]] + rest));
            }
        }
    }
    proof {
        assert(out@ + Seq::<char>::empty() =~= out@);
    }
    out
}

// ---------------------------------------------------------------------
// Joining and splitting
// ---------------------------------------------------------------------

/// The views of a list of strings.
pub open spec fn views(parts: Seq<String>) -> Seq<Seq<char>> {
    parts.map_values(|p: String| p@)
}

/// `parts` with `sep` between neighbours.
pub open spec fn joined(parts: Seq<Seq<char>>, sep: Seq<char>) -> Seq<char>
    decreases parts.len(),
{
    if parts.len() == 0 {
        Seq::empty()
    } else if parts.len() == 1 {
        parts[0]
    } else {
        joined(parts.drop_last(), sep) + sep + parts.last()
    }
}

/// `parts` with `sep` between neighbours.
pub fn join(parts: &[String], sep: &str) -> (r: String)
    ensures
        r@ == joined(views(parts@), sep@),
{
    let mut out = String::new();
    let mut i: usize = 0;
    while i < parts.len()
        invariant
            i <= parts@.len(),
            out@ == joined(views(parts@).take(i as int), sep@),
        decreases parts@.len() - i,
    {
        let ghost before = views(parts@).take(i as int);
        if i > 0 {
            out.append(sep);
        }
        out.append(parts[i].as_str());
        i = i + 1;
        proof {
            let now = views(parts@).take(i as int);
            assert(now.drop_last() =~= before);
            assert(now.last() == parts@[i - 1]@);
            if i == 1 {
                assert(Seq::<char>::empty() + now[0] =~= now[0]);
            }
        }
    }
    proof {
        assert(views(parts@).take(parts@.len() as int) =~= views(parts@));
    }
    out
}

/// A copy of a list of strings.
pub fn copy_all(parts: &[String]) -> (r: Vec<String>)
    ensures
        r@ == parts@,
{
    let mut out: Vec<String> = Vec::new();
    let mut i: usize = 0;
    while i < parts.len()
        invariant
            i <= parts@.len(),
            out@ == parts@.take(i as int),
        decreases parts@.len() - i,
    {
        out.push(parts[i].clone());
        i = i + 1;
        proof {
            assert(parts@.take(i as int) =~= parts@.take(i as int - 1).push(parts@[i as int - 1]));
        }
    }
    proof {
        assert(parts@.take(parts@.len() as int) =~= parts@);
    }
    out
}

/// Whether `item` is one of `parts`.
pub fn one_of(parts: &[String], item: &str) -> (r: bool)
    ensures
        r == views(parts@).contains(item@),
{
    let mut i: usize = 0;
    while i < parts.len()
        invariant
            i <= parts@.len(),
            forall|k: int| 0 <= k < i ==> #[trigger] views(parts@)[k] != item@,
        decreases parts@.len() - i,
    {
        if same(parts[i].as_str(), item) {
            proof {
                assert(views(parts@)[i as int] == item@);
            }
            return true;
        }
        proof {
            assert(views(parts@)[i as int] == parts@[i as int]@);
        }
        i = i + 1;
    }
    false
}

/// The white-space separated words of `s[at..]`, with `word` already begun.
pub open spec fn words_from(s: Seq<char>, at: int, word: Seq<char>) -> Seq<Seq<char>>
    decreases s.len() - at,
{
    if at < 0 || at >= s.len() {
        if word.len() > 0 {
            seq![word]
        } else {
            Seq::empty()
        }
    } else if is_space(s[at]) {
        if word.len() > 0 {
            seq![word] + words_from(s, at + 1, Seq::empty())
        } else {
            words_from(s, at + 1, Seq::empty())
        }
    } else {
        words_from(s, at + 1, word.push(s[at]))
    }
}

/// The white-space separated words of `s`.
pub open spec fn words(s: Seq<char>) -> Seq<Seq<char>> {
    words_from(s, 0, Seq::empty())
}

/// The white-space separated words of `s`.
pub fn split_words(s: &str) -> (r: Vec<String>)
    ensures
        views(r@) == words(s@),
{
    let v = chars_of(s);
    let mut out: Vec<String> = Vec::new();
    let mut word = String::new();
    let mut at: usize = 0;
    while at < v.len()
        invariant
            at <= v@.len(),
            views(out@) + words_from(v@, at as int, word@) == words(v@),
        decreases v@.len() - at,
    {
        let c = v[at];
        let ghost rest = words_from(v@, at as int + 1, Seq::empty());
        let ghost before = views(out@);
        if is_white(c) {
            if !word.as_str().is_empty() {
                let ghost done = word@;
                out.push(word);
                word = String::new();
                proof {
                    assert(views(out@) =~= before.push(done));
                    assert(before.push(done) + rest =~= before + (seq![done] + rest));
                }
            } else {
                proof {
                    assert(word@ =~= Seq::<char>::empty());
                }
            }
        } else {
            word.push(c);
        }
        at = at + 1;
    }
    if !word.as_str().is_empty() {
        let ghost before = views(out@);
        let ghost done = word@;
        out.push(word);
        proof {
            assert(views(out@) =~= before.push(done));
            assert(before.push(done) =~= before + seq![done]);
        }
    } else {
        proof {
            assert(views(out@) + Seq::<Seq<char>>::empty() =~= views(out@));
        }
    }
    out
}

// ---------------------------------------------------------------------
// Numbers
// ---------------------------------------------------------------------

/// The character of a decimal digit.
pub open spec fn digit(d: int) -> char {
    if d == 0 {
        '0'
    } else if d == 1 {
        '1'
    } else if d == 2 {
        '2'
    } else if d == 3 {
        '3'
    } else if d == 4 {
        '4'
    } else if d == 5 {
        '5'
    } else if d == 6 {
        '6'
    } else if d == 7 {
        '7'
    } else if d == 8 {
        '8'
    } else {
        '9'
    }
}

/// `n` in base `base`, most significant digit first, no leading zeros.
pub open spec fn in_base(n: nat, base: nat) -> Seq<char>
    decreases n,
{
    if n < base || base < 2 {
        seq![digit(n as int)]
    } else {
        proof {
            assert(n / base < n) by (nonlinear_arith)
                requires
                    n >= base,
                    base >= 2,
            ;
        }
        in_base(n / base, base).push(digit((n % base) as int))
    }
}

/// `n` in decimal.
pub open spec fn dec(n: int) -> Seq<char> {
    if n < 0 {
        seq!['-'] + in_base((-n) as nat, 10)
    } else {
        in_base(n as nat, 10)
    }
}

fn digit_char(d: u64) -> (c: char)
    requires
        d < 10,
    ensures
        c == digit(d as int),
{
    if d == 0 {
        '0'
    } else if d == 1 {
        '1'
    } else if d == 2 {
        '2'
    } else if d == 3 {
        '3'
    } else if d == 4 {
        '4'
    } else if d == 5 {
        '5'
    } else if d == 6 {
        '6'
    } else if d == 7 {
        '7'
    } else if d == 8 {
        '8'
    } else {
        '9'
    }
}

fn push_in_base(out: &mut String, n: u128, base: u128)
    requires
        2 <= base <= 10,
    ensures
        final(out)@ == old(out)@ + in_base(n as nat, base as nat),
    decreases n,
{
    let ghost start = out@;
    if n < base {
        out.push(digit_char(n as u64));
        proof {
            assert(start.push(digit(n as int)) =~= start + seq![digit(n as int)]);
        }
    } else {
        proof {
            assert(n / base < n) by (nonlinear_arith)
                requires
                    n >= base,
                    base >= 2,
            ;
            assert(n % base < base) by (nonlinear_arith)
                requires
                    base >= 2,
            ;
        }
        push_in_base(out, n / base, base);
        out.push(digit_char((n % base) as u64));
        proof {
            let head = in_base((n / base) as nat, base as nat);
            let d = digit((n % base) as int);
            assert((start + head).push(d) =~= start + head.push(d));
        }
    }
}

/// `n` in decimal.
pub fn dec_u128(n: u128) -> (r: String)
    ensures
        r@ == dec(n as int),
{
    let mut out = String::new();
    push_in_base(&mut out, n, 10);
    proof {
        assert(Seq::<char>::empty() + in_base(n as nat, 10) =~= in_base(n as nat, 10));
    }
    out
}

/// `n` in decimal.
pub fn dec_u64(n: u64) -> (r: String)
    ensures
        r@ == dec(n as int),
{
    dec_u128(n as u128)
}

/// `n` in decimal.
pub fn dec_usize(n: usize) -> (r: String)
    ensures
        r@ == dec(n as int),
{
    dec_u64(n as u64)
}

/// `n` in decimal.
pub fn dec_i64(n: i64) -> (r: String)
    ensures
        r@ == dec(n as int),
{
    let mut out = String::new();
    if n < 0 {
        out.push('-');
        let magnitude: u64 = if n == i64::MIN {
            0x8000_0000_0000_0000u64
        } else {
            (-n) as u64
        };
        push_in_base(&mut out, magnitude as u128, 10);
        proof {
            assert(Seq::<char>::empty().push('-') =~= seq!['-']);
        }
    } else {
        push_in_base(&mut out, n as u128, 10);
        proof {
            assert(Seq::<char>::empty() + in_base(n as nat, 10) =~= in_base(n as nat, 10));
        }
    }
    out
}

/// `n` in octal.
pub fn octal_u64(n: u64) -> (r: String)
    ensures
        r@ == in_base(n as nat, 8),
{
    let mut out = String::new();
    push_in_base(&mut out, n as u128, 8);
    proof {
        assert(Seq::<char>::empty() + in_base(n as nat, 8) =~= in_base(n as nat, 8));
    }
    out
}

// ---------------------------------------------------------------------
// Bytes
// ---------------------------------------------------------------------

/// How many bytes `s` takes in UTF-8.
pub open spec fn byte_len(s: Seq<char>) -> nat {
    encode_utf8(s).len()
}

/// The longest prefix of `s` that takes at most `max` bytes.
pub open spec fn fitting(s: Seq<char>, max: nat) -> Seq<char>
    decreases s.len(),
{
    if s.len() == 0 || byte_len(s) <= max {
        s
    } else {
        fitting(s.drop_last(), max)
    }
}

/// Encoding distributes over concatenation.
pub proof fn lemma_encode_concat(a: Seq<char>, b: Seq<char>)
    ensures
        encode_utf8(a + b) == encode_utf8(a) + encode_utf8(b),
    decreases a.len(),
{
    if a.len() == 0 {
        assert(a + b =~= b);
        assert(encode_utf8(a) + encode_utf8(b) =~= encode_utf8(b));
    } else {
        let h = encode_scalar(a[0] as u32);
        lemma_encode_concat(a.drop_first(), b);
        assert((a + b).drop_first() =~= a.drop_first() + b);
        assert((a + b)[0] == a[0]);
        assert(h + (encode_utf8(a.drop_first()) + encode_utf8(b)) =~= (h + encode_utf8(
            a.drop_first(),
        )) + encode_utf8(b));
    }
}

/// How many bytes `s` takes in UTF-8.
pub fn byte_count(s: &str) -> (n: usize)
    ensures
        n == byte_len(s@),
{
    s.as_bytes().len()
}

proof fn lemma_one_char(c: char)
    ensures
        byte_len(seq![c]) == encode_scalar(c as u32).len(),
{
    let one = seq![c];
    assert(one.drop_first() =~= Seq::<char>::empty());
    assert(encode_utf8(one.drop_first()) =~= Seq::<u8>::empty());
    assert(encode_scalar(c as u32) + Seq::<u8>::empty() =~= encode_scalar(c as u32));
}

/// A character takes between one and four bytes.
pub proof fn lemma_byte_len_push(s: Seq<char>, c: char)
    ensures
        byte_len(s.push(c)) == byte_len(s) + encode_scalar(c as u32).len(),
        1 <= encode_scalar(c as u32).len() <= 4,
{
    lemma_encode_concat(s, seq![c]);
    assert(s + seq![c] =~= s.push(c));
    lemma_one_char(c);
}

/// A prefix never takes more bytes than the whole.
pub proof fn lemma_prefix_bytes(s: Seq<char>, i: int)
    requires
        0 <= i <= s.len(),
    ensures
        byte_len(s.take(i)) <= byte_len(s),
{
    lemma_encode_concat(s.take(i), s.skip(i));
    assert(s.take(i) + s.skip(i) =~= s);
}

proof fn lemma_fitting_is(s: Seq<char>, max: nat, i: int)
    requires
        0 <= i <= s.len(),
        byte_len(s.take(i)) <= max,
        i < s.len() ==> byte_len(s.take(i + 1)) > max,
    ensures
        fitting(s, max) == s.take(i),
    decreases s.len(),
{
    if i == s.len() {
        assert(s.take(i) =~= s);
    } else {
        lemma_prefix_bytes(s, i + 1);
        let d = s.drop_last();
        assert(d.take(i) =~= s.take(i));
        if i < d.len() {
            assert(d.take(i + 1) =~= s.take(i + 1));
        }
        lemma_fitting_is(d, max, i);
    }
}

/// What fits is a prefix within the limit, and one more character would not
/// be.
pub proof fn fitting_is_the_longest_prefix(s: Seq<char>, max: nat)
    ensures
        fitting(s, max).len() <= s.len(),
        fitting(s, max) == s.take(fitting(s, max).len() as int),
        byte_len(fitting(s, max)) <= max,
        fitting(s, max).len() < s.len() ==> byte_len(
            s.take(fitting(s, max).len() as int + 1),
        ) > max,
    decreases s.len(),
{
    if s.len() == 0 {
        assert(s.take(0) =~= s);
        assert(encode_utf8(s) =~= Seq::<u8>::empty());
    } else if byte_len(s) <= max {
        assert(s.take(s.len() as int) =~= s);
    } else {
        let d = s.drop_last();
        fitting_is_the_longest_prefix(d, max);
        let n = fitting(d, max).len() as int;
        assert(d.take(n) =~= s.take(n));
        if n < d.len() {
            assert(d.take(n + 1) =~= s.take(n + 1));
        } else {
            assert(s.take(n + 1) =~= s);
        }
    }
}

fn char_width(c: char) -> (n: usize)
    ensures
        n == encode_scalar(c as u32).len(),
{
    let u = c as u32;
    if u <= 0x7F {
        1
    } else if u <= 0x7FF {
        2
    } else if u <= 0xFFFF {
        3
    } else {
        4
    }
}

/// The longest prefix of `s` that takes at most `max` bytes.
pub fn fit(s: &str, max: usize) -> (r: String)
    ensures
        r@ == fitting(s@, max as nat),
{
    let v = chars_of(s);
    let mut i: usize = 0;
    let mut used: usize = 0;
    proof {
        assert(v@.take(0) =~= Seq::<char>::empty());
        assert(encode_utf8(Seq::<char>::empty()) =~= Seq::<u8>::empty());
    }
    while i < v.len()
        invariant
            i <= v@.len(),
            v@ == s@,
            used == byte_len(v@.take(i as int)),
            used <= max,
        decreases v@.len() - i,
    {
        let w = char_width(v[i]);
        proof {
            lemma_byte_len_push(v@.take(i as int), v@[i as int]);
            assert(v@.take(i as int).push(v@[i as int]) =~= v@.take(i as int + 1));
        }
        if w > max - used {
            proof {
                lemma_fitting_is(v@, max as nat, i as int);
                assert(v@.subrange(0, i as int) =~= v@.take(i as int));
            }
            return string_of(&v, 0, i);
        }
        used = used + w;
        i = i + 1;
    }
    proof {
        lemma_fitting_is(v@, max as nat, i as int);
        assert(v@.subrange(0, i as int) =~= v@.take(i as int));
    }
    string_of(&v, 0, i)
}

// ---------------------------------------------------------------------
// Layout
// ---------------------------------------------------------------------

/// `n` spaces.
pub open spec fn spaces(n: int) -> Seq<char> {
    Seq::new(if n > 0 { n as nat } else { 0 }, |i: int| ' ')
}

/// `s` with spaces after it up to `width` characters.
pub open spec fn padded(s: Seq<char>, width: int) -> Seq<char> {
    s + spaces(width - s.len())
}

/// `s` with spaces after it up to `width` characters.
pub fn pad(s: &str, width: usize) -> (r: String)
    ensures
        r@ == padded(s@, width as int),
{
    let mut out = s.to_owned();
    let mut n: usize = s.unicode_len();
    let ghost start = s@.len() as int;
    while n < width
        invariant
            start <= n,
            n == start || n <= width,
            start == s@.len(),
            out@ == s@ + spaces(n - start),
        decreases width - n,
    {
        out.push(' ');
        n = n + 1;
        proof {
            assert(out@ =~= s@ + spaces(n - start));
        }
    }
    proof {
        assert(spaces(n - start) =~= spaces(width - start));
    }
    out
}

// ---------------------------------------------------------------------
// Lines
// ---------------------------------------------------------------------

/// A line without the carriage return that closed it.
pub open spec fn without_return(line: Seq<char>) -> Seq<char> {
    if line.len() > 0 && line.last() == '\r' {
        line.drop_last()
    } else {
        line
    }
}

/// The lines of `s[at..]` with `line` already begun. A line ends at `\n`
/// (or `\r\n`); an unterminated tail is a line when it is not empty.
pub open spec fn lines_from(s: Seq<char>, at: int, line: Seq<char>) -> Seq<Seq<char>>
    decreases s.len() - at,
{
    if at < 0 || at >= s.len() {
        if line.len() > 0 {
            seq![line]
        } else {
            Seq::empty()
        }
    } else if s[at] == '\n' {
        seq![without_return(line)] + lines_from(s, at + 1, Seq::empty())
    } else {
        lines_from(s, at + 1, line.push(s[at]))
    }
}

/// The lines of `s`.
pub open spec fn lines_of(s: Seq<char>) -> Seq<Seq<char>> {
    lines_from(s, 0, Seq::empty())
}

/// The lines of `s`.
pub fn split_lines(s: &str) -> (r: Vec<String>)
    ensures
        views(r@) == lines_of(s@),
{
    let v = chars_of(s);
    let mut out: Vec<String> = Vec::new();
    let mut begin: usize = 0;
    let mut at: usize = 0;
    proof {
        assert(v@.subrange(0, 0) =~= Seq::<char>::empty());
        assert(views(out@) + lines_of(v@) =~= lines_of(v@));
    }
    while at < v.len()
        invariant
            begin <= at <= v@.len(),
            views(out@) + lines_from(v@, at as int, v@.subrange(begin as int, at as int))
                == lines_of(v@),
        decreases v@.len() - at,
    {
        let ghost before = views(out@);
        let ghost line = v@.subrange(begin as int, at as int);
        if v[at] == '\n' {
            let end: usize = if at > begin && v[at - 1] == '\r' {
                at - 1
            } else {
                at
            };
            out.push(string_of(&v, begin, end));
            begin = at + 1;
            proof {
                let done = v@.subrange(begin_of(line, at as int), end as int);
                assert(without_return(line) =~= done);
                assert(views(out@) =~= before.push(done));
                let rest = lines_from(v@, at as int + 1, Seq::empty());
                assert(before.push(done) + rest =~= before + (seq![done] + rest));
                assert(v@.subrange(begin as int, at as int + 1) =~= Seq::<char>::empty());
            }
        } else {
            proof {
                assert(v@.subrange(begin as int, at as int + 1) =~= line.push(v@[at as int]));
            }
        }
        at = at + 1;
    }
    if begin < at {
        let ghost before = views(out@);
        out.push(string_of(&v, begin, at));
        proof {
            let done = v@.subrange(begin as int, at as int);
            assert(views(out@) =~= before + seq![done]);
        }
    } else {
        proof {
            assert(v@.subrange(begin as int, at as int).len() == 0);
            assert(views(out@) + Seq::<Seq<char>>::empty() =~= views(out@));
        }
    }
    out
}

spec fn begin_of(line: Seq<char>, at: int) -> int {
    at - line.len()
}

// ---------------------------------------------------------------------
// Order
// ---------------------------------------------------------------------

/// Dictionary order by code point.
pub open spec fn before_or_same(a: Seq<char>, b: Seq<char>) -> bool
    decreases a.len(),
{
    if a.len() == 0 {
        true
    } else if b.len() == 0 {
        false
    } else if a[0] != b[0] {
        a[0] < b[0]
    } else {
        before_or_same(a.skip(1), b.skip(1))
    }
}

/// Whether `parts` is in dictionary order.
pub open spec fn in_order(parts: Seq<Seq<char>>) -> bool {
    forall|i: int, j: int|
        0 <= i <= j < parts.len() ==> before_or_same(#[trigger] parts[i], #[trigger] parts[j])
}

proof fn lemma_order_total(a: Seq<char>, b: Seq<char>)
    ensures
        before_or_same(a, b) || before_or_same(b, a),
    decreases a.len(),
{
    if a.len() > 0 && b.len() > 0 && a[0] == b[0] {
        lemma_order_total(a.skip(1), b.skip(1));
    }
}

proof fn lemma_order_transitive(a: Seq<char>, b: Seq<char>, c: Seq<char>)
    requires
        before_or_same(a, b),
        before_or_same(b, c),
    ensures
        before_or_same(a, c),
    decreases a.len(),
{
    if a.len() > 0 && b.len() > 0 && c.len() > 0 && a[0] == b[0] && b[0] == c[0] {
        lemma_order_transitive(a.skip(1), b.skip(1), c.skip(1));
    }
}

proof fn lemma_order_reflexive(a: Seq<char>)
    ensures
        before_or_same(a, a),
    decreases a.len(),
{
    if a.len() > 0 {
        lemma_order_reflexive(a.skip(1));
    }
}

/// Whether `a` stands before `b` in dictionary order, or is the same.
pub fn at_or_before(a: &str, b: &str) -> (r: bool)
    ensures
        r == before_or_same(a@, b@),
{
    let x = chars_of(a);
    let y = chars_of(b);
    let mut i: usize = 0;
    proof {
        assert(x@.skip(0) =~= x@);
        assert(y@.skip(0) =~= y@);
    }
    while i < x.len() && i < y.len()
        invariant
            x@ == a@,
            y@ == b@,
            i <= x@.len(),
            i <= y@.len(),
            before_or_same(x@, y@) == before_or_same(x@.skip(i as int), y@.skip(i as int)),
        decreases x@.len() - i,
    {
        let p = x[i];
        let q = y[i];
        proof {
            assert(x@.skip(i as int).skip(1) =~= x@.skip(i as int + 1));
            assert(y@.skip(i as int).skip(1) =~= y@.skip(i as int + 1));
        }
        if p != q {
            return p < q;
        }
        i = i + 1;
    }
    i >= x.len()
}

proof fn lemma_insert_keeps_order(s: Seq<Seq<char>>, k: int, item: Seq<char>)
    requires
        in_order(s),
        0 <= k <= s.len(),
        forall|i: int| 0 <= i < k ==> before_or_same(#[trigger] s[i], item),
        forall|i: int| k <= i < s.len() ==> before_or_same(item, #[trigger] s[i]),
    ensures
        in_order(s.insert(k, item)),
{
    let t = s.insert(k, item);
    lemma_order_reflexive(item);
    assert forall|i: int, j: int| 0 <= i <= j < t.len() implies before_or_same(
        #[trigger] t[i],
        #[trigger] t[j],
    ) by {
        let i0 = if i < k { i } else { i - 1 };
        let j0 = if j < k { j } else { j - 1 };
        if i != k {
            assert(t[i] == s[i0]);
        }
        if j != k {
            assert(t[j] == s[j0]);
        }
    }
}

/// The names in `names`, each once, in dictionary order.
pub fn sorted_unique(names: &Vec<String>) -> (r: Vec<String>)
    ensures
        in_order(views(r@)),
        views(r@).no_duplicates(),
        forall|n: Seq<char>| #[trigger]
            views(r@).contains(n) <==> views(names@).contains(n),
{
    let mut out: Vec<String> = Vec::new();
    let mut at: usize = 0;
    while at < names.len()
        invariant
            at <= names@.len(),
            in_order(views(out@)),
            views(out@).no_duplicates(),
            forall|n: Seq<char>| #[trigger]
                views(out@).contains(n) <==> views(names@).take(at as int).contains(n),
        decreases names@.len() - at,
    {
        let item = &names[at];
        let ghost before = views(out@);
        let ghost done = views(names@).take(at as int);
        let ghost grown = views(names@).take(at as int + 1);
        let mut k: usize = 0;
        while k < out.len() && !at_or_before(item.as_str(), out[k].as_str())
            invariant
                k <= out@.len(),
                before == views(out@),
                forall|i: int| 0 <= i < k ==> !before_or_same(item@, #[trigger] before[i]),
            decreases out@.len() - k,
        {
            k = k + 1;
        }
        proof {
            assert(grown =~= done.push(item@));
            assert forall|i: int| 0 <= i < k implies before_or_same(
                #[trigger] before[i],
                item@,
            ) by {
                lemma_order_total(item@, before[i]);
            }
            assert forall|i: int| k <= i < before.len() implies before_or_same(
                item@,
                #[trigger] before[i],
            ) by {
                lemma_order_transitive(item@, before[k as int], before[i]);
            }
            assert forall|n: Seq<char>| grown.contains(n) <==> done.contains(n) || n == item@ by {
                if done.contains(n) {
                    let i = choose|i: int| 0 <= i < done.len() && done[i] == n;
                    assert(grown[i] == n);
                }
                if n == item@ {
                    assert(grown[done.len() as int] == n);
                }
                if grown.contains(n) && n != item@ {
                    let i = choose|i: int| 0 <= i < grown.len() && grown[i] == n;
                    assert(done[i] == n);
                }
            }
        }
        let already = k < out.len() && same(out[k].as_str(), item.as_str());
        if !already {
            out.insert(k, item.clone());
            proof {
                let after = views(out@);
                assert(after =~= before.insert(k as int, item@));
                lemma_insert_keeps_order(before, k as int, item@);
                assert forall|i: int| 0 <= i < before.len() implies #[trigger] before[i]
                    != item@ by {
                    lemma_order_reflexive(item@);
                    if i > k {
                        if before[i] == item@ {
                            lemma_order_antisymmetric(item@, before[k as int]);
                        }
                    }
                }
                assert forall|i: int, j: int| 0 <= i < j < after.len() implies after[i]
                    != after[j] by {
                    let i0 = if i < k { i } else { i - 1 };
                    let j0 = if j < k { j } else { j - 1 };
                    if i != k {
                        assert(after[i] == before[i0]);
                    }
                    if j != k {
                        assert(after[j] == before[j0]);
                    }
                }
                assert forall|n: Seq<char>| #[trigger]
                    after.contains(n) <==> grown.contains(n) by {
                    if after.contains(n) && n != item@ {
                        let i = choose|i: int| 0 <= i < after.len() && after[i] == n;
                        let i0 = if i < k { i } else { i - 1 };
                        assert(before[i0] == n);
                        assert(before.contains(n));
                    }
                    if before.contains(n) {
                        let i = choose|i: int| 0 <= i < before.len() && before[i] == n;
                        let i0 = if i < k { i } else { i + 1 };
                        assert(after[i0] == n);
                    }
                    assert(after[k as int] == item@);
                }
            }
        } else {
            proof {
                assert(before[k as int] == item@);
                assert(before.contains(item@));
            }
        }
        at = at + 1;
    }
    proof {
        assert(views(names@).take(names@.len() as int) =~= views(names@));
    }
    out
}

proof fn lemma_order_antisymmetric(a: Seq<char>, b: Seq<char>)
    requires
        before_or_same(a, b),
        before_or_same(b, a),
    ensures
        a == b,
    decreases a.len(),
{
    if a.len() > 0 && b.len() > 0 {
        lemma_order_antisymmetric(a.skip(1), b.skip(1));
        assert(a =~= seq![a[0]] + a.skip(1));
        assert(b =~= seq![b[0]] + b.skip(1));
    } else {
        assert(a =~= b);
    }
}

/// A text made of three parts holds the middle one.
pub proof fn lemma_holds_part(
    whole: Seq<char>,
    before: Seq<char>,
    part: Seq<char>,
    after: Seq<char>,
)
    requires
        whole == before + part + after,
    ensures
        holds_text(whole, part),
{
    assert(whole.subrange(before.len() as int, (before.len() + part.len()) as int) =~= part);
    assert(occurs_at(whole, part, before.len() as int));
}

/// A text holds what its beginning holds.
pub proof fn lemma_holds_more(s: Seq<char>, part: Seq<char>, more: Seq<char>)
    requires
        holds_text(s, part),
    ensures
        holds_text(s + more, part),
{
    let at = choose|at: int| #[trigger] occurs_at(s, part, at);
    assert((s + more).subrange(at, at + part.len()) =~= s.subrange(at, at + part.len()));
    assert(occurs_at(s + more, part, at));
}

/// Two texts end to end: the first is how they begin, the second how they end.
pub proof fn lemma_ends(a: Seq<char>, b: Seq<char>)
    ensures
        has_prefix(a + b, a),
        has_suffix(a + b, b),
{
    assert((a + b).subrange(0, a.len() as int) =~= a);
    assert((a + b).subrange((a + b).len() - b.len(), (a + b).len() as int) =~= b);
}

/// What is held by a part is held by the whole.
pub proof fn lemma_holds_through(whole: Seq<char>, part: Seq<char>, inner: Seq<char>)
    requires
        holds_text(whole, part),
        holds_text(part, inner),
    ensures
        holds_text(whole, inner),
{
    let p = choose|at: int| #[trigger] occurs_at(whole, part, at);
    let q = choose|at: int| #[trigger] occurs_at(part, inner, at);
    assert(whole.subrange(p + q, p + q + inner.len()) =~= whole.subrange(
        p,
        p + part.len(),
    ).subrange(q, q + inner.len()));
    assert(occurs_at(whole, inner, p + q));
}

/// Every part is in what is joined of them.
pub proof fn lemma_joined_holds(parts: Seq<Seq<char>>, sep: Seq<char>, i: int)
    requires
        0 <= i < parts.len(),
    ensures
        holds_text(joined(parts, sep), parts[i]),
    decreases parts.len(),
{
    let none = Seq::<char>::empty();
    if parts.len() == 1 {
        assert(parts[0] =~= none + parts[0] + none);
        lemma_holds_part(parts[0], none, parts[0], none);
    } else {
        let head = joined(parts.drop_last(), sep);
        if i < parts.len() - 1 {
            lemma_joined_holds(parts.drop_last(), sep, i);
            lemma_holds_more(head, parts[i], sep);
            lemma_holds_more(head + sep, parts[i], parts.last());
        } else {
            assert(joined(parts, sep) =~= (head + sep) + parts.last() + none);
            lemma_holds_part(joined(parts, sep), head + sep, parts.last(), none);
        }
    }
}

/// What stands behind another text may be appended in one piece or in two.
pub proof fn lemma_in_two(a: Seq<char>, b: Seq<char>, c: Seq<char>)
    ensures
        a + b + c == a + (b + c),
{
    assert(a + b + c =~= a + (b + c));
}

/// What is appended is held.
pub proof fn lemma_holds_last(a: Seq<char>, b: Seq<char>)
    ensures
        holds_text(a + b, b),
{
    let none = Seq::<char>::empty();
    assert(a + b =~= a + b + none);
    lemma_holds_part(a + b, a, b, none);
}

// ---------------------------------------------------------------------
// Laws of texts
// ---------------------------------------------------------------------

proof fn lemma_blank_in_front(a: Seq<char>, t: Seq<char>)
    requires
        is_blank_text(a),
    ensures
        trimmed_start(a + t) == trimmed_start(t),
    decreases a.len(),
{
    if a.len() > 0 {
        let rest = a.skip(1);
        assert forall|i: int| 0 <= i < rest.len() implies is_space(#[trigger] rest[i]) by {
            assert(is_space(a[i + 1]));
        }
        lemma_blank_in_front(rest, t);
        assert(is_space(a[0]));
        assert((a + t)[0] == a[0]);
        assert((a + t).skip(1) =~= rest + t);
    } else {
        assert(a + t =~= t);
    }
}

proof fn lemma_blank_behind(t: Seq<char>, b: Seq<char>)
    requires
        is_blank_text(b),
    ensures
        trimmed_end(t + b) == trimmed_end(t),
    decreases b.len(),
{
    if b.len() > 0 {
        let rest = b.drop_last();
        assert forall|i: int| 0 <= i < rest.len() implies is_space(#[trigger] rest[i]) by {
            assert(is_space(b[i]));
        }
        lemma_blank_behind(t, rest);
        assert(is_space(b[b.len() - 1]));
        assert((t + b).last() == b.last());
        assert((t + b).drop_last() =~= t + rest);
    } else {
        assert(t + b =~= t);
    }
}

/// Trimming takes white space off both ends, all of it, and nothing else.
pub proof fn only_white_space_is_trimmed(a: Seq<char>, s: Seq<char>, b: Seq<char>)
    requires
        is_blank_text(a),
        is_blank_text(b),
        s.len() > 0,
        !is_space(s[0]),
        !is_space(s.last()),
    ensures
        trimmed(a + s + b) == s,
        trimmed_start(a + s + b) == s + b,
        trimmed_end(a + s + b) == a + s,
        is_space(' ') && is_space('\t') && is_space('\n') && is_space('\r'),
        forall|c: char| #![auto]
            ('a' <= c <= 'z' || 'A' <= c <= 'Z' || '0' <= c <= '9' || '!' <= c <= '~')
                ==> !is_space(c),
{
    assert(a + s + b =~= a + (s + b));
    lemma_blank_in_front(a, s + b);
    assert((s + b)[0] == s[0]);
    assert(trimmed_start(s + b) == s + b);
    lemma_blank_behind(s, b);
    assert(trimmed_end(s) == s);
    lemma_blank_behind(a + s, b);
    assert((a + s).last() == s.last());
    assert(trimmed_end(a + s) == a + s);
}

proof fn lemma_words_walk(s: Seq<char>, at: int, word: Seq<char>, to: int)
    requires
        0 <= at <= to <= s.len(),
        forall|i: int| at <= i < to ==> !is_space(#[trigger] s[i]),
    ensures
        words_from(s, at, word) == words_from(s, to, word + s.subrange(at, to)),
    decreases to - at,
{
    if at < to {
        assert(!is_space(s[at]));
        lemma_words_walk(s, at + 1, word.push(s[at]), to);
        assert(word.push(s[at]) + s.subrange(at + 1, to) =~= word + s.subrange(at, to));
    } else {
        assert(word + s.subrange(at, to) =~= word);
    }
}

proof fn lemma_words_shift(a: Seq<char>, b: Seq<char>, at: int, word: Seq<char>)
    requires
        0 <= at <= b.len(),
    ensures
        words_from(a + b, a.len() + at, word) == words_from(b, at, word),
    decreases b.len() - at,
{
    let s = a + b;
    if at < b.len() {
        assert(s[a.len() + at] == b[at]);
        if is_space(b[at]) {
            lemma_words_shift(a, b, at + 1, Seq::empty());
        } else {
            lemma_words_shift(a, b, at + 1, word.push(b[at]));
        }
    }
}

/// A text is split at white space: a word in front of white space is the first
/// one, what follows is split likewise, and a text without white space is one
/// word.
pub proof fn white_space_parts_words(word: Seq<char>, space: char, rest: Seq<char>)
    requires
        word.len() > 0,
        forall|i: int| 0 <= i < word.len() ==> !is_space(#[trigger] word[i]),
        is_space(space),
    ensures
        words(word) == seq![word],
        words(word + seq![space] + rest) == seq![word] + words(rest),
        words(seq![space] + rest) == words(rest),
{
    let none = Seq::<char>::empty();
    let n = word.len() as int;
    lemma_words_walk(word, 0, none, n);
    assert(none + word.subrange(0, n) =~= word);
    let head = word + seq![space];
    let s = head + rest;
    assert forall|i: int| 0 <= i < n implies !is_space(#[trigger] s[i]) by {
        assert(s[i] == word[i]);
    }
    lemma_words_walk(s, 0, none, n);
    assert(none + s.subrange(0, n) =~= word);
    assert(s[n] == space);
    lemma_words_shift(head, rest, 0, none);
    let t = seq![space] + rest;
    assert(t[0] == space);
    lemma_words_shift(seq![space], rest, 0, none);
}

proof fn lemma_lines_walk(s: Seq<char>, at: int, line: Seq<char>, to: int)
    requires
        0 <= at <= to <= s.len(),
        forall|i: int| at <= i < to ==> #[trigger] s[i] != '\n',
    ensures
        lines_from(s, at, line) == lines_from(s, to, line + s.subrange(at, to)),
    decreases to - at,
{
    if at < to {
        assert(s[at] != '\n');
        lemma_lines_walk(s, at + 1, line.push(s[at]), to);
        assert(line.push(s[at]) + s.subrange(at + 1, to) =~= line + s.subrange(at, to));
    } else {
        assert(line + s.subrange(at, to) =~= line);
    }
}

proof fn lemma_lines_shift(a: Seq<char>, b: Seq<char>, at: int, line: Seq<char>)
    requires
        0 <= at <= b.len(),
    ensures
        lines_from(a + b, a.len() + at, line) == lines_from(b, at, line),
    decreases b.len() - at,
{
    let s = a + b;
    if at < b.len() {
        assert(s[a.len() + at] == b[at]);
        if b[at] == '\n' {
            lemma_lines_shift(a, b, at + 1, Seq::empty());
        } else {
            lemma_lines_shift(a, b, at + 1, line.push(b[at]));
        }
    }
}

/// A text is split at newlines: what stands in front of one is the first line,
/// without the return it may end in, and what follows is split likewise. A text
/// that ends without a newline ends with its last line as it is.
pub proof fn newlines_part_lines(line: Seq<char>, rest: Seq<char>)
    requires
        !line.contains('\n'),
    ensures
        line.len() > 0 ==> lines_of(line) == seq![line],
        lines_of(line + seq!['\n'] + rest) == seq![without_return(line)] + lines_of(rest),
        without_return(line.push('\r')) == line,
        line.len() > 0 && line.last() != '\r' ==> without_return(line) == line,
        lines_of(Seq::empty()).len() == 0,
{
    let none = Seq::<char>::empty();
    let n = line.len() as int;
    assert forall|i: int| 0 <= i < n implies #[trigger] line[i] != '\n' by {
    }
    lemma_lines_walk(line, 0, none, n);
    assert(none + line.subrange(0, n) =~= line);
    let head = line + seq!['\n'];
    let s = head + rest;
    assert forall|i: int| 0 <= i < n implies #[trigger] s[i] != '\n' by {
        assert(s[i] == line[i]);
    }
    lemma_lines_walk(s, 0, none, n);
    assert(none + s.subrange(0, n) =~= line);
    assert(s[n] == '\n');
    lemma_lines_shift(head, rest, 0, none);
    assert(line.push('\r').drop_last() =~= line);
}

/// Padding adds spaces behind a text up to the width, and nothing to a text that
/// is as wide already.
pub proof fn padding_only_widens(s: Seq<char>, width: int)
    ensures
        has_prefix(padded(s, width), s),
        s.len() >= width ==> padded(s, width) == s,
        s.len() < width ==> padded(s, width).len() == width,
        forall|i: int|
            s.len() <= i < padded(s, width).len() ==> #[trigger] padded(s, width)[i] == ' ',
{
    lemma_ends(s, spaces(width - s.len()));
    if s.len() >= width {
        assert(padded(s, width) =~= s);
    }
}

/// What is negative has a sign in front of its digits, and nothing else does.
pub proof fn only_a_negative_number_has_a_sign(n: int)
    requires
        n > 0,
    ensures
        dec(-n) == seq!['-'] + dec(n),
        dec(n).len() > 0 && '0' <= dec(n)[0] <= '9',
        dec(0) == seq!['0'],
        n >= 10 ==> dec(n) == dec(n / 10).push(digit(n % 10)),
        n < 10 ==> dec(n) == seq![digit(n)],
{
    lemma_first_digit(n as nat);
}

proof fn lemma_first_digit(n: nat)
    ensures
        in_base(n, 10).len() > 0,
        '0' <= in_base(n, 10)[0] <= '9',
    decreases n,
{
    if n >= 10 {
        lemma_first_digit(n / 10);
    }
}

proof fn lemma_nothing_removed(s: Seq<char>, from: Seq<char>, at: int)
    requires
        from.len() > 0,
        0 <= at <= s.len(),
        forall|i: int| at <= i < s.len() ==> !#[trigger] occurs_at(s, from, i),
    ensures
        without_from(s, from, at) == s.skip(at),
    decreases s.len() - at,
{
    if at < s.len() {
        assert(!occurs_at(s, from, at));
        lemma_nothing_removed(s, from, at + 1);
        assert(seq![s[at]] + s.skip(at + 1) =~= s.skip(at));
    } else {
        assert(s.skip(at) =~= Seq::<char>::empty());
    }
}

/// Only what is to be removed is: a text that does not hold it stays as it is, and
/// where a text opens with it the rest is what is left of it.
pub proof fn only_the_needle_is_removed(s: Seq<char>, from: Seq<char>)
    requires
        from.len() > 0,
    ensures
        !holds_text(s, from) ==> without_from(s, from, 0) == s,
        has_prefix(s, from) ==> without_from(s, from, 0) == without_from(
            s,
            from,
            from.len() as int,
        ),
{
    if !holds_text(s, from) {
        lemma_nothing_removed(s, from, 0);
        assert(s.skip(0) =~= s);
    }
    if has_prefix(s, from) {
        assert(occurs_at(s, from, 0));
        assert(s.len() > 0);
    }
}

/// Dictionary order puts any two texts in one order and no two texts in both; a
/// text stands before whatever it begins, and otherwise the first letter decides.
pub proof fn texts_have_one_order(a: Seq<char>, b: Seq<char>, c: Seq<char>)
    ensures
        before_or_same(a, b) || before_or_same(b, a),
        before_or_same(a, b) && before_or_same(b, a) <==> a == b,
        before_or_same(a, b) && before_or_same(b, c) ==> before_or_same(a, c),
        before_or_same(a, a + b),
        a.len() > 0 && b.len() > 0 && a[0] < b[0] ==> before_or_same(a, b) && !before_or_same(b, a),
{
    lemma_order_total(a, b);
    lemma_order_reflexive(a);
    if before_or_same(a, b) && before_or_same(b, a) {
        lemma_order_antisymmetric(a, b);
    }
    if before_or_same(a, b) && before_or_same(b, c) {
        lemma_order_transitive(a, b, c);
    }
    lemma_before_longer(a, b);
}

proof fn lemma_before_longer(a: Seq<char>, b: Seq<char>)
    ensures
        before_or_same(a, a + b),
    decreases a.len(),
{
    if a.len() > 0 {
        lemma_before_longer(a.skip(1), b);
        assert((a + b).skip(1) =~= a.skip(1) + b);
    }
}

/// Texts that are joined keep their order, with the separator between any two and
/// nowhere else.
pub proof fn a_separator_stands_between(parts: Seq<Seq<char>>, sep: Seq<char>, last: Seq<char>)
    ensures
        joined(Seq::<Seq<char>>::empty(), sep).len() == 0,
        joined(seq![last], sep) == last,
        parts.len() > 0 ==> joined(parts.push(last), sep) == joined(parts, sep) + sep + last,
{
    assert(parts.push(last).drop_last() =~= parts);
}

} // verus!
