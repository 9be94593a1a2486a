//! Character and string helpers with exact specifications.
use vstd::prelude::*;

verus! {

/// Unicode `White_Space` code points, the set that `char::is_whitespace` tests.
pub open spec fn is_ws(c: char) -> bool {
    let u = c as u32;
    ||| 0x9 <= u <= 0xD
    ||| u == 0x20
    ||| u == 0x85
    ||| u == 0xA0
    ||| u == 0x1680
    ||| 0x2000 <= u <= 0x200A
    ||| u == 0x2028
    ||| u == 0x2029
    ||| u == 0x202F
    ||| u == 0x205F
    ||| u == 0x3000
}

pub fn char_is_whitespace(c: char) -> (b: bool)
    ensures
        b == is_ws(c),
{
    let u = c as u32;
    (0x9 <= u && u <= 0xD) || u == 0x20 || u == 0x85 || u == 0xA0 || u == 0x1680 || (0x2000
        <= u && u <= 0x200A) || u == 0x2028 || u == 0x2029 || u == 0x202F || u == 0x205F || u
        == 0x3000
}

/// A string is blank when every character is whitespace (so `trim()` is empty).
pub open spec fn is_blank(s: Seq<char>) -> bool {
    forall|i: int| 0 <= i < s.len() ==> #[trigger] is_ws(s[i])
}

pub open spec fn trim_start(s: Seq<char>) -> Seq<char>
    decreases s.len(),
{
    if s.len() > 0 && is_ws(s[0]) {
        trim_start(s.drop_first())
    } else {
        s
    }
}

pub open spec fn trim_end(s: Seq<char>) -> Seq<char>
    decreases s.len(),
{
    if s.len() > 0 && is_ws(s.last()) {
        trim_end(s.drop_last())
    } else {
        s
    }
}

/// `str::trim`: drop leading and trailing whitespace.
pub open spec fn trim(s: Seq<char>) -> Seq<char> {
    trim_end(trim_start(s))
}

pub open spec fn starts_with(s: Seq<char>, p: Seq<char>) -> bool {
    p.len() <= s.len() && s.subrange(0, p.len() as int) == p
}

pub open spec fn ends_with(s: Seq<char>, p: Seq<char>) -> bool {
    p.len() <= s.len() && s.subrange(s.len() - p.len(), s.len() as int) == p
}

pub open spec fn occurs_at(s: Seq<char>, p: Seq<char>, i: int) -> bool {
    0 <= i && i + p.len() <= s.len() && s.subrange(i, i + p.len()) == p
}

/// `str::contains` for a string pattern.
pub open spec fn contains(s: Seq<char>, p: Seq<char>) -> bool {
    exists|i: int| #[trigger] occurs_at(s, p, i)
}

pub open spec fn contains_char(s: Seq<char>, c: char) -> bool {
    exists|i: int| 0 <= i < s.len() && s[i] == c
}

/// `str::replace` with a non-empty pattern: leftmost, non-overlapping.
pub open spec fn replace_all(s: Seq<char>, from: Seq<char>, to: Seq<char>) -> Seq<char>
    decreases s.len(),
{
    if from.len() == 0 || s.len() == 0 {
        s
    } else if starts_with(s, from) {
        to + replace_all(s.subrange(from.len() as int, s.len() as int), from, to)
    } else {
        seq![s[0]] + replace_all(s.drop_first(), from, to)
    }
}

pub open spec fn ascii_lower_char(c: char) -> char {
    if 'A' <= c && c <= 'Z' {
        ((c as u32) + 32) as char
    } else {
        c
    }
}

/// `str::to_ascii_lowercase`.
pub open spec fn ascii_lower(s: Seq<char>) -> Seq<char> {
    s.map_values(|c: char| ascii_lower_char(c))
}

pub open spec fn is_ascii_digit(c: char) -> bool {
    '0' <= c && c <= '9'
}

pub open spec fn is_ascii_lower_letter(c: char) -> bool {
    'a' <= c && c <= 'z'
}

pub open spec fn is_ascii_alnum(c: char) -> bool {
    is_ascii_digit(c) || ('a' <= c && c <= 'z') || ('A' <= c && c <= 'Z')
}

/// What `str::to_lowercase` returns (full Unicode case mapping).
pub uninterp spec fn unicode_lowercase(s: Seq<char>) -> Seq<char>;

/// Every character is ASCII.
pub open spec fn is_ascii_text(s: Seq<char>) -> bool {
    forall|i: int| 0 <= i < s.len() ==> (#[trigger] s[i] as u32) < 128
}

/// Calls `str::to_lowercase`.  The result is named: it is the Unicode
/// lower-case mapping of the argument.  On ASCII text that mapping turns
/// `A`-`Z` into `a`-`z` and keeps every other character, as
/// `str::to_ascii_lowercase` does; nothing more is claimed of it.
#[verifier::external_body]
pub fn to_lowercase(s: &str) -> (r: String)
    ensures
        r@ == unicode_lowercase(s@),
        is_ascii_text(s@) ==> r@ == ascii_lower(s@),
{
    s.to_lowercase()
}

/// Calls `String::push`, which appends one character.
#[verifier::external_body]
pub fn push_char(s: &mut String, c: char)
    ensures
        final(s)@ == old(s)@.push(c),
{
    s.push(c)
}

/// Calls `String::push_str`, which appends a string slice.
#[verifier::external_body]
pub fn push_str(s: &mut String, t: &str)
    ensures
        final(s)@ == old(s)@ + t@,
{
    s.push_str(t)
}

/// The characters of the string, in order.
pub fn chars_of(s: &str) -> (v: Vec<char>)
    ensures
        v@ == s@,
{
    let mut v: Vec<char> = Vec::new();
    proof {
        vstd::string::axiom_spec_iter(s);
    }
    for c in it: s.chars()
        invariant
            v@ == it.seq().take(it.index() as int),
            it.seq() == s@,
    {
        v.push(c);
    }
    v
}

pub fn string_from(s: &str) -> (r: String)
    ensures
        r@ == s@,
{
    let mut out = String::new();
    push_str(&mut out, s);
    proof {
        assert(out@ =~= s@);
    }
    out
}

pub fn string_from_chars(v: &[char], start: usize, end: usize) -> (r: String)
    requires
        start <= end <= v@.len(),
    ensures
        r@ == v@.subrange(start as int, end as int),
{
    let mut out = String::new();
    let mut i = start;
    while i < end
        invariant
            start <= i <= end <= v@.len(),
            out@ == v@.subrange(start as int, i as int),
        decreases end - i,
    {
        push_char(&mut out, v[i]);
        i += 1;
        proof {
            assert(out@ =~= v@.subrange(start as int, i as int));
        }
    }
    out
}

pub fn is_blank_chars(v: &[char]) -> (b: bool)
    ensures
        b == is_blank(v@),
{
    let mut i: usize = 0;
    while i < v.len()
        invariant
            0 <= i <= v@.len(),
            forall|j: int| 0 <= j < i ==> #[trigger] is_ws(v@[j]),
        decreases v.len() - i,
    {
        if !char_is_whitespace(v[i]) {
            return false;
        }
        i += 1;
    }
    true
}

/// `value.trim().is_empty()`.
pub fn str_is_blank(s: &str) -> (b: bool)
    ensures
        b == is_blank(s@),
{
    let v = chars_of(s);
    is_blank_chars(v.as_slice())
}

proof fn lemma_trim_start_skip(s: Seq<char>, i: int)
    requires
        0 <= i < s.len(),
        is_ws(s[i]),
    ensures
        trim_start(s.subrange(i, s.len() as int)) == trim_start(s.subrange(i + 1, s.len() as int)),
{
    assert(s.subrange(i, s.len() as int).drop_first() =~= s.subrange(i + 1, s.len() as int));
}

proof fn lemma_trim_end_skip(s: Seq<char>, j: int)
    requires
        0 < j <= s.len(),
        is_ws(s[j - 1]),
    ensures
        trim_end(s.subrange(0, j)) == trim_end(s.subrange(0, j - 1)),
{
    assert(s.subrange(0, j).drop_last() =~= s.subrange(0, j - 1));
}

/// Bounds of `trim(s)` inside `s`.
pub fn trim_bounds(v: &[char]) -> (r: (usize, usize))
    ensures
        r.0 <= r.1 <= v@.len(),
        v@.subrange(r.0 as int, r.1 as int) == trim(v@),
{
    let len = v.len();
    let mut a: usize = 0;
    proof {
        assert(v@.subrange(0, len as int) =~= v@);
    }
    while a < len && char_is_whitespace(v[a])
        invariant
            a <= len == v@.len(),
            trim_start(v@.subrange(a as int, len as int)) == trim_start(v@),
        decreases len - a,
    {
        proof {
            lemma_trim_start_skip(v@, a as int);
        }
        a += 1;
    }
    let ghost ts = v@.subrange(a as int, len as int);
    assert(trim_start(ts) == ts);
    assert(trim_start(v@) == ts);
    let mut b: usize = len;
    proof {
        assert(ts.subrange(0, ts.len() as int) =~= ts);
    }
    while b > a && char_is_whitespace(v[b - 1])
        invariant
            a <= b <= len == v@.len(),
            ts == v@.subrange(a as int, len as int),
            trim_end(ts.subrange(0, b - a)) == trim_end(ts),
        decreases b - a,
    {
        proof {
            assert(ts[b - a - 1] == v@[b - 1]);
            lemma_trim_end_skip(ts, b - a);
        }
        b -= 1;
    }
    proof {
        let r = ts.subrange(0, b - a);
        assert(r =~= v@.subrange(a as int, b as int));
        if r.len() > 0 {
            assert(r.last() == v@[b - 1]);
        }
        assert(trim_end(r) == r);
    }
    (a, b)
}

/// `str::trim`, returning an owned string.
pub fn trim_string(s: &str) -> (r: String)
    ensures
        r@ == trim(s@),
{
    let v = chars_of(s);
    let (a, b) = trim_bounds(v.as_slice());
    string_from_chars(v.as_slice(), a, b)
}

pub fn chars_occur_at(s: &[char], p: &[char], i: usize) -> (b: bool)
    ensures
        b == occurs_at(s@, p@, i as int),
{
    if i > s.len() || p.len() > s.len() - i {
        return false;
    }
    let mut k: usize = 0;
    while k < p.len()
        invariant
            i + p@.len() <= s@.len(),
            0 <= k <= p@.len(),
            forall|j: int| 0 <= j < k ==> s@[i + j] == p@[j],
        decreases p.len() - k,
    {
        assert(i + k < s.len());
        if s[i + k] != p[k] {
            proof {
                assert(s@.subrange(i as int, i + p@.len())[k as int] != p@[k as int]);
            }
            return false;
        }
        k += 1;
    }
    proof {
        assert(s@.subrange(i as int, i + p@.len()) =~= p@);
    }
    true
}

pub fn chars_contains(s: &[char], p: &[char]) -> (b: bool)
    ensures
        b == contains(s@, p@),
{
    if p.len() > s.len() {
        proof {
            assert forall|i: int| !occurs_at(s@, p@, i) by {}
        }
        return false;
    }
    let n = s.len() - p.len();
    let mut i: usize = 0;
    loop
        invariant
            p@.len() <= s@.len(),
            n == s@.len() - p@.len(),
            0 <= i <= n,
            forall|j: int| 0 <= j < i ==> !#[trigger] occurs_at(s@, p@, j),
        ensures
            forall|j: int| 0 <= j <= n ==> !#[trigger] occurs_at(s@, p@, j),
        decreases n - i,
    {
        if chars_occur_at(s, p, i) {
            return true;
        }
        if i == n {
            break;
        }
        i += 1;
    }
    proof {
        assert forall|j: int| !#[trigger] occurs_at(s@, p@, j) by {
            if 0 <= j && j <= n {
            }
        }
    }
    false
}

/// `str::contains` with a string pattern.
pub fn str_contains(s: &str, p: &str) -> (b: bool)
    ensures
        b == contains(s@, p@),
{
    let sv = chars_of(s);
    let pv = chars_of(p);
    chars_contains(sv.as_slice(), pv.as_slice())
}

pub fn str_contains_char(s: &str, c: char) -> (b: bool)
    ensures
        b == contains_char(s@, c),
{
    let v = chars_of(s);
    let mut i: usize = 0;
    while i < v.len()
        invariant
            v@ == s@,
            0 <= i <= v@.len(),
            forall|j: int| 0 <= j < i ==> v@[j] != c,
        decreases v.len() - i,
    {
        if v[i] == c {
            return true;
        }
        i += 1;
    }
    false
}

pub fn str_starts_with(s: &str, p: &str) -> (b: bool)
    ensures
        b == starts_with(s@, p@),
{
    let sv = chars_of(s);
    let pv = chars_of(p);
    chars_occur_at(sv.as_slice(), pv.as_slice(), 0)
}

pub fn str_ends_with(s: &str, p: &str) -> (b: bool)
    ensures
        b == ends_with(s@, p@),
{
    let sv = chars_of(s);
    let pv = chars_of(p);
    if pv.len() > sv.len() {
        return false;
    }
    chars_occur_at(sv.as_slice(), pv.as_slice(), sv.len() - pv.len())
}

pub fn str_eq(a: &str, b: &str) -> (r: bool)
    ensures
        r == (a@ == b@),
{
    let av = chars_of(a);
    let bv = chars_of(b);
    if av.len() != bv.len() {
        return false;
    }
    let r = chars_occur_at(av.as_slice(), bv.as_slice(), 0);
    proof {
        assert(av@.subrange(0, bv@.len() as int) =~= av@);
    }
    r
}

pub fn to_ascii_lowercase(s: &str) -> (r: String)
    ensures
        r@ == ascii_lower(s@),
{
    let v = chars_of(s);
    let mut out = String::new();
    let mut i: usize = 0;
    while i < v.len()
        invariant
            v@ == s@,
            0 <= i <= v@.len(),
            out@ == ascii_lower(v@.subrange(0, i as int)),
        decreases v.len() - i,
    {
        let c = v[i];
        let lc = if 'A' <= c && c <= 'Z' {
            ((c as u32) + 32) as u8 as char
        } else {
            c
        };
        proof {
            if 'A' <= c && c <= 'Z' {
                assert(lc == ascii_lower_char(c));
            }
        }
        push_char(&mut out, lc);
        i += 1;
        proof {
            assert(out@ =~= ascii_lower(v@.subrange(0, i as int)));
        }
    }
    proof {
        assert(v@.subrange(0, v@.len() as int) =~= v@);
    }
    out
}

proof fn lemma_replace_step(s: Seq<char>, from: Seq<char>, to: Seq<char>, i: int)
    requires
        from.len() > 0,
        0 <= i < s.len(),
    ensures
        replace_all(s.subrange(i, s.len() as int), from, to) == if starts_with(
            s.subrange(i, s.len() as int),
            from,
        ) {
            to + replace_all(s.subrange(i + from.len(), s.len() as int), from, to)
        } else {
            seq![s[i]] + replace_all(s.subrange(i + 1, s.len() as int), from, to)
        },
{
    let t = s.subrange(i, s.len() as int);
    if starts_with(t, from) {
        assert(t.subrange(from.len() as int, t.len() as int) =~= s.subrange(
            i + from.len(),
            s.len() as int,
        ));
    } else {
        assert(t.drop_first() =~= s.subrange(i + 1, s.len() as int));
    }
}

/// `str::replace` with a non-empty pattern.
pub fn replace_str(s: &str, from: &str, to: &str) -> (r: String)
    requires
        from@.len() > 0,
    ensures
        r@ == replace_all(s@, from@, to@),
{
    let v = chars_of(s);
    let f = chars_of(from);
    let mut out = String::new();
    let mut i: usize = 0;
    proof {
        assert(v@.subrange(0, v@.len() as int) =~= v@);
    }
    while i < v.len()
        invariant
            v@ == s@,
            f@ == from@,
            f@.len() > 0,
            0 <= i <= v@.len(),
            out@ + replace_all(v@.subrange(i as int, v@.len() as int), f@, to@) == replace_all(
                v@,
                f@,
                to@,
            ),
        decreases v.len() - i,
    {
        proof {
            lemma_replace_step(v@, f@, to@, i as int);
        }
        let hit = chars_occur_at(v.as_slice(), f.as_slice(), i);
        proof {
            let t = v@.subrange(i as int, v@.len() as int);
            if hit {
                assert(t.subrange(0, f@.len() as int) =~= v@.subrange(i as int, i + f@.len()));
            } else if f@.len() <= t.len() {
                assert(t.subrange(0, f@.len() as int) =~= v@.subrange(i as int, i + f@.len()));
            }
        }
        if hit {
            let ghost old_out = out@;
            push_str(&mut out, to);
            i += f.len();
            proof {
                assert(out@ == old_out + to@);
                assert((old_out + to@) + replace_all(v@.subrange(i as int, v@.len() as int), f@, to@)
                    =~= old_out + (to@ + replace_all(v@.subrange(i as int, v@.len() as int), f@, to@)));
            }
        } else {
            let ghost old_out = out@;
            push_char(&mut out, v[i]);
            i += 1;
            proof {
                assert(out@ == old_out.push(v@[i - 1]));
                assert(out@ + replace_all(v@.subrange(i as int, v@.len() as int), f@, to@)
                    =~= old_out + (seq![v@[i - 1]] + replace_all(v@.subrange(i as int, v@.len() as int), f@, to@)));
            }
        }
    }
    proof {
        assert(v@.subrange(i as int, v@.len() as int) =~= Seq::<char>::empty());
        assert(out@ + Seq::<char>::empty() =~= out@);
    }
    out
}

/// `s` cut at every `\n`: one piece more than there are newlines.
pub open spec fn split_lf(s: Seq<char>) -> Seq<Seq<char>>
    decreases s.len(),
{
    if s.len() == 0 {
        seq![Seq::<char>::empty()]
    } else {
        let prev = split_lf(s.drop_last());
        if s.last() == '\n' {
            prev.push(Seq::<char>::empty())
        } else {
            prev.update(prev.len() - 1, prev.last().push(s.last()))
        }
    }
}

proof fn lemma_trim_start_suffix(s: Seq<char>)
    ensures
        trim_start(s).len() <= s.len(),
        trim_start(s) == s.subrange(s.len() - trim_start(s).len(), s.len() as int),
        trim_start(s).len() > 0 ==> !is_ws(trim_start(s)[0]),
    decreases s.len(),
{
    if s.len() > 0 && is_ws(s[0]) {
        lemma_trim_start_suffix(s.drop_first());
        assert(trim_start(s) =~= s.subrange(s.len() - trim_start(s).len(), s.len() as int));
    } else {
        assert(s =~= s.subrange(0, s.len() as int));
    }
}

proof fn lemma_trim_end_prefix(s: Seq<char>)
    ensures
        trim_end(s).len() <= s.len(),
        trim_end(s) == s.subrange(0, trim_end(s).len() as int),
        trim_end(s).len() > 0 ==> !is_ws(trim_end(s).last()),
    decreases s.len(),
{
    if s.len() > 0 && is_ws(s.last()) {
        lemma_trim_end_prefix(s.drop_last());
        assert(trim_end(s) =~= s.subrange(0, trim_end(s).len() as int));
    } else {
        assert(s =~= s.subrange(0, s.len() as int));
    }
}

/// Trimming a trimmed string changes nothing.
pub proof fn lemma_trim_idempotent(s: Seq<char>)
    ensures
        trim(trim(s)) == trim(s),
{
    let x = trim_start(s);
    let y = trim_end(x);
    lemma_trim_start_suffix(s);
    lemma_trim_end_prefix(x);
    if y.len() > 0 {
        assert(y[0] == x[0]);
    }
    assert(trim_start(y) == y);
}

/// Every character of a trimmed string is a character of the string.
pub proof fn lemma_trim_chars(s: Seq<char>, i: int)
    requires
        0 <= i < trim(s).len(),
    ensures
        exists|j: int| 0 <= j < s.len() && s[j] == #[trigger] trim(s)[i],
{
    let x = trim_start(s);
    lemma_trim_start_suffix(s);
    lemma_trim_end_prefix(x);
    let j = s.len() - x.len() + i;
    assert(s[j] == trim(s)[i]);
}

/// Replacing a pattern that occurs nowhere changes nothing.
pub proof fn lemma_replace_all_absent(s: Seq<char>, from: Seq<char>, to: Seq<char>)
    requires
        from.len() > 0,
        forall|i: int| !#[trigger] occurs_at(s, from, i),
    ensures
        replace_all(s, from, to) == s,
    decreases s.len(),
{
    if s.len() > 0 {
        assert(!occurs_at(s, from, 0));
        let rest = s.drop_first();
        assert forall|i: int| !#[trigger] occurs_at(rest, from, i) by {
            if occurs_at(rest, from, i) {
                assert(s.subrange(i + 1, i + 1 + from.len()) =~= rest.subrange(i, i + from.len()));
                assert(occurs_at(s, from, i + 1));
            }
        }
        lemma_replace_all_absent(rest, from, to);
        assert(seq![s[0]] + rest =~= s);
    }
}

/// Where a prefix of a replacement's result never holds the first character
/// of the replacement text, no replacement starts in it, so it is the same
/// prefix of the original.
proof fn lemma_replace_keeps_plain_prefix(s: Seq<char>, from: Seq<char>, to: Seq<char>, n: int)
    requires
        from.len() > 0,
        to.len() > 0,
        0 <= n <= replace_all(s, from, to).len(),
        forall|j: int| 0 <= j < n ==> #[trigger] replace_all(s, from, to)[j] != to[0],
    ensures
        n <= s.len(),
        replace_all(s, from, to).subrange(0, n) == s.subrange(0, n),
    decreases s.len(),
{
    let r = replace_all(s, from, to);
    if s.len() == 0 {
    } else if starts_with(s, from) {
        if n > 0 {
            assert(r[0] == to[0]);
        }
    } else if n > 0 {
        let rest = replace_all(s.drop_first(), from, to);
        assert forall|j: int| 0 <= j < n - 1 implies #[trigger] rest[j] != to[0] by {
            assert(rest[j] == r[j + 1]);
        }
        lemma_replace_keeps_plain_prefix(s.drop_first(), from, to, n - 1);
        assert(r.subrange(0, n) =~= seq![s[0]] + rest.subrange(0, n - 1));
        assert(s.subrange(0, n) =~= seq![s[0]] + s.drop_first().subrange(0, n - 1));
    }
}

/// A pattern that holds neither the first nor the last character of its
/// replacement, and does not occur inside it, does not occur in the result
/// of replacing it.
pub proof fn lemma_replace_all_removes(s: Seq<char>, from: Seq<char>, to: Seq<char>, i: int)
    requires
        from.len() > 0,
        to.len() > 0,
        forall|j: int| 0 <= j < from.len() ==> #[trigger] from[j] != to[0] && from[j] != to.last(),
        !contains(to, from),
    ensures
        !occurs_at(replace_all(s, from, to), from, i),
    decreases s.len(),
{
    let r = replace_all(s, from, to);
    if occurs_at(r, from, i) {
        if s.len() == 0 {
        } else if starts_with(s, from) {
            let rest = replace_all(s.subrange(from.len() as int, s.len() as int), from, to);
            if i < to.len() {
                if i + from.len() <= to.len() {
                    assert(to.subrange(i, i + from.len()) =~= r.subrange(i, i + from.len()));
                    assert(occurs_at(to, from, i));
                } else {
                    let k = to.len() - 1 - i;
                    assert(from[k] == r[i + k]);
                    assert(r[i + k] == to.last());
                }
            } else {
                lemma_replace_all_removes(s.subrange(from.len() as int, s.len() as int), from, to, i - to.len());
                assert(r.subrange(i, i + from.len()) =~= rest.subrange(i - to.len(), i - to.len() + from.len()));
            }
        } else if i == 0 {
            assert forall|j: int| 0 <= j < from.len() implies #[trigger] r[j] != to[0] by {
                assert(r[j] == r.subrange(0, from.len() as int)[j]);
            }
            lemma_replace_keeps_plain_prefix(s, from, to, from.len() as int);
        } else {
            let rest = replace_all(s.drop_first(), from, to);
            lemma_replace_all_removes(s.drop_first(), from, to, i - 1);
            assert(r.subrange(i, i + from.len()) =~= rest.subrange(i - 1, i - 1 + from.len()));
        }
    }
}

pub proof fn lemma_split_lf_len(s: Seq<char>)
    ensures
        split_lf(s).len() >= 1,
    decreases s.len(),
{
    if s.len() > 0 {
        lemma_split_lf_len(s.drop_last());
    }
}

/// `str::trim_start`, returning an owned string.
pub fn trim_start_string(s: &str) -> (r: String)
    ensures
        r@ == trim_start(s@),
{
    let v = chars_of(s);
    let len = v.len();
    let mut a: usize = 0;
    proof {
        assert(v@.subrange(0, len as int) =~= v@);
    }
    while a < len && char_is_whitespace(v[a])
        invariant
            v@ == s@,
            a <= len == v@.len(),
            trim_start(v@.subrange(a as int, len as int)) == trim_start(v@),
        decreases len - a,
    {
        proof {
            lemma_trim_start_skip(v@, a as int);
        }
        a += 1;
    }
    let ghost ts = v@.subrange(a as int, len as int);
    assert(trim_start(ts) == ts);
    string_from_chars(v.as_slice(), a, len)
}

} // verus!
