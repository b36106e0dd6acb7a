//! Character-level helpers shared by the validators: whitespace trimming,
//! ASCII case folding, prefix tests and decimal rendering.

use vstd::prelude::*;

verus! {

/// Unicode `White_Space`, the property `char::is_whitespace` tests.
pub open spec fn is_ws(c: char) -> bool {
    let u = c as u32;
    ||| 0x9 <= u <= 0xd
    ||| u == 0x20
    ||| u == 0x85
    ||| u == 0xa0
    ||| u == 0x1680
    ||| 0x2000 <= u <= 0x200a
    ||| u == 0x2028
    ||| u == 0x2029
    ||| u == 0x202f
    ||| u == 0x205f
    ||| u == 0x3000
}

/// `s` with leading whitespace removed.
pub open spec fn trim_start_seq(s: Seq<char>) -> Seq<char>
    decreases s.len(),
{
    if s.len() > 0 && is_ws(s[0]) {
        trim_start_seq(s.drop_first())
    } else {
        s
    }
}

/// `s` with trailing whitespace removed.
pub open spec fn trim_end_seq(s: Seq<char>) -> Seq<char>
    decreases s.len(),
{
    if s.len() > 0 && is_ws(s.last()) {
        trim_end_seq(s.drop_last())
    } else {
        s
    }
}

/// What `str::trim` returns: both ends stripped of whitespace.
pub open spec fn trim_seq(s: Seq<char>) -> Seq<char> {
    trim_end_seq(trim_start_seq(s))
}

/// What `trim_start_seq` leaves starts with a non-whitespace character.
proof fn lemma_trim_start_first(s: Seq<char>)
    ensures
        trim_start_seq(s).len() == 0 || !is_ws(trim_start_seq(s)[0]),
    decreases s.len(),
{
    if s.len() > 0 && is_ws(s[0]) {
        lemma_trim_start_first(s.drop_first());
    }
}

/// What `trim_end_seq` leaves is a prefix of its input ending with a
/// non-whitespace character.
proof fn lemma_trim_end_prefix(s: Seq<char>)
    ensures
        trim_end_seq(s).len() <= s.len(),
        trim_end_seq(s) =~= s.take(trim_end_seq(s).len() as int),
        trim_end_seq(s).len() == 0 || !is_ws(trim_end_seq(s).last()),
    decreases s.len(),
{
    if s.len() > 0 && is_ws(s.last()) {
        lemma_trim_end_prefix(s.drop_last());
        assert(s.drop_last().take(trim_end_seq(s).len() as int) =~= s.take(
            trim_end_seq(s).len() as int,
        ));
    } else {
        assert(s.take(s.len() as int) =~= s);
    }
}

/// Trimming twice is trimming once.
pub proof fn lemma_trim_idempotent(s: Seq<char>)
    ensures
        trim_seq(trim_seq(s)) == trim_seq(s),
{
    let u = trim_start_seq(s);
    let t = trim_end_seq(u);
    lemma_trim_start_first(s);
    lemma_trim_end_prefix(u);
    if t.len() > 0 {
        assert(t[0] == u[0]);
    }
    assert(trim_start_seq(t) == t);
    assert(trim_end_seq(t) == t);
}

/// Whether `c` is Unicode whitespace.
pub fn is_whitespace(c: char) -> (b: bool)
    ensures
        b == is_ws(c),
{
    let u = c as u32;
    (0x9 <= u && u <= 0xd) || u == 0x20 || u == 0x85 || u == 0xa0 || u == 0x1680 || (0x2000 <= u
        && u <= 0x200a) || u == 0x2028 || u == 0x2029 || u == 0x202f || u == 0x205f || u == 0x3000
}

/// Append one character to a string (`String::push`).
///
/// Claims: the string afterwards is the old one with `c` at its end.
#[verifier::external_body]
fn push_char(s: &mut String, c: char)
    ensures
        final(s)@ == old(s)@.push(c),
{
    s.push(c);
}

/// The characters of `s`, in order.
pub fn chars_of(s: &str) -> (v: Vec<char>)
    ensures
        v@ == s@,
{
    let mut v: Vec<char> = Vec::new();
    for c in it: s.chars()
        invariant
            it.seq() == s@,
            v@ == it.seq().take(it.index() as int),
    {
        v.push(c);
    }
    assert(v@ =~= s@);
    v
}

/// A string holding the characters of `v`.
pub fn string_of(v: &[char]) -> (s: String)
    ensures
        s@ == v@,
{
    let mut s = String::new();
    let mut i: usize = 0;
    while i < v.len()
        invariant
            i <= v@.len(),
            s@ == v@.subrange(0, i as int),
        decreases v@.len() - i,
    {
        push_char(&mut s, v[i]);
        i = i + 1;
        assert(s@ =~= v@.subrange(0, i as int));
    }
    assert(s@ =~= v@);
    s
}

/// Bounds `(lo, hi)` such that `v[lo..hi]` is `v` trimmed of whitespace.
pub fn trim_bounds(v: &[char]) -> (r: (usize, usize))
    ensures
        r.0 <= r.1 <= v@.len(),
        v@.subrange(r.0 as int, r.1 as int) == trim_seq(v@),
{
    let n = v.len();
    let mut i: usize = 0;
    assert(v@.subrange(0, n as int) =~= v@);
    while i < n && is_whitespace(v[i])
        invariant
            i <= n == v@.len(),
            trim_start_seq(v@) == trim_start_seq(v@.subrange(i as int, n as int)),
        decreases n - i,
    {
        assert(v@.subrange(i as int, n as int).drop_first() =~= v@.subrange(i + 1, n as int));
        i = i + 1;
    }
    assert(trim_start_seq(v@) == v@.subrange(i as int, n as int));
    let mut j: usize = n;
    while j > i && is_whitespace(v[j - 1])
        invariant
            i <= j <= n == v@.len(),
            trim_end_seq(v@.subrange(i as int, n as int)) == trim_end_seq(
                v@.subrange(i as int, j as int),
            ),
        decreases j,
    {
        assert(v@.subrange(i as int, j as int).drop_last() =~= v@.subrange(i as int, j - 1));
        j = j - 1;
    }
    (i, j)
}

/// `s` with leading and trailing whitespace removed, as `str::trim` does.
pub fn trim(s: &str) -> (r: String)
    ensures
        r@ == trim_seq(s@),
{
    let v = chars_of(s);
    let (lo, hi) = trim_bounds(v.as_slice());
    slice_string(v.as_slice(), lo, hi)
}

/// The characters `v[lo..hi]` as a string.
pub fn slice_string(v: &[char], lo: usize, hi: usize) -> (s: String)
    requires
        lo <= hi <= v@.len(),
    ensures
        s@ == v@.subrange(lo as int, hi as int),
{
    let mut s = String::new();
    let mut i: usize = lo;
    while i < hi
        invariant
            lo <= i <= hi <= v@.len(),
            s@ == v@.subrange(lo as int, i as int),
        decreases hi - i,
    {
        push_char(&mut s, v[i]);
        i = i + 1;
        assert(s@ =~= v@.subrange(lo as int, i as int));
    }
    s
}

/// `c` folded to ASCII lower case, as `char::to_ascii_lowercase` does.
pub open spec fn ascii_lower_char(c: char) -> char {
    if 'A' <= c <= 'Z' {
        ((c as u32) + 32) as char
    } else {
        c
    }
}

/// `s` with every ASCII upper-case letter folded to lower case.
pub open spec fn ascii_lower(s: Seq<char>) -> Seq<char> {
    s.map_values(|c: char| ascii_lower_char(c))
}

/// Fold one character to ASCII lower case.
pub fn to_ascii_lower_char(c: char) -> (r: char)
    ensures
        r == ascii_lower_char(c),
{
    if 'A' <= c && c <= 'Z' {
        let u = (c as u8) + 32;
        u as char
    } else {
        c
    }
}

/// `s` with every ASCII upper-case letter folded to lower case.
pub fn to_ascii_lowercase(s: &str) -> (r: String)
    ensures
        r@ == ascii_lower(s@),
{
    let v = chars_of(s);
    let mut out = String::new();
    let mut i: usize = 0;
    while i < v.len()
        invariant
            i <= v@.len(),
            v@ == s@,
            out@ == ascii_lower(s@).subrange(0, i as int),
        decreases v@.len() - i,
    {
        let c = to_ascii_lower_char(v[i]);
        push_char(&mut out, c);
        i = i + 1;
        assert(out@ =~= ascii_lower(s@).subrange(0, i as int));
    }
    assert(out@ =~= ascii_lower(s@));
    out
}

/// Whether `s` begins with `p`.
pub open spec fn has_prefix(s: Seq<char>, p: Seq<char>) -> bool {
    p.len() <= s.len() && s.subrange(0, p.len() as int) == p
}

/// Whether `s` ends with `p`.
pub open spec fn has_suffix(s: Seq<char>, p: Seq<char>) -> bool {
    p.len() <= s.len() && s.subrange(s.len() - p.len(), s.len() as int) == p
}

/// Whether `s` begins with `p`.
pub fn starts_with(s: &[char], p: &[char]) -> (b: bool)
    ensures
        b == has_prefix(s@, p@),
{
    if p.len() > s.len() {
        return false;
    }
    let mut i: usize = 0;
    while i < p.len()
        invariant
            p@.len() <= s@.len(),
            i <= p@.len(),
            forall|k: int| 0 <= k < i ==> s@[k] == p@[k],
        decreases p@.len() - i,
    {
        if s[i] != p[i] {
            assert(s@.subrange(0, p@.len() as int)[i as int] != p@[i as int]);
            return false;
        }
        i = i + 1;
    }
    assert(s@.subrange(0, p@.len() as int) =~= p@);
    true
}

/// Whether `s` ends with `p`.
pub fn ends_with(s: &[char], p: &[char]) -> (b: bool)
    ensures
        b == has_suffix(s@, p@),
{
    if p.len() > s.len() {
        return false;
    }
    let off = s.len() - p.len();
    let mut j: usize = off;
    while j < s.len()
        invariant
            p@.len() <= s@.len(),
            off + p@.len() == s@.len(),
            off <= j <= s@.len(),
            forall|k: int| off <= k < j ==> s@[k] == p@[k - off],
        decreases s@.len() - j,
    {
        if s[j] != p[j - off] {
            assert(s@.subrange(off as int, s@.len() as int)[j - off] != p@[j - off]);
            return false;
        }
        j = j + 1;
    }
    assert(s@.subrange(off as int, s@.len() as int) =~= p@);
    true
}

/// Whether `c` occurs in `s`.
pub fn contains_char(s: &[char], c: char) -> (b: bool)
    ensures
        b == s@.contains(c),
{
    let mut i: usize = 0;
    while i < s.len()
        invariant
            i <= s@.len(),
            forall|k: int| 0 <= k < i ==> s@[k] != c,
        decreases s@.len() - i,
    {
        if s[i] == c {
            assert(s@[i as int] == c);
            return true;
        }
        i = i + 1;
    }
    false
}

/// The decimal digit character for `d < 10`.
pub open spec fn digit_char(d: nat) -> char {
    (('0' as u32) + d) as char
}

/// The decimal rendering of `n`, as `u64::to_string` produces it.
pub open spec fn decimal(n: nat) -> Seq<char>
    decreases n,
{
    if n < 10 {
        seq![digit_char(n)]
    } else {
        decimal(n / 10).push(digit_char(n % 10))
    }
}

/// Render `n` in decimal.
pub fn decimal_string(n: u128) -> (s: String)
    ensures
        s@ == decimal(n as nat),
{
    // Collect digits least significant first.
    let mut rev: Vec<char> = Vec::new();
    let mut m: u128 = n;
    let ghost mut parts: Seq<nat> = seq![];
    loop
        invariant_except_break
            m > 0 || parts.len() == 0,
        invariant
            m <= n,
            rev@.len() == parts.len(),
            forall|k: int| 0 <= k < rev@.len() ==> #[trigger] rev@[k] == digit_char(parts[k]),
            decimal_after(m as nat, parts) == decimal(n as nat),
        ensures
            m == 0,
            parts.len() > 0,
            decimal_after(m as nat, parts) == decimal(n as nat),
            rev@.len() == parts.len(),
            forall|k: int| 0 <= k < rev@.len() ==> #[trigger] rev@[k] == digit_char(parts[k]),
        decreases m,
    {
        let d = m % 10;
        let c = ((d as u8) + 48) as char;
        rev.push(c);
        proof {
            lemma_decimal_step(m as nat, parts);
            parts = parts.push(d as nat);
        }
        m = m / 10;
        if m == 0 {
            break;
        }
    }
    let mut s = String::new();
    let mut i: usize = rev.len();
    proof {
        lemma_decimal_done(parts);
    }
    while i > 0
        invariant
            i <= rev@.len() == parts.len(),
            forall|k: int| 0 <= k < rev@.len() ==> #[trigger] rev@[k] == digit_char(parts[k]),
            s@ == digits_rev(parts.subrange(i as int, parts.len() as int)),
            digits_rev(parts) == decimal(n as nat),
        decreases i,
    {
        i = i - 1;
        push_char(&mut s, rev[i]);
        proof {
            let tail = parts.subrange(i as int, parts.len() as int);
            assert(tail.drop_first() =~= parts.subrange(i + 1, parts.len() as int));
            assert(tail[0] == parts[i as int]);
        }
    }
    assert(parts.subrange(0, parts.len() as int) =~= parts);
    s
}

/// Digits given least significant first, rendered most significant first.
pub open spec fn digits_rev(parts: Seq<nat>) -> Seq<char>
    decreases parts.len(),
{
    if parts.len() == 0 {
        seq![]
    } else {
        digits_rev(parts.drop_first()).push(digit_char(parts[0]))
    }
}

/// The rendering of a number whose low digits `parts` (least significant
/// first) have been split off, leaving the high part `m`.
pub open spec fn decimal_after(m: nat, parts: Seq<nat>) -> Seq<char> {
    if parts.len() == 0 {
        decimal(m)
    } else if m == 0 {
        digits_rev(parts)
    } else {
        decimal(m) + digits_rev(parts)
    }
}

proof fn lemma_digits_rev_push(parts: Seq<nat>, d: nat)
    ensures
        digits_rev(parts.push(d)) == seq![digit_char(d)] + digits_rev(parts),
    decreases parts.len(),
{
    if parts.len() == 0 {
        assert(parts.push(d).drop_first() =~= parts);
        assert(digits_rev(parts) =~= seq![]);
        assert(seq![digit_char(d)] + digits_rev(parts) =~= seq![digit_char(d)]);
        assert(digits_rev(seq![]).push(digit_char(d)) =~= seq![digit_char(d)]);
    } else {
        assert(parts.push(d).drop_first() =~= parts.drop_first().push(d));
        lemma_digits_rev_push(parts.drop_first(), d);
        assert(digits_rev(parts.push(d)) =~= (seq![digit_char(d)] + digits_rev(
            parts.drop_first(),
        )).push(digit_char(parts[0])));
        assert((seq![digit_char(d)] + digits_rev(parts.drop_first())).push(digit_char(parts[0]))
            =~= seq![digit_char(d)] + digits_rev(parts));
    }
}

proof fn lemma_decimal_step(m: nat, parts: Seq<nat>)
    requires
        m > 0 || parts.len() == 0,
    ensures
        decimal_after(m / 10, parts.push(m % 10)) == decimal_after(m, parts),
{
    lemma_digits_rev_push(parts, m % 10);
    assert(digits_rev(seq![]) =~= Seq::<char>::empty());
    if m < 10 {
        assert(m / 10 == 0);
        assert(decimal(m) =~= seq![digit_char(m % 10)]);
        assert(seq![digit_char(m % 10)] + digits_rev(parts) =~= decimal(m) + digits_rev(parts));
        if parts.len() == 0 {
            assert(decimal(m) + digits_rev(parts) =~= decimal(m));
        }
    } else {
        assert(decimal(m) == decimal(m / 10).push(digit_char(m % 10)));
        assert(decimal(m / 10) + (seq![digit_char(m % 10)] + digits_rev(parts)) =~= decimal(
            m / 10,
        ).push(digit_char(m % 10)) + digits_rev(parts));
        if parts.len() == 0 {
            assert(decimal(m) + digits_rev(parts) =~= decimal(m));
        }
    }
}

proof fn lemma_decimal_done(parts: Seq<nat>)
    requires
        parts.len() > 0,
    ensures
        decimal_after(0, parts) == digits_rev(parts),
{
}

/// Bytes `c` takes in UTF-8.
pub open spec fn utf8_width(c: char) -> nat {
    let u = c as u32;
    if u <= 0x7f {
        1
    } else if u <= 0x7ff {
        2
    } else if u <= 0xffff && !(0xd800 <= u <= 0xdfff) {
        3
    } else {
        4
    }
}

/// Bytes `s` takes in UTF-8, what `str::len` reports.
pub open spec fn utf8_len(s: Seq<char>) -> nat
    decreases s.len(),
{
    if s.len() == 0 {
        0
    } else {
        utf8_width(s[0]) + utf8_len(s.drop_first())
    }
}

/// `utf8_len` is the length of vstd's UTF-8 encoding.
pub proof fn lemma_utf8_len(s: Seq<char>)
    ensures
        vstd::utf8::encode_utf8(s).len() == utf8_len(s),
    decreases s.len(),
{
    if s.len() > 0 {
        lemma_utf8_len(s.drop_first());
        let u = s[0] as u32;
        assert(vstd::utf8::encode_scalar(u).len() == utf8_width(s[0]));
        assert(vstd::utf8::encode_utf8(s) == vstd::utf8::encode_scalar(u) + vstd::utf8::encode_utf8(
            s.drop_first(),
        ));
    }
}

/// Byte length of the UTF-8 encoding of `v`.
pub fn utf8_byte_len(v: &[char]) -> (n: u128)
    ensures
        n == utf8_len(v@),
{
    let mut n: u128 = 0;
    let mut i: usize = 0;
    assert(v@.subrange(0, v@.len() as int) =~= v@);
    while i < v.len()
        invariant
            i <= v@.len(),
            n <= 4 * i,
            n + utf8_len(v@.subrange(i as int, v@.len() as int)) == utf8_len(v@),
        decreases v@.len() - i,
    {
        let u = v[i] as u32;
        let w: u128 = if u <= 0x7f {
            1
        } else if u <= 0x7ff {
            2
        } else if u <= 0xffff && !(0xd800 <= u && u <= 0xdfff) {
            3
        } else {
            4
        };
        assert(v@.subrange(i as int, v@.len() as int).drop_first() =~= v@.subrange(
            i + 1,
            v@.len() as int,
        ));
        n = n + w;
        i = i + 1;
    }
    assert(v@.subrange(i as int, v@.len() as int) =~= Seq::<char>::empty());
    n
}

/// Whether two character sequences are equal.
pub fn chars_eq(a: &[char], b: &[char]) -> (r: bool)
    ensures
        r == (a@ == b@),
{
    if a.len() != b.len() {
        return false;
    }
    let mut i: usize = 0;
    while i < a.len()
        invariant
            a@.len() == b@.len(),
            i <= a@.len(),
            forall|k: int| 0 <= k < i ==> a@[k] == b@[k],
        decreases a@.len() - i,
    {
        if a[i] != b[i] {
            return false;
        }
        i = i + 1;
    }
    assert(a@ =~= b@);
    true
}

/// Whether two strings are equal.
pub fn str_eq(a: &str, b: &str) -> (r: bool)
    ensures
        r == (a@ == b@),
{
    let va = chars_of(a);
    let vb = chars_of(b);
    chars_eq(va.as_slice(), vb.as_slice())
}

/// Position of the first `c` in `s`, or the length when there is none.
#[verifier::opaque]
pub open spec fn first_pos(s: Seq<char>, c: char) -> int {
    if s.contains(c) {
        choose|i: int| 0 <= i < s.len() && s[i] == c && forall|j: int| 0 <= j < i ==> s[j] != c
    } else {
        s.len() as int
    }
}

/// Position of the last `c` in `s`, or -1 when there is none.
#[verifier::opaque]
pub open spec fn last_pos(s: Seq<char>, c: char) -> int {
    if s.contains(c) {
        choose|i: int| 0 <= i < s.len() && s[i] == c && forall|j: int| i < j < s.len() ==> s[j] != c
    } else {
        -1
    }
}

/// Whether `p` occurs in `s` at `i`.
pub open spec fn occurs_at(s: Seq<char>, p: Seq<char>, i: int) -> bool {
    0 <= i && i + p.len() <= s.len() && s.subrange(i, i + p.len()) == p
}

/// Position of the first occurrence of `p` in `s`.
#[verifier::opaque]
pub open spec fn find_sub(s: Seq<char>, p: Seq<char>) -> Option<int> {
    if exists|i: int| occurs_at(s, p, i) {
        Some(choose|i: int| occurs_at(s, p, i) && forall|j: int| 0 <= j < i ==> !occurs_at(s, p, j))
    } else {
        None
    }
}

/// Position of the first `c` in `v`, or its length.
pub fn find_char(v: &[char], c: char) -> (r: usize)
    ensures
        r == first_pos(v@, c),
        r <= v@.len(),
        r < v@.len() ==> v@[r as int] == c,
        r == v@.len() ==> !v@.contains(c),
{
    reveal(first_pos);
    let mut i: usize = 0;
    while i < v.len()
        invariant
            i <= v@.len(),
            forall|j: int| 0 <= j < i ==> v@[j] != c,
        decreases v@.len() - i,
    {
        if v[i] == c {
            proof {
                reveal(first_pos);
                assert(v@.contains(c));
                let w = first_pos(v@, c);
                assert(w == i) by {
                    if w < i {
                        assert(v@[w] == c);
                    } else if i < w {
                        assert(v@[i as int] == c);
                    }
                }
            }
            return i;
        }
        i = i + 1;
    }
    proof {
        if v@.contains(c) {
            let k = choose|k: int| 0 <= k < v@.len() && v@[k] == c;
            assert(v@[k] == c);
        }
    }
    i
}

/// Position of the last `c` in `v`, if any.
pub fn rfind_char(v: &[char], c: char) -> (r: Option<usize>)
    ensures
        match r {
            Some(i) => i == last_pos(v@, c) && i < v@.len(),
            None => last_pos(v@, c) == -1 && !v@.contains(c),
        },
        r matches Some(i) ==> v@[i as int] == c,
{
    reveal(last_pos);
    let mut i: usize = v.len();
    while i > 0
        invariant
            i <= v@.len(),
            forall|j: int| i <= j < v@.len() ==> v@[j] != c,
        decreases i,
    {
        if v[i - 1] == c {
            let k: usize = i - 1;
            proof {
                reveal(last_pos);
                assert(v@[k as int] == c);
                assert(v@.contains(c));
                let w = last_pos(v@, c);
                assert(w == k) by {
                    if w > k {
                        assert(v@[w] == c);
                    } else if w < k {
                        assert(v@[k as int] == c);
                    }
                }
            }
            return Some(k);
        }
        i = i - 1;
    }
    proof {
        if v@.contains(c) {
            let k = choose|k: int| 0 <= k < v@.len() && v@[k] == c;
            assert(v@[k] == c);
        }
    }
    None
}

/// Whether `p` occurs in `v` at `i`.
fn occurs_at_exec(v: &[char], p: &[char], i: usize) -> (b: bool)
    ensures
        b == occurs_at(v@, p@, i as int),
{
    if i > v.len() || p.len() > v.len() - i {
        return false;
    }
    let mut k: usize = 0;
    while k < p.len()
        invariant
            i + p@.len() <= v@.len(),
            v@.len() == v.len(),
            k <= p@.len(),
            forall|j: int| 0 <= j < k ==> v@[i + j] == p@[j],
        decreases p@.len() - k,
    {
        if v[i + k] != p[k] {
            assert(v@.subrange(i as int, i + p@.len())[k as int] != p@[k as int]);
            return false;
        }
        k = k + 1;
    }
    assert(v@.subrange(i as int, i + p@.len()) =~= p@);
    true
}

/// Position of the first occurrence of `p` in `v`.
pub fn find_str(v: &[char], p: &[char]) -> (r: Option<usize>)
    ensures
        match r {
            Some(i) => find_sub(v@, p@) == Some(i as int),
            None => find_sub(v@, p@) is None,
        },
        r matches Some(i) ==> occurs_at(v@, p@, i as int),
{
    reveal(find_sub);
    let mut i: usize = 0;
    while i <= v.len()
        invariant
            i <= v@.len() + 1,
            forall|j: int| 0 <= j < i ==> !occurs_at(v@, p@, j),
        decreases v@.len() + 1 - i,
    {
        if occurs_at_exec(v, p, i) {
            proof {
                reveal(find_sub);
                let w = choose|w: int| occurs_at(v@, p@, w) && forall|j: int| 0 <= j < w ==> !occurs_at(v@, p@, j);
                assert(occurs_at(v@, p@, i as int));
                assert(w == i) by {
                    if w < i {
                        assert(!occurs_at(v@, p@, w));
                    } else if i < w {
                        assert(occurs_at(v@, p@, i as int));
                    }
                }
            }
            return Some(i);
        }
        if i == v.len() {
            proof {
                reveal(find_sub);
                assert forall|j: int| !occurs_at(v@, p@, j) by {
                    if 0 <= j <= i {
                    } else {
                    }
                }
            }
            return None;
        }
        i = i + 1;
    }
    None
}

} // verus!
