use vstd::prelude::*;

verus! {

/// The characters of a string slice, in order.
pub fn chars_of(s: &str) -> (v: Vec<char>)
    ensures
        v@ == s@,
{
    let mut v: Vec<char> = Vec::new();
    for c in it: s.chars()
        invariant
            v@ == it.seq().take(it.index() as int),
    {
        v.push(c);
    }
    v
}

/// `String::from_iter` (std) over the given characters: an owned string
/// holding exactly those characters, in order.
#[verifier::external_body]
pub(crate) fn string_of(chars: &[char]) -> (s: String)
    ensures
        s@ == chars@,
{
    String::from_iter(chars.iter())
}

/// The texts of a sequence of strings.
pub open spec fn string_views(v: Seq<String>) -> Seq<Seq<char>> {
    v.map_values(|s: String| s@)
}

/// Unicode `White_Space` property, as used by `char::is_whitespace` and `str::trim`.
pub open spec fn is_ws(c: char) -> bool {
    let u = c as u32;
    (0x09 <= u && u <= 0x0d) || u == 0x20 || u == 0x85 || u == 0xa0 || u == 0x1680
        || (0x2000 <= u && u <= 0x200a) || u == 0x2028 || u == 0x2029 || u == 0x202f
        || u == 0x205f || u == 0x3000
}

pub fn is_whitespace(c: char) -> (b: bool)
    ensures
        b == is_ws(c),
{
    let u = c as u32;
    (0x09 <= u && u <= 0x0d) || u == 0x20 || u == 0x85 || u == 0xa0 || u == 0x1680
        || (0x2000 <= u && u <= 0x200a) || u == 0x2028 || u == 0x2029 || u == 0x202f
        || u == 0x205f || u == 0x3000
}

/// Number of leading whitespace characters.
pub open spec fn lead_ws(s: Seq<char>) -> nat
    decreases s.len(),
{
    if s.len() == 0 || !is_ws(s[0]) {
        0
    } else {
        1 + lead_ws(s.drop_first())
    }
}

/// Number of trailing whitespace characters.
pub open spec fn trail_ws(s: Seq<char>) -> nat
    decreases s.len(),
{
    if s.len() == 0 || !is_ws(s.last()) {
        0
    } else {
        1 + trail_ws(s.drop_last())
    }
}

/// `str::trim_start`
pub open spec fn trim_start(s: Seq<char>) -> Seq<char> {
    s.skip(lead_ws(s) as int)
}

/// `str::trim_end`
pub open spec fn trim_end(s: Seq<char>) -> Seq<char> {
    s.take(s.len() - trail_ws(s))
}

/// `str::trim`
pub open spec fn trim(s: Seq<char>) -> Seq<char> {
    trim_end(trim_start(s))
}

pub proof fn lemma_lead_ws(s: Seq<char>)
    ensures
        lead_ws(s) <= s.len(),
        forall|i: int| 0 <= i < lead_ws(s) ==> is_ws(#[trigger] s[i]),
        lead_ws(s) < s.len() ==> !is_ws(s[lead_ws(s) as int]),
    decreases s.len(),
{
    if s.len() > 0 && is_ws(s[0]) {
        lemma_lead_ws(s.drop_first());
        assert forall|i: int| 0 <= i < lead_ws(s) implies is_ws(#[trigger] s[i]) by {
            if i > 0 {
                assert(s[i] == s.drop_first()[i - 1]);
            }
        }
    }
}

/// A count `k` is the leading-whitespace count when the first `k` characters are
/// whitespace and the next one (if any) is not.
pub proof fn lemma_lead_ws_unique(s: Seq<char>, k: int)
    requires
        0 <= k <= s.len(),
        forall|i: int| 0 <= i < k ==> is_ws(#[trigger] s[i]),
        k < s.len() ==> !is_ws(s[k]),
    ensures
        lead_ws(s) == k,
    decreases s.len(),
{
    if k > 0 {
        assert(is_ws(s[0]));
        let t = s.drop_first();
        assert forall|i: int| 0 <= i < k - 1 implies is_ws(#[trigger] t[i]) by {
            assert(t[i] == s[i + 1]);
        }
        if k - 1 < t.len() {
            assert(t[k - 1] == s[k]);
        }
        lemma_lead_ws_unique(t, k - 1);
    }
}

pub proof fn lemma_trail_ws_unique(s: Seq<char>, k: int)
    requires
        0 <= k <= s.len(),
        forall|i: int| s.len() - k <= i < s.len() ==> is_ws(#[trigger] s[i]),
        k < s.len() ==> !is_ws(s[s.len() - k - 1]),
    ensures
        trail_ws(s) == k,
    decreases s.len(),
{
    if k > 0 {
        assert(is_ws(s[s.len() - 1]));
        let t = s.drop_last();
        assert forall|i: int| t.len() - (k - 1) <= i < t.len() implies is_ws(#[trigger] t[i]) by {
            assert(t[i] == s[i]);
        }
        if k - 1 < t.len() {
            assert(t[t.len() - (k - 1) - 1] == s[s.len() - k - 1]);
        }
        lemma_trail_ws_unique(t, k - 1);
    }
}

/// Bounds `(start, end)` of `trim(s[lo..hi])` inside `s`.
pub fn trim_bounds(s: &[char], lo: usize, hi: usize) -> (r: (usize, usize))
    requires
        lo <= hi <= s@.len(),
    ensures
        lo <= r.0 <= r.1 <= hi,
        s@.subrange(r.0 as int, r.1 as int) == trim(s@.subrange(lo as int, hi as int)),
{
    let ghost w = s@.subrange(lo as int, hi as int);
    let mut a = lo;
    while a < hi && is_whitespace(s[a])
        invariant
            lo <= a <= hi <= s@.len(),
            w == s@.subrange(lo as int, hi as int),
            forall|i: int| lo <= i < a ==> is_ws(#[trigger] s@[i]),
        decreases hi - a,
    {
        a = a + 1;
    }
    proof {
        assert forall|i: int| 0 <= i < a - lo implies is_ws(#[trigger] w[i]) by {
            assert(w[i] == s@[lo + i]);
        }
        if a - lo < w.len() {
            assert(w[a - lo] == s@[a as int]);
        }
        lemma_lead_ws_unique(w, a - lo);
    }
    let ghost u = trim_start(w);
    assert(u == s@.subrange(a as int, hi as int));
    let mut b = hi;
    while b > a && is_whitespace(s[b - 1])
        invariant
            lo <= a <= b <= hi <= s@.len(),
            forall|i: int| b <= i < hi ==> is_ws(#[trigger] s@[i]),
        decreases b - a,
    {
        b = b - 1;
    }
    proof {
        let k = hi - b;
        assert forall|i: int| u.len() - k <= i < u.len() implies is_ws(#[trigger] u[i]) by {
            assert(u[i] == s@[a + i]);
        }
        if k < u.len() {
            assert(u[u.len() - k - 1] == s@[b - 1]);
        }
        lemma_trail_ws_unique(u, k as int);
        assert(s@.subrange(a as int, b as int) =~= u.take(u.len() - k));
    }
    (a, b)
}

/// Whether `p` occurs in `s` at position `at`.
pub open spec fn occurs_at(s: Seq<char>, p: Seq<char>, at: int) -> bool {
    0 <= at && at + p.len() <= s.len() && s.subrange(at, at + p.len()) == p
}

pub fn matches_at(s: &[char], p: &[char], at: usize) -> (b: bool)
    ensures
        b == occurs_at(s@, p@, at as int),
{
    if at > s.len() || p.len() > s.len() - at {
        return false;
    }
    let mut i: usize = 0;
    while i < p.len()
        invariant
            at + p.len() <= s.len(),
            i <= p@.len(),
            forall|j: int| 0 <= j < i ==> s@[at + j] == p@[j],
        decreases p@.len() - i,
    {
        if s[at + i] != p[i] {
            assert(s@.subrange(at as int, at + p@.len())[i as int] != p@[i as int]);
            return false;
        }
        i = i + 1;
    }
    assert(s@.subrange(at as int, at + p@.len()) =~= p@);
    true
}

/// First index `>= from` at which character `c` occurs in `s[..hi]`.
pub open spec fn first_char_from(s: Seq<char>, c: char, from: int, hi: int) -> Option<int>
    decreases hi - from,
{
    if from >= hi {
        None
    } else if s[from] == c {
        Some(from)
    } else {
        first_char_from(s, c, from + 1, hi)
    }
}

pub fn find_char(s: &[char], c: char, from: usize, hi: usize) -> (r: Option<usize>)
    requires
        from <= hi <= s@.len(),
    ensures
        r matches Some(i) ==> first_char_from(s@, c, from as int, hi as int) == Some(i as int),
        r is None ==> first_char_from(s@, c, from as int, hi as int) is None,
        r matches Some(i) ==> from <= i < hi && s@[i as int] == c,
        r is None ==> forall|j: int| from <= j < hi ==> s@[j] != c,
    decreases hi - from,
{
    if from >= hi {
        None
    } else if s[from] == c {
        Some(from)
    } else {
        find_char(s, c, from + 1, hi)
    }
}

/// `first_char_from` on a window equals the shifted search on the whole sequence.
pub proof fn lemma_first_char_window(s: Seq<char>, c: char, lo: int, from: int, hi: int)
    requires
        0 <= lo <= from <= hi <= s.len(),
    ensures
        first_char_from(s.subrange(lo, hi), c, from - lo, hi - lo) == (match first_char_from(s, c, from, hi) {
            Some(i) => Some(i - lo),
            None => None,
        }),
    decreases hi - from,
{
    if from < hi {
        assert(s.subrange(lo, hi)[from - lo] == s[from]);
        lemma_first_char_window(s, c, lo, from + 1, hi);
    }
}

/// First index of `c` in the whole of `s`.
pub open spec fn first_index_of(s: Seq<char>, c: char) -> Option<int> {
    first_char_from(s, c, 0, s.len() as int)
}

/// ASCII digit value of a character, if it is a decimal digit.
pub open spec fn is_digit(c: char) -> bool {
    '0' <= c && c <= '9'
}

pub open spec fn digit_val(c: char) -> nat {
    (c as u32 - '0' as u32) as nat
}

/// Value of a sequence of decimal digits.
pub open spec fn digits_value(d: Seq<char>) -> nat
    decreases d.len(),
{
    if d.len() == 0 {
        0
    } else {
        digits_value(d.drop_last()) * 10 + digit_val(d.last())
    }
}

pub open spec fn all_digits(d: Seq<char>) -> bool {
    forall|i: int| 0 <= i < d.len() ==> is_digit(#[trigger] d[i])
}

/// `<u64 as FromStr>::from_str`: an optional leading `+`, then at least one
/// decimal digit, with a value that fits in `u64`.
pub open spec fn parse_u64_spec(s: Seq<char>) -> Option<u64> {
    let d = if s.len() > 0 && s[0] == '+' { s.drop_first() } else { s };
    if d.len() == 0 || !all_digits(d) || digits_value(d) > u64::MAX {
        None
    } else {
        Some(digits_value(d) as u64)
    }
}

pub proof fn lemma_digits_value_prefix(d: Seq<char>, k: int)
    requires
        0 <= k <= d.len(),
    ensures
        digits_value(d.take(k)) <= digits_value(d),
    decreases d.len() - k,
{
    if k < d.len() {
        lemma_digits_value_prefix(d, k + 1);
        assert(d.take(k + 1).drop_last() =~= d.take(k));
        assert(digits_value(d.take(k + 1)) == digits_value(d.take(k)) * 10 + digit_val(d.take(k + 1).last()));
    } else {
        assert(d.take(k) =~= d);
    }
}

pub fn parse_u64(s: &[char], lo: usize, hi: usize) -> (r: Option<u64>)
    requires
        lo <= hi <= s@.len(),
    ensures
        r == parse_u64_spec(s@.subrange(lo as int, hi as int)),
{
    let ghost w = s@.subrange(lo as int, hi as int);
    let mut start = lo;
    if lo < hi && s[lo] == '+' {
        start = lo + 1;
    }
    let ghost d = s@.subrange(start as int, hi as int);
    assert(d =~= (if w.len() > 0 && w[0] == '+' { w.drop_first() } else { w }));
    if start == hi {
        return None;
    }
    let mut acc: u64 = 0;
    let mut i = start;
    while i < hi
        invariant
            lo <= start <= i <= hi <= s@.len(),
            d == s@.subrange(start as int, hi as int),
            w == s@.subrange(lo as int, hi as int),
            d == (if w.len() > 0 && w[0] == '+' { w.drop_first() } else { w }),
            d.len() > 0,
            forall|j: int| start <= j < i ==> is_digit(#[trigger] s@[j]),
            acc as nat == digits_value(d.take(i - start)),
        decreases hi - i,
    {
        let c = s[i];
        if !('0' <= c && c <= '9') {
            assert(d[i - start] == c);
            assert(!is_digit(d[i - start]));
            return None;
        }
        let dv = (c as u32 - '0' as u32) as u64;
        assert(d.take(i - start + 1).drop_last() =~= d.take(i - start));
        assert(d.take(i - start + 1).last() == c);
        assert(digits_value(d.take(i - start + 1)) == acc * 10 + digit_val(c));
        assert(digit_val(c) == dv);
        match acc.checked_mul(10) {
            None => {
                proof {
                    lemma_digits_value_prefix(d, i - start + 1);
                }
                return None;
            },
            Some(m) => match m.checked_add(dv) {
                None => {
                    proof {
                        lemma_digits_value_prefix(d, i - start + 1);
                    }
                    return None;
                },
                Some(v) => {
                    acc = v;
                },
            },
        }
        i = i + 1;
    }
    assert(d.take(d.len() as int) =~= d);
    assert(all_digits(d)) by {
        assert forall|j: int| 0 <= j < d.len() implies is_digit(#[trigger] d[j]) by {
            assert(d[j] == s@[start + j]);
        }
    }
    Some(acc)
}

/// Whether character `c` occurs in `s`.
pub open spec fn has_char(s: Seq<char>, c: char) -> bool {
    exists|i: int| 0 <= i < s.len() && s[i] == c
}

pub fn contains_char(s: &[char], c: char, lo: usize, hi: usize) -> (b: bool)
    requires
        lo <= hi <= s@.len(),
    ensures
        b == has_char(s@.subrange(lo as int, hi as int), c),
{
    let ghost w = s@.subrange(lo as int, hi as int);
    match find_char(s, c, lo, hi) {
        Some(i) => {
            assert(w[i - lo] == c);
            true
        },
        None => {
            assert forall|j: int| 0 <= j < w.len() implies w[j] != c by {
                assert(w[j] == s@[lo + j]);
            }
            false
        },
    }
}

/// The decimal digit character for `n < 10`.
pub open spec fn digit_char(n: nat) -> char {
    ('0' as u32 + n) as char
}

/// Decimal rendering of a natural number, as `Display` prints it.
pub open spec fn decimal(n: nat) -> Seq<char>
    decreases n,
{
    if n < 10 {
        seq![digit_char(n)]
    } else {
        decimal(n / 10).push(digit_char(n % 10))
    }
}

fn digit_to_char(d: u64) -> (c: char)
    requires
        d < 10,
    ensures
        c == digit_char(d as nat),
{
    let b: u8 = 48u8 + d as u8;
    let c = b as char;
    assert(c == digit_char(d as nat)) by {
        assert(b as u32 == '0' as u32 + d);
    }
    c
}

/// Appends the decimal rendering of `n`.
pub fn push_decimal(out: &mut Vec<char>, n: u64)
    ensures
        final(out)@ == old(out)@ + decimal(n as nat),
    decreases n,
{
    if n >= 10 {
        push_decimal(out, n / 10);
    }
    let c = digit_to_char(n % 10);
    out.push(c);
    proof {
        if n >= 10 {
            assert(old(out)@ + decimal(n as nat) =~= old(out)@ + decimal((n / 10) as nat) + seq![c]);
        } else {
            assert(old(out)@ + decimal(n as nat) =~= old(out)@ + seq![c]);
        }
    }
}

/// Signed decimal rendering, as `Display` prints an integer.
pub open spec fn signed_decimal(n: int) -> Seq<char> {
    if n < 0 {
        seq!['-'] + decimal((-n) as nat)
    } else {
        decimal(n as nat)
    }
}

pub fn push_signed_decimal(out: &mut Vec<char>, n: i64)
    ensures
        final(out)@ == old(out)@ + signed_decimal(n as int),
{
    if n < 0 {
        out.push('-');
        let m: u64 = if n == i64::MIN { 9223372036854775808u64 } else { (-n) as u64 };
        push_decimal(out, m);
        assert(final(out)@ =~= old(out)@ + signed_decimal(n as int));
    } else {
        push_decimal(out, n as u64);
    }
}

/// Appends all characters of `s`.
pub fn push_chars(out: &mut Vec<char>, s: &[char])
    ensures
        final(out)@ == old(out)@ + s@,
{
    let mut i: usize = 0;
    while i < s.len()
        invariant
            i <= s@.len(),
            out@ == old(out)@ + s@.take(i as int),
        decreases s@.len() - i,
    {
        out.push(s[i]);
        i = i + 1;
        assert(s@.take(i as int) =~= s@.take(i - 1).push(s@[i - 1]));
    }
    assert(s@.take(s@.len() as int) =~= s@);
}

/// Appends all characters of a string slice.
pub fn push_str(out: &mut Vec<char>, s: &str)
    ensures
        final(out)@ == old(out)@ + s@,
{
    let v = chars_of(s);
    push_chars(out, v.as_slice());
}

/// A copy of `s[lo..hi]`.
pub fn copy_range(s: &[char], lo: usize, hi: usize) -> (r: Vec<char>)
    requires
        lo <= hi <= s@.len(),
    ensures
        r@ == s@.subrange(lo as int, hi as int),
{
    let mut r: Vec<char> = Vec::new();
    let mut i = lo;
    while i < hi
        invariant
            lo <= i <= hi <= s@.len(),
            r@ == s@.subrange(lo as int, i as int),
        decreases hi - i,
    {
        r.push(s[i]);
        i = i + 1;
        assert(r@ =~= s@.subrange(lo as int, i as int));
    }
    r
}

/// Whether two character sequences are equal.
pub fn chars_eq(a: &[char], b: &[char]) -> (r: bool)
    ensures
        r == (a@ == b@),
{
    if a.len() != b.len() {
        return false;
    }
    let r = matches_at(a, b, 0);
    proof {
        if r {
            assert(a@ =~= a@.subrange(0, b@.len() as int));
        } else {
            assert(a@.subrange(0, b@.len() as int) =~= a@);
        }
    }
    r
}

/// `Path::join` on Unix for a UTF-8 path: an absolute `b` replaces `a`;
/// otherwise a separator is put between them unless `a` is empty or already
/// ends with one.
pub open spec fn path_join(a: Seq<char>, b: Seq<char>) -> Seq<char> {
    if b.len() > 0 && b[0] == '/' {
        b
    } else if a.len() == 0 {
        b
    } else if a.last() == '/' {
        a + b
    } else {
        a + seq!['/'] + b
    }
}

pub fn join_path(a: &[char], b: &[char]) -> (r: Vec<char>)
    ensures
        r@ == path_join(a@, b@),
{
    if b.len() > 0 && b[0] == '/' {
        return copy_range(b, 0, b.len());
    }
    let mut r: Vec<char> = Vec::new();
    push_chars(&mut r, a);
    if a.len() > 0 && a[a.len() - 1] != '/' {
        r.push('/');
    }
    push_chars(&mut r, b);
    proof {
        assert(b@.subrange(0, b@.len() as int) =~= b@);
    }
    r
}

/// Each `/` and `\` of a name replaced by `_`.
pub open spec fn flatten_separators(s: Seq<char>) -> Seq<char> {
    Seq::new(s.len(), |i: int| if s[i] == '/' || s[i] == '\\' { '_' } else { s[i] })
}

pub fn flatten_name(s: &str) -> (r: Vec<char>)
    ensures
        r@ == flatten_separators(s@),
{
    let v = chars_of(s);
    let mut r: Vec<char> = Vec::new();
    let mut i: usize = 0;
    while i < v.len()
        invariant
            i <= v@.len(),
            v@ == s@,
            r@ =~= flatten_separators(v@).take(i as int),
        decreases v@.len() - i,
    {
        let c = v[i];
        r.push(if c == '/' || c == '\\' { '_' } else { c });
        i = i + 1;
    }
    assert(flatten_separators(v@).take(v@.len() as int) =~= flatten_separators(v@));
    r
}

/// Whether `s` ends with `suffix`.
pub open spec fn ends_with(s: Seq<char>, suffix: Seq<char>) -> bool {
    s.len() >= suffix.len() && s.skip(s.len() - suffix.len()) == suffix
}

/// Whether `s` starts with `prefix`.
pub open spec fn starts_with(s: Seq<char>, prefix: Seq<char>) -> bool {
    s.len() >= prefix.len() && s.take(prefix.len() as int) == prefix
}

pub fn has_suffix(s: &[char], suffix: &[char]) -> (b: bool)
    ensures
        b == ends_with(s@, suffix@),
{
    if suffix.len() > s.len() {
        return false;
    }
    let b = matches_at(s, suffix, s.len() - suffix.len());
    assert(s@.subrange(s@.len() - suffix@.len(), s@.len() as int) =~= s@.skip(s@.len() - suffix@.len()));
    b
}

pub fn has_prefix(s: &[char], prefix: &[char]) -> (b: bool)
    ensures
        b == starts_with(s@, prefix@),
{
    if prefix.len() > s.len() {
        return false;
    }
    let b = matches_at(s, prefix, 0);
    assert(s@.subrange(0, prefix@.len() as int) =~= s@.take(prefix@.len() as int));
    b
}

/// The extension that `Path::extension` gives for a file name: the text after
/// the last `.`, unless there is none or it is the first character (and never
/// for `..`).
pub open spec fn name_extension(name: Seq<char>) -> Option<Seq<char>> {
    if name == seq!['.', '.'] {
        None
    } else {
        match last_index_of(name, '.') {
            None => None,
            Some(k) => if k == 0 { None } else { Some(name.skip(k + 1)) },
        }
    }
}

/// Last index of `c` in `s[..hi]`.
pub open spec fn last_char_before(s: Seq<char>, c: char, hi: int) -> Option<int>
    decreases hi,
{
    if hi <= 0 {
        None
    } else if s[hi - 1] == c {
        Some(hi - 1)
    } else {
        last_char_before(s, c, hi - 1)
    }
}

pub open spec fn last_index_of(s: Seq<char>, c: char) -> Option<int> {
    last_char_before(s, c, s.len() as int)
}

pub fn rfind_char(s: &[char], c: char, hi: usize) -> (r: Option<usize>)
    requires
        hi <= s@.len(),
    ensures
        r matches Some(i) ==> last_char_before(s@, c, hi as int) == Some(i as int) && i < hi,
        r is None ==> last_char_before(s@, c, hi as int) is None,
    decreases hi,
{
    if hi == 0 {
        None
    } else if s[hi - 1] == c {
        Some(hi - 1)
    } else {
        rfind_char(s, c, hi - 1)
    }
}

pub fn file_extension(name: &[char]) -> (r: Option<Vec<char>>)
    ensures
        match r {
            Some(v) => name_extension(name@) == Some(v@),
            None => name_extension(name@) is None,
        },
{
    if name.len() == 2 && name[0] == '.' && name[1] == '.' {
        assert(name@ =~= seq!['.', '.']);
        return None;
    }
    assert(name@ != seq!['.', '.']) by {
        if name@ == seq!['.', '.'] {
            assert(name@.len() == 2 && name@[0] == '.' && name@[1] == '.');
        }
    }
    match rfind_char(name, '.', name.len()) {
        None => None,
        Some(k) => if k == 0 {
            None
        } else {
            let v = copy_range(name, k + 1, name.len());
            assert(v@ =~= name@.skip(k + 1));
            Some(v)
        },
    }
}

/// `s` with every trailing copy of `suffix` removed (`str::trim_end_matches`).
pub open spec fn trim_end_all(s: Seq<char>, suffix: Seq<char>) -> Seq<char>
    decreases s.len(),
{
    if suffix.len() > 0 && ends_with(s, suffix) {
        trim_end_all(s.take(s.len() - suffix.len()), suffix)
    } else {
        s
    }
}

pub fn trim_end_matches(s: &[char], suffix: &[char]) -> (r: Vec<char>)
    ensures
        r@ == trim_end_all(s@, suffix@),
{
    let mut end = s.len();
    assert(s@.take(s@.len() as int) =~= s@);
    while suffix.len() > 0 && suffix.len() <= end && matches_at(s, suffix, end - suffix.len())
        invariant
            end <= s@.len(),
            trim_end_all(s@, suffix@) == trim_end_all(s@.take(end as int), suffix@),
        decreases end,
    {
        proof {
            let t = s@.take(end as int);
            assert(t.skip(t.len() - suffix@.len()) =~= s@.subrange(end - suffix@.len(), end as int));
            assert(t.take(t.len() - suffix@.len()) =~= s@.take(end - suffix@.len()));
        }
        end = end - suffix.len();
    }
    proof {
        let t = s@.take(end as int);
        if suffix@.len() > 0 && suffix@.len() <= end {
            assert(t.skip(t.len() - suffix@.len()) =~= s@.subrange(end - suffix@.len(), end as int));
        }
    }
    assert(s@.take(s@.len() as int) =~= s@);
    copy_range(s, 0, end)
}

/// The text `String::from_utf8_lossy` makes of `bytes`.
pub uninterp spec fn utf8_lossy_text(bytes: Seq<u8>) -> Seq<char>;

/// `String::from_utf8_lossy` (std): invalid sequences become U+FFFD; valid
/// UTF-8 is returned as it decodes.
#[verifier::external_body]
pub(crate) fn utf8_lossy(bytes: &[u8]) -> (s: String)
    ensures
        s@ == utf8_lossy_text(bytes@),
        vstd::utf8::valid_utf8(bytes@) ==> s@ == vstd::utf8::decode_utf8(bytes@),
{
    String::from_utf8_lossy(bytes).into_owned()
}

/// Whether the characters equal those of a string slice.
pub fn eq_str(a: &[char], b: &str) -> (r: bool)
    ensures
        r == (a@ == b@),
{
    let v = chars_of(b);
    chars_eq(a, v.as_slice())
}

/// Whether two string slices are equal.
pub fn str_equal(a: &str, b: &str) -> (r: bool)
    ensures
        r == (a@ == b@),
{
    let v = chars_of(a);
    eq_str(v.as_slice(), b)
}

/// First position `>= from` at which `p` occurs in `s`.
pub open spec fn first_occurrence(s: Seq<char>, p: Seq<char>, from: int) -> Option<int>
    decreases s.len() - from,
{
    if from < 0 || from + p.len() > s.len() {
        None
    } else if p.len() == 0 || s.subrange(from, from + p.len()) == p {
        Some(from)
    } else {
        first_occurrence(s, p, from + 1)
    }
}

pub fn find_str(s: &[char], p: &[char], from: usize) -> (r: Option<usize>)
    requires
        from <= s@.len(),
    ensures
        match r {
            Some(i) => first_occurrence(s@, p@, from as int) == Some(i as int) && from <= i && i + p@.len() <= s@.len(),
            None => first_occurrence(s@, p@, from as int) is None,
        },
    decreases s@.len() - from,
{
    if p.len() > s.len() - from {
        return None;
    }
    if p.len() == 0 || matches_at(s, p, from) {
        Some(from)
    } else {
        find_str(s, p, from + 1)
    }
}

/// `s` with every leading copy of `prefix` removed (`str::trim_start_matches`).
pub open spec fn trim_start_all(s: Seq<char>, prefix: Seq<char>) -> Seq<char>
    decreases s.len(),
{
    if prefix.len() > 0 && starts_with(s, prefix) {
        trim_start_all(s.skip(prefix.len() as int), prefix)
    } else {
        s
    }
}

/// Start of `trim_start_all(s[lo..hi], prefix)` inside `s`.
pub fn trim_start_matches_from(s: &[char], prefix: &[char], lo: usize, hi: usize) -> (r: usize)
    requires
        lo <= hi <= s@.len(),
    ensures
        lo <= r <= hi,
        s@.subrange(r as int, hi as int) == trim_start_all(s@.subrange(lo as int, hi as int), prefix@),
{
    let mut a = lo;
    while prefix.len() > 0 && prefix.len() <= hi - a && matches_at(s, prefix, a)
        invariant
            lo <= a <= hi <= s@.len(),
            trim_start_all(s@.subrange(lo as int, hi as int), prefix@) == trim_start_all(s@.subrange(a as int, hi as int), prefix@),
        decreases hi - a,
    {
        proof {
            let t = s@.subrange(a as int, hi as int);
            assert(t.take(prefix@.len() as int) =~= s@.subrange(a as int, a + prefix@.len()));
            assert(t.skip(prefix@.len() as int) =~= s@.subrange(a + prefix@.len(), hi as int));
        }
        a = a + prefix.len();
    }
    proof {
        let t = s@.subrange(a as int, hi as int);
        if prefix@.len() > 0 && prefix@.len() <= hi - a {
            assert(t.take(prefix@.len() as int) =~= s@.subrange(a as int, a + prefix@.len()));
        }
    }
    a
}

/// `str::starts_with` on a window `s[lo..hi]`.
pub fn window_starts_with(s: &[char], lo: usize, hi: usize, prefix: &[char]) -> (b: bool)
    requires
        lo <= hi <= s@.len(),
    ensures
        b == starts_with(s@.subrange(lo as int, hi as int), prefix@),
{
    if prefix.len() > hi - lo {
        return false;
    }
    let b = matches_at(s, prefix, lo);
    assert(s@.subrange(lo as int, hi as int).take(prefix@.len() as int) =~= s@.subrange(lo as int, lo + prefix@.len()));
    b
}

/// ASCII lower-casing of one character.
pub open spec fn ascii_lower(c: char) -> char {
    if 'A' <= c && c <= 'Z' { ((c as u32) + 32) as char } else { c }
}

pub fn to_ascii_lower(c: char) -> (r: char)
    ensures
        r == ascii_lower(c),
{
    if 'A' <= c && c <= 'Z' {
        let b = (c as u32 + 32) as u8;
        let r = b as char;
        assert(r == ascii_lower(c));
        r
    } else {
        c
    }
}

pub open spec fn lower_seq(s: Seq<char>) -> Seq<char> {
    s.map_values(|c: char| ascii_lower(c))
}

/// `str::eq_ignore_ascii_case`.
pub open spec fn eq_ignore_ascii_case_spec(a: Seq<char>, b: Seq<char>) -> bool {
    lower_seq(a) == lower_seq(b)
}

pub fn lowercase_chars(s: &[char]) -> (r: Vec<char>)
    ensures
        r@ == lower_seq(s@),
{
    let mut r: Vec<char> = Vec::new();
    let mut i: usize = 0;
    while i < s.len()
        invariant
            i <= s@.len(),
            r@ =~= lower_seq(s@.take(i as int)),
        decreases s@.len() - i,
    {
        r.push(to_ascii_lower(s[i]));
        i = i + 1;
    }
    assert(s@.take(s@.len() as int) =~= s@);
    r
}

pub fn str_eq_ignore_ascii_case(a: &str, b: &str) -> (r: bool)
    ensures
        r == eq_ignore_ascii_case_spec(a@, b@),
{
    let x = lowercase_chars(chars_of(a).as_slice());
    let y = lowercase_chars(chars_of(b).as_slice());
    chars_eq(x.as_slice(), y.as_slice())
}

/// Number of leading characters that are not whitespace.
pub open spec fn word_len(s: Seq<char>) -> nat
    decreases s.len(),
{
    if s.len() == 0 || is_ws(s[0]) {
        0
    } else {
        1 + word_len(s.drop_first())
    }
}

pub proof fn lemma_word_len(s: Seq<char>)
    ensures
        word_len(s) <= s.len(),
        forall|i: int| 0 <= i < word_len(s) ==> !is_ws(#[trigger] s[i]),
        word_len(s) < s.len() ==> is_ws(s[word_len(s) as int]),
    decreases s.len(),
{
    if s.len() > 0 && !is_ws(s[0]) {
        lemma_word_len(s.drop_first());
        assert forall|i: int| 0 <= i < word_len(s) implies !is_ws(#[trigger] s[i]) by {
            if i > 0 {
                assert(s[i] == s.drop_first()[i - 1]);
            }
        }
    }
}

pub proof fn lemma_word_len_unique(s: Seq<char>, k: int)
    requires
        0 <= k <= s.len(),
        forall|i: int| 0 <= i < k ==> !is_ws(#[trigger] s[i]),
        k < s.len() ==> is_ws(s[k]),
    ensures
        word_len(s) == k,
    decreases s.len(),
{
    if k > 0 {
        let t = s.drop_first();
        assert forall|i: int| 0 <= i < k - 1 implies !is_ws(#[trigger] t[i]) by {
            assert(t[i] == s[i + 1]);
        }
        if k - 1 < t.len() {
            assert(t[k - 1] == s[k]);
        }
        lemma_word_len_unique(t, k - 1);
    }
}

/// `str::split_whitespace`: the maximal runs of non-whitespace characters.
pub open spec fn words(s: Seq<char>) -> Seq<Seq<char>>
    decreases s.len(),
{
    let t = trim_start(s);
    if t.len() == 0 {
        Seq::empty()
    } else {
        proof {
            lemma_lead_ws(s);
            lemma_word_len(t);
        }
        let w = word_len(t);
        if w == 0 {
            Seq::empty()
        } else {
            seq![t.take(w as int)] + words(t.skip(w as int))
        }
    }
}

/// Bounds of the words of `s`, in order.
pub fn split_whitespace(s: &[char]) -> (r: Vec<(usize, usize)>)
    ensures
        r@.len() == words(s@).len(),
        forall|k: int| 0 <= k < r@.len() ==> {
            &&& (#[trigger] r@[k]).0 <= r@[k].1 <= s@.len()
            &&& s@.subrange(r@[k].0 as int, r@[k].1 as int) == words(s@)[k]
        },
{
    let mut r: Vec<(usize, usize)> = Vec::new();
    let mut i: usize = 0;
    let ghost all = words(s@);
    assert(s@.skip(0) =~= s@);
    loop
        invariant
            i <= s@.len(),
            all == words(s@),
            r@.len() + words(s@.skip(i as int)).len() == all.len(),
            forall|k: int| 0 <= k < r@.len() ==> {
                &&& (#[trigger] r@[k]).0 <= r@[k].1 <= s@.len()
                &&& s@.subrange(r@[k].0 as int, r@[k].1 as int) == all[k]
            },
            forall|k: int| 0 <= k < words(s@.skip(i as int)).len() ==> #[trigger] all[r@.len() + k] == words(s@.skip(i as int))[k],
        decreases s@.len() - i,
    {
        let ghost rest = s@.skip(i as int);
        let mut a = i;
        while a < s.len() && is_whitespace(s[a])
            invariant
                i <= a <= s@.len(),
                forall|j: int| i <= j < a ==> is_ws(#[trigger] s@[j]),
            decreases s@.len() - a,
        {
            a = a + 1;
        }
        proof {
            assert forall|j: int| 0 <= j < a - i implies is_ws(#[trigger] rest[j]) by {
                assert(rest[j] == s@[i + j]);
            }
            if a - i < rest.len() {
                assert(rest[a - i] == s@[a as int]);
            }
            lemma_lead_ws_unique(rest, a - i);
            assert(trim_start(rest) =~= s@.skip(a as int));
        }
        if a == s.len() {
            assert(words(rest).len() == 0);
            return r;
        }
        let mut b = a;
        while b < s.len() && !is_whitespace(s[b])
            invariant
                a <= b <= s@.len(),
                forall|j: int| a <= j < b ==> !is_ws(#[trigger] s@[j]),
            decreases s@.len() - b,
        {
            b = b + 1;
        }
        proof {
            let t = s@.skip(a as int);
            assert forall|j: int| 0 <= j < b - a implies !is_ws(#[trigger] t[j]) by {
                assert(t[j] == s@[a + j]);
            }
            if b - a < t.len() {
                assert(t[b - a] == s@[b as int]);
            }
            lemma_word_len_unique(t, b - a);
            assert(b > a) by {
                assert(t[0] == s@[a as int]);
            }
            assert(t.take(b - a) =~= s@.subrange(a as int, b as int));
            assert(t.skip(b - a) =~= s@.skip(b as int));
            assert(words(rest) == seq![t.take(b - a)] + words(s@.skip(b as int)));
            assert(words(rest).len() > 0);
            assert(all[r@.len() + 0int] == words(rest)[0]);
            assert forall|k: int| 0 <= k < words(s@.skip(b as int)).len() implies #[trigger] all[r@.len() + 1 + k] == words(s@.skip(b as int))[k] by {
                assert(all[r@.len() + (k + 1)] == words(rest)[k + 1]);
            }
        }
        r.push((a, b));
        i = b;
    }
}

/// `<usize as FromStr>::from_str`.
pub open spec fn parse_usize_spec(s: Seq<char>) -> Option<usize> {
    match parse_u64_spec(s) {
        Some(v) => if v <= usize::MAX { Some(v as usize) } else { None },
        None => None,
    }
}

pub fn parse_usize(s: &[char], lo: usize, hi: usize) -> (r: Option<usize>)
    requires
        lo <= hi <= s@.len(),
    ensures
        r == parse_usize_spec(s@.subrange(lo as int, hi as int)),
{
    match parse_u64(s, lo, hi) {
        Some(v) => if v <= usize::MAX as u64 { Some(v as usize) } else { None },
        None => None,
    }
}

/// Bytes of one character in UTF-8.
pub open spec fn utf8_width(c: char) -> nat {
    if (c as u32) < 0x80 { 1 } else if (c as u32) < 0x800 { 2 } else if (c as u32) < 0x10000 { 3 } else { 4 }
}

/// Bytes of a text in UTF-8 (what `str::len` counts).
pub open spec fn utf8_len(s: Seq<char>) -> nat
    decreases s.len(),
{
    if s.len() == 0 { 0 } else { utf8_len(s.drop_last()) + utf8_width(s.last()) }
}

/// Whether the UTF-8 length of `s` is at most `max`.
pub fn utf8_len_at_most(s: &[char], max: usize) -> (b: bool)
    ensures
        b == (utf8_len(s@) <= max),
{
    let mut total: usize = 0;
    let mut i: usize = 0;
    while i < s.len()
        invariant
            i <= s@.len(),
            total == utf8_len(s@.take(i as int)),
            total <= max,
        decreases s@.len() - i,
    {
        let u = s[i] as u32;
        let w: usize = if u < 0x80 { 1 } else if u < 0x800 { 2 } else if u < 0x10000 { 3 } else { 4 };
        assert(s@.take(i + 1).drop_last() =~= s@.take(i as int));
        if w > max - total {
            proof { lemma_utf8_len_prefix(s@, i as int + 1); }
            return false;
        }
        total = total + w;
        i = i + 1;
    }
    assert(s@.take(s@.len() as int) =~= s@);
    true
}

pub proof fn lemma_utf8_len_prefix(s: Seq<char>, k: int)
    requires
        0 <= k <= s.len(),
    ensures
        utf8_len(s.take(k)) <= utf8_len(s),
    decreases s.len() - k,
{
    if k < s.len() {
        lemma_utf8_len_prefix(s, k + 1);
        assert(s.take(k + 1).drop_last() =~= s.take(k));
    } else {
        assert(s.take(k) =~= s);
    }
}


/// `s` with every non-overlapping occurrence of `pat`, scanning left to right,
/// replaced by `rep` (`str::replace` for a non-empty pattern).
pub open spec fn replace_all(s: Seq<char>, pat: Seq<char>, rep: Seq<char>) -> Seq<char>
    decreases s.len(),
{
    if s.len() == 0 {
        s
    } else if pat.len() > 0 && pat.len() <= s.len() && s.take(pat.len() as int) == pat {
        rep + replace_all(s.skip(pat.len() as int), pat, rep)
    } else {
        seq![s[0]] + replace_all(s.skip(1), pat, rep)
    }
}

pub fn replace_str(s: &[char], pat: &[char], rep: &[char]) -> (r: Vec<char>)
    ensures
        r@ == replace_all(s@, pat@, rep@),
{
    let mut out: Vec<char> = Vec::new();
    let mut i: usize = 0;
    assert(s@.skip(0) =~= s@);
    assert(out@ + replace_all(s@.skip(0), pat@, rep@) =~= replace_all(s@, pat@, rep@));
    while i < s.len()
        invariant
            i <= s@.len(),
            out@ + replace_all(s@.skip(i as int), pat@, rep@) == replace_all(s@, pat@, rep@),
        decreases s@.len() - i,
    {
        let ghost rest = s@.skip(i as int);
        if pat.len() > 0 && matches_at(s, pat, i) {
            assert(rest.take(pat@.len() as int) =~= s@.subrange(i as int, i + pat@.len()));
            assert(rest.skip(pat@.len() as int) =~= s@.skip(i + pat@.len()));
            let ghost before = out@;
            push_chars(&mut out, rep);
            assert(out@ + replace_all(s@.skip(i + pat@.len()), pat@, rep@) =~= before + (rep@ + replace_all(rest.skip(pat@.len() as int), pat@, rep@)));
            i = i + pat.len();
        } else {
            proof {
                if pat@.len() > 0 && pat@.len() <= rest.len() && rest.take(pat@.len() as int) == pat@ {
                    assert(s@.subrange(i as int, i + pat@.len()) =~= rest.take(pat@.len() as int));
                }
            }
            assert(rest.skip(1) =~= s@.skip(i + 1));
            let ghost before = out@;
            out.push(s[i]);
            assert(out@ + replace_all(s@.skip(i + 1), pat@, rep@) =~= before + (seq![rest[0]] + replace_all(rest.skip(1), pat@, rep@)));
            i = i + 1;
        }
    }
    assert(s@.skip(s@.len() as int) =~= Seq::<char>::empty());
    assert(out@ + replace_all(s@.skip(i as int), pat@, rep@) =~= out@);
    out
}
} // verus!
