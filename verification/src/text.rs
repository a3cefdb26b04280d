//! Character-level text utilities with specifications: Unicode whitespace,
//! trimming, line structure and prefix tests over `Seq<char>`.

use vstd::prelude::*;
use vstd::string::StringSliceAdditionalSpecFns;

verus! {

/// The Unicode `White_Space` property, as used by `char::is_whitespace`
/// and therefore by `str::trim`.
pub open spec fn is_ws(c: char) -> bool {
    let u = c as u32;
    ||| (0x09 <= u && u <= 0x0d)
    ||| u == 0x20
    ||| u == 0x85
    ||| u == 0xa0
    ||| u == 0x1680
    ||| (0x2000 <= u && u <= 0x200a)
    ||| u == 0x2028
    ||| u == 0x2029
    ||| u == 0x202f
    ||| u == 0x205f
    ||| u == 0x3000
}

/// Executable Unicode whitespace test.
pub fn is_whitespace(c: char) -> (r: bool)
    ensures
        r == is_ws(c),
{
    let u = c as u32;
    (0x09 <= u && u <= 0x0d) || u == 0x20 || u == 0x85 || u == 0xa0 || u == 0x1680 || (0x2000
        <= u && u <= 0x200a) || u == 0x2028 || u == 0x2029 || u == 0x202f || u == 0x205f || u
        == 0x3000
}

/// Number of leading whitespace characters.
pub open spec fn leading_ws(s: Seq<char>) -> nat
    decreases s.len(),
{
    if s.len() > 0 && is_ws(s[0]) {
        1 + leading_ws(s.drop_first())
    } else {
        0
    }
}

/// Number of trailing whitespace characters.
pub open spec fn trailing_ws(s: Seq<char>) -> nat
    decreases s.len(),
{
    if s.len() > 0 && is_ws(s.last()) {
        1 + trailing_ws(s.drop_last())
    } else {
        0
    }
}

/// `str::trim_start`.
pub open spec fn trim_start(s: Seq<char>) -> Seq<char> {
    s.skip(leading_ws(s) as int)
}

/// `str::trim_end`.
pub open spec fn trim_end(s: Seq<char>) -> Seq<char> {
    s.take(s.len() - trailing_ws(s))
}

/// `str::trim`: both ends stripped of whitespace.
pub open spec fn trim(s: Seq<char>) -> Seq<char> {
    trim_end(trim_start(s))
}

/// `s[i..]` begins with `m`.
pub open spec fn starts_with_at(s: Seq<char>, i: int, m: Seq<char>) -> bool {
    0 <= i && i + m.len() <= s.len() && s.subrange(i, i + m.len()) == m
}

/// `s` begins with `m`.
pub open spec fn starts_with(s: Seq<char>, m: Seq<char>) -> bool {
    starts_with_at(s, 0, m)
}

/// `s` contains `m` as a contiguous piece.
pub open spec fn contains_seq(s: Seq<char>, m: Seq<char>) -> bool {
    exists|i: int| 0 <= i <= s.len() - m.len() && #[trigger] s.subrange(i, i + m.len()) == m
}

/// Some line of `s` (as `str::lines` splits it), once its leading
/// whitespace is removed, begins with `m`. Line starts are position 0 and
/// every position right after a `'\n'`; a marker that starts with a
/// non-whitespace character never reaches the line's end.
pub open spec fn some_line_opens_with(s: Seq<char>, m: Seq<char>) -> bool {
    exists|p: int, k: int|
        #![trigger starts_with_at(s, k, m), is_line_start(s, p)]
        0 <= p <= k && is_line_start(s, p) && blank_run(s, p, k) && starts_with_at(s, k, m)
}

/// Position `p` begins a line of `s`.
pub open spec fn is_line_start(s: Seq<char>, p: int) -> bool {
    p == 0 || (0 < p <= s.len() && s[p - 1] == '\n')
}

/// `s[p..k]` consists of whitespace other than line breaks.
pub open spec fn blank_run(s: Seq<char>, p: int, k: int) -> bool {
    forall|j: int| p <= j < k ==> is_ws(#[trigger] s[j]) && s[j] != '\n'
}

/// The first `n` characters of `s` (all of them if it is shorter).
pub open spec fn take_chars(s: Seq<char>, n: nat) -> Seq<char> {
    if s.len() <= n {
        s
    } else {
        s.take(n as int)
    }
}

pub proof fn lemma_leading_ws(s: Seq<char>, i: int)
    requires
        0 <= i <= s.len(),
        forall|j: int| 0 <= j < i ==> is_ws(#[trigger] s[j]),
        i == s.len() || !is_ws(s[i]),
    ensures
        leading_ws(s) == i,
    decreases i,
{
    if i > 0 {
        assert(is_ws(s[0]));
        let t = s.drop_first();
        assert forall|j: int| 0 <= j < i - 1 implies is_ws(#[trigger] t[j]) by {
            assert(t[j] == s[j + 1]);
        }
        if i - 1 < t.len() {
            assert(t[i - 1] == s[i]);
        }
        lemma_leading_ws(t, i - 1);
    }
}

pub proof fn lemma_trailing_ws(s: Seq<char>, e: int)
    requires
        0 <= e <= s.len(),
        forall|j: int| e <= j < s.len() ==> is_ws(#[trigger] s[j]),
        e == 0 || !is_ws(s[e - 1]),
    ensures
        trailing_ws(s) == s.len() - e,
    decreases s.len() - e,
{
    if e < s.len() {
        assert(is_ws(s.last()));
        let t = s.drop_last();
        assert forall|j: int| e <= j < t.len() implies is_ws(#[trigger] t[j]) by {
            assert(t[j] == s[j]);
        }
        if e > 0 {
            assert(t[e - 1] == s[e - 1]);
        }
        lemma_trailing_ws(t, e);
    }
}

/// The characters of a string slice, collected.
pub fn chars_of(s: &str) -> (v: Vec<char>)
    ensures
        v@ == s@,
{
    let n = s.unicode_len();
    let mut v: Vec<char> = Vec::new();
    let mut i: usize = 0;
    while i < n
        invariant
            n == s@.len(),
            i <= n,
            v@ == s@.take(i as int),
        decreases n - i,
    {
        let c = s.get_char(i);
        v.push(c);
        i = i + 1;
        assert(v@ =~= s@.take(i as int));
    }
    assert(v@ =~= s@);
    v
}

/// Bounds `(start, end)` of the trimmed part of `cs`.
pub fn trim_bounds(cs: &Vec<char>) -> (r: (usize, usize))
    ensures
        r.0 <= r.1 <= cs@.len(),
        cs@.subrange(r.0 as int, r.1 as int) == trim(cs@),
        r.0 == leading_ws(cs@),
{
    let n = cs.len();
    let mut i: usize = 0;
    while i < n && is_whitespace(cs[i])
        invariant
            n == cs@.len(),
            i <= n,
            forall|j: int| 0 <= j < i ==> is_ws(#[trigger] cs@[j]),
        decreases n - i,
    {
        i = i + 1;
    }
    proof {
        lemma_leading_ws(cs@, i as int);
    }
    let mut e: usize = n;
    while e > i && is_whitespace(cs[e - 1])
        invariant
            n == cs@.len(),
            i <= e <= n,
            forall|j: int| e <= j < n ==> is_ws(#[trigger] cs@[j]),
        decreases e,
    {
        e = e - 1;
    }
    proof {
        let t = cs@.skip(i as int);
        assert forall|j: int| (e - i) <= j < t.len() implies is_ws(#[trigger] t[j]) by {
            assert(t[j] == cs@[j + i]);
        }
        if e > i {
            assert(t[e - i - 1] == cs@[e - 1]);
        } else {
            assert(e == i);
        }
        lemma_trailing_ws(t, e - i);
        assert(cs@.subrange(i as int, e as int) =~= trim(cs@));
    }
    (i, e)
}

/// Does `cs[i..]` begin with `m`?
pub fn starts_with_at_exec(cs: &Vec<char>, i: usize, m: &str) -> (r: bool)
    ensures
        r == starts_with_at(cs@, i as int, m@),
{
    let mc = chars_of(m);
    let n = cs.len();
    let k = mc.len();
    if i > n || k > n - i {
        return false;
    }
    let mut j: usize = 0;
    while j < k
        invariant
            n == cs@.len(),
            k == mc@.len(),
            mc@ == m@,
            i + k <= n,
            j <= k,
            forall|t: int| 0 <= t < j ==> cs@[i + t] == mc@[t],
        decreases k - j,
    {
        if cs[i + j] != mc[j] {
            assert(cs@.subrange(i as int, i + k)[j as int] != m@[j as int]);
            return false;
        }
        j = j + 1;
    }
    assert(cs@.subrange(i as int, i + k) =~= m@);
    true
}


/// A copy of `cs[lo..hi]`.
pub fn slice_chars(cs: &Vec<char>, lo: usize, hi: usize) -> (v: Vec<char>)
    requires
        lo <= hi <= cs@.len(),
    ensures
        v@ == cs@.subrange(lo as int, hi as int),
{
    let mut v: Vec<char> = Vec::new();
    let mut i: usize = lo;
    while i < hi
        invariant
            lo <= i <= hi <= cs@.len(),
            v@ == cs@.subrange(lo as int, i as int),
        decreases hi - i,
    {
        v.push(cs[i]);
        i = i + 1;
        assert(v@ =~= cs@.subrange(lo as int, i as int));
    }
    v
}

/// Position `k` of `s` is reached from a line start through blanks only.
pub open spec fn blank_since_line_start(s: Seq<char>, k: int) -> bool {
    exists|p: int| #![trigger is_line_start(s, p)] 0 <= p <= k && is_line_start(s, p) && blank_run(s, p, k)
}

/// Does some line of `cs`, with its leading whitespace removed, begin with `m`?
/// `m` must begin with a character that is neither whitespace nor a line break.
pub fn some_line_opens_with_exec(cs: &Vec<char>, m: &str) -> (r: bool)
    ensures
        r == some_line_opens_with(cs@, m@),
{
    let n = cs.len();
    let mut ok = true;
    let mut k: usize = 0;
    assert(is_line_start(cs@, 0) && blank_run(cs@, 0, 0));
    while k < n
        invariant
            n == cs@.len(),
            k <= n,
            ok == blank_since_line_start(cs@, k as int),
            forall|j: int|
                0 <= j < k ==> !(blank_since_line_start(cs@, j) && #[trigger] starts_with_at(
                    cs@,
                    j,
                    m@,
                )),
        decreases n - k,
    {
        if ok && starts_with_at_exec(cs, k, m) {
            let ghost p = choose|p: int|
                #![trigger is_line_start(cs@, p)]
                0 <= p <= k && is_line_start(cs@, p) && blank_run(cs@, p, k as int);
            assert(starts_with_at(cs@, k as int, m@) && is_line_start(cs@, p));
            return true;
        }
        let c = cs[k];
        let ghost old_ok = ok;
        ok = c == '\n' || (ok && is_whitespace(c));
        proof {
            let kk = k as int;
            if c == '\n' {
                assert(is_line_start(cs@, kk + 1));
                assert(blank_run(cs@, kk + 1, kk + 1));
            } else if old_ok && is_ws(c) {
                let p = choose|p: int|
                    #![trigger is_line_start(cs@, p)]
                    0 <= p <= kk && is_line_start(cs@, p) && blank_run(cs@, p, kk);
                assert(blank_run(cs@, p, kk + 1));
                assert(is_line_start(cs@, p));
            } else {
                if blank_since_line_start(cs@, kk + 1) {
                    let p = choose|p: int|
                        #![trigger is_line_start(cs@, p)]
                        0 <= p <= kk + 1 && is_line_start(cs@, p) && blank_run(cs@, p, kk + 1);
                    if p == kk + 1 {
                        assert(cs@[kk] == '\n');
                    } else {
                        assert(is_ws(cs@[kk]));
                        assert(blank_run(cs@, p, kk));
                        assert(is_line_start(cs@, p));
                        assert(blank_since_line_start(cs@, kk));
                    }
                }
            }
        }
        k = k + 1;
    }
    if ok && starts_with_at_exec(cs, n, m) {
        let ghost p = choose|p: int|
            #![trigger is_line_start(cs@, p)]
            0 <= p <= n && is_line_start(cs@, p) && blank_run(cs@, p, n as int);
        assert(starts_with_at(cs@, n as int, m@) && is_line_start(cs@, p));
        return true;
    }
    proof {
        if some_line_opens_with(cs@, m@) {
            let (p, kk) = choose|p: int, kk: int|
                #![trigger starts_with_at(cs@, kk, m@), is_line_start(cs@, p)]
                0 <= p <= kk && is_line_start(cs@, p) && blank_run(cs@, p, kk) && starts_with_at(
                    cs@,
                    kk,
                    m@,
                );
            assert(is_line_start(cs@, p));
            assert(blank_since_line_start(cs@, kk));
            assert(starts_with_at(cs@, kk, m@));
        }
    }
    false
}


/// The character of a decimal digit.
pub open spec fn digit_char(d: nat) -> char {
    if d == 0 { '0' } else if d == 1 { '1' } else if d == 2 { '2' } else if d == 3 { '3' }
    else if d == 4 { '4' } else if d == 5 { '5' } else if d == 6 { '6' } else if d == 7 { '7' }
    else if d == 8 { '8' } else { '9' }
}

/// The decimal representation of `n`, as `Display` writes an unsigned integer.
pub open spec fn decimal(n: nat) -> Seq<char>
    decreases n,
{
    if n < 10 {
        seq![digit_char(n)]
    } else {
        decimal(n / 10).push(digit_char(n % 10))
    }
}

pub proof fn lemma_decimal_len(n: nat)
    ensures
        decimal(n).len() >= 1,
        n >= 10 ==> decimal(n).len() >= 2,
    decreases n,
{
    if n >= 10 {
        lemma_decimal_len(n / 10);
    }
}

/// Different numbers are written differently.
pub proof fn lemma_decimal_injective(a: nat, b: nat)
    requires
        decimal(a) == decimal(b),
    ensures
        a == b,
    decreases a,
{
    lemma_decimal_len(a);
    lemma_decimal_len(b);
    if a >= 10 && b >= 10 {
        assert(decimal(a).last() == digit_char(a % 10));
        assert(decimal(b).last() == digit_char(b % 10));
        assert(decimal(a).drop_last() =~= decimal(a / 10));
        assert(decimal(b).drop_last() =~= decimal(b / 10));
        lemma_decimal_injective(a / 10, b / 10);
    } else if a < 10 && b < 10 {
        assert(decimal(a)[0] == digit_char(a));
        assert(decimal(b)[0] == digit_char(b));
    }
}

fn digit_str(d: u128) -> (r: &'static str)
    requires
        d < 10,
    ensures
        r@ == seq![digit_char(d as nat)],
{
    proof {
        reveal_strlit("0");
        reveal_strlit("1");
        reveal_strlit("2");
        reveal_strlit("3");
        reveal_strlit("4");
        reveal_strlit("5");
        reveal_strlit("6");
        reveal_strlit("7");
        reveal_strlit("8");
        reveal_strlit("9");
    }
    if d == 0 { "0" } else if d == 1 { "1" } else if d == 2 { "2" } else if d == 3 { "3" }
    else if d == 4 { "4" } else if d == 5 { "5" } else if d == 6 { "6" } else if d == 7 { "7" }
    else if d == 8 { "8" } else { "9" }
}

/// The decimal representation of `n`.
pub fn decimal_string(n: u128) -> (r: String)
    ensures
        r@ == decimal(n as nat),
    decreases n,
{
    if n < 10 {
        String::from_str(digit_str(n))
    } else {
        let s = decimal_string(n / 10);
        s.concat(digit_str(n % 10))
    }
}


/// The first position at or after `i` holding a line feed, or `s.len()`.
pub open spec fn next_newline(s: Seq<char>, i: int) -> int
    decreases s.len() - i,
{
    if i >= s.len() {
        s.len() as int
    } else if s[i] == '\n' {
        i
    } else {
        next_newline(s, i + 1)
    }
}

/// The line `s[start..e]`, without the carriage return of a `"\r\n"` ending.
pub open spec fn line_text(s: Seq<char>, start: int, e: int) -> Seq<char> {
    if e < s.len() && e > start && s[e - 1] == '\r' {
        s.subrange(start, e - 1)
    } else {
        s.subrange(start, e)
    }
}

/// The lines of `s[start..]` as `str::lines` yields them.
pub open spec fn lines_from(s: Seq<char>, start: int) -> Seq<Seq<char>>
    decreases s.len() - start,
{
    if start < 0 || start >= s.len() {
        Seq::empty()
    } else {
        let e = next_newline(s, start);
        if e < s.len() {
            proof {
                lemma_next_newline_bound(s, start);
            }
            seq![line_text(s, start, e)] + lines_from(s, e + 1)
        } else {
            seq![line_text(s, start, e)]
        }
    }
}

/// `str::lines`: split at `'\n'` (a `"\r\n"` ending counts as one), with no
/// empty line after a final line ending.
pub open spec fn lines(s: Seq<char>) -> Seq<Seq<char>> {
    lines_from(s, 0)
}

/// The texts joined with the separator `sep` between each two.
pub open spec fn join(parts: Seq<Seq<char>>, sep: Seq<char>) -> Seq<char>
    decreases parts.len(),
{
    if parts.len() == 0 {
        Seq::empty()
    } else if parts.len() == 1 {
        parts[0]
    } else {
        join(parts.drop_last(), sep) + sep + parts.last()
    }
}

pub proof fn lemma_next_newline(s: Seq<char>, i: int, j: int)
    requires
        0 <= i <= j <= s.len(),
        forall|k: int| i <= k < j ==> s[k] != '\n',
    ensures
        next_newline(s, i) == next_newline(s, j),
    decreases j - i,
{
    if i < j {
        lemma_next_newline(s, i + 1, j);
    }
}

pub proof fn lemma_next_newline_bound(s: Seq<char>, i: int)
    requires
        0 <= i,
    ensures
        i <= next_newline(s, i) <= s.len() || (i > s.len() && next_newline(s, i) == s.len()),
        next_newline(s, i) < s.len() ==> s[next_newline(s, i)] == '\n',
    decreases s.len() - i,
{
    if i < s.len() && s[i] != '\n' {
        lemma_next_newline_bound(s, i + 1);
    }
}

/// The lines of `s`.
pub fn lines_of(s: &str) -> (r: Vec<String>)
    ensures
        r@.map_values(|l: String| l@) == lines(s@),
{
    let cs = chars_of(s);
    let n = cs.len();
    let mut out: Vec<String> = Vec::new();
    let mut start: usize = 0;
    while start < n
        invariant
            cs@ == s@,
            n == s@.len(),
            start <= n,
            out@.map_values(|l: String| l@) + lines_from(s@, start as int) == lines(s@),
        decreases n - start,
    {
        let mut e = start;
        while e < n && cs[e] != '\n'
            invariant
                cs@ == s@,
                n == s@.len(),
                start <= e <= n,
                forall|k: int| start <= k < e ==> s@[k] != '\n',
            decreases n - e,
        {
            e = e + 1;
        }
        proof {
            lemma_next_newline(s@, start as int, e as int);
        }
        let end = if e < n && e > start && cs[e - 1] == '\r' {
            e - 1
        } else {
            e
        };
        let line = s.substring_char(start, end);
        let ghost prev = out@;
        let ghost st = start as int;
        out.push(String::from_str(line));
        proof {
            let pm = prev.map_values(|l: String| l@);
            let om = out@.map_values(|l: String| l@);
            assert(om =~= pm.push(line_text(s@, st, e as int)));
            assert(lines_from(s@, st) == (if (e as int) < s@.len() {
                seq![line_text(s@, st, e as int)] + lines_from(s@, e + 1)
            } else {
                seq![line_text(s@, st, e as int)]
            }));
        }
        if e < n {
            start = e + 1;
            proof {
                let pm = prev.map_values(|l: String| l@);
                let om = out@.map_values(|l: String| l@);
                assert(om + lines_from(s@, start as int) =~= pm + lines_from(s@, st));
            }
        } else {
            start = n;
            proof {
                let pm = prev.map_values(|l: String| l@);
                let om = out@.map_values(|l: String| l@);
                assert(om + lines_from(s@, start as int) =~= pm + lines_from(s@, st));
            }
        }
    }
    assert(out@.map_values(|l: String| l@) + Seq::<Seq<char>>::empty() =~= out@.map_values(|l: String| l@));
    out
}


/// Does `s` contain `m`?
pub fn contains_str(s: &str, m: &str) -> (r: bool)
    ensures
        r == contains_seq(s@, m@),
{
    let cs = chars_of(s);
    let n = cs.len();
    let k = m.unicode_len();
    if k > n {
        return false;
    }
    let last = n - k;
    let mut i: usize = 0;
    loop
        invariant
            cs@ == s@,
            n == s@.len(),
            k == m@.len(),
            last == n - k,
            i <= last,
            forall|j: int| 0 <= j < i ==> #[trigger] s@.subrange(j, j + k) != m@,
        decreases last - i,
    {
        if starts_with_at_exec(&cs, i, m) {
            assert(s@.subrange(i as int, i + k) == m@);
            return true;
        }
        if i == last {
            return false;
        }
        i = i + 1;
    }
}

/// `s` with leading and trailing whitespace removed, as a new string.
pub fn trimmed(s: &str) -> (r: String)
    ensures
        r@ == trim(s@),
{
    let cs = chars_of(s);
    let (a, b) = trim_bounds(&cs);
    let t = s.substring_char(a, b);
    String::from_str(t)
}

/// The largest character boundary of `bytes` at or before `n`.
pub open spec fn boundary_at_most(bytes: Seq<u8>, n: int) -> int
    decreases n,
{
    if n <= 0 {
        0
    } else if vstd::utf8::is_char_boundary(bytes, n) {
        n
    } else {
        boundary_at_most(bytes, n - 1)
    }
}

/// `s` cut to at most `n` bytes of UTF-8 without splitting a character.
pub open spec fn truncate_bytes(s: Seq<char>, n: nat) -> Seq<char> {
    let b = vstd::utf8::encode_utf8(s);
    if b.len() <= n {
        s
    } else {
        vstd::utf8::decode_utf8(b.take(boundary_at_most(b, n as int)))
    }
}

/// `s` cut to at most `max_bytes` bytes without splitting a character.
pub fn truncate_str(s: &str, max_bytes: usize) -> (r: &str)
    ensures
        r@ == truncate_bytes(s@, max_bytes as nat),
{
    let ghost b = vstd::utf8::encode_utf8(s@);
    let bytes = s.as_bytes();
    if bytes.len() <= max_bytes {
        return s;
    }
    let mut end = max_bytes;
    while end > 0 && !s.is_char_boundary(end)
        invariant
            b == s.spec_bytes(),
            end <= max_bytes,
            (max_bytes as int) < b.len(),
            boundary_at_most(b, max_bytes as int) == boundary_at_most(b, end as int),
        decreases end,
    {
        end = end - 1;
    }
    proof {
        vstd::utf8::encode_utf8_valid_utf8(s@);
    }
    let (head, _) = s.split_at(end);
    proof {
        vstd::utf8::encode_utf8_decode_utf8(head@);
        assert(head.spec_bytes() =~= b.take(end as int));
    }
    head
}

} // verus!
