//! Character-level string helpers with their meaning stated over `Seq<char>`.

use vstd::prelude::*;

verus! {

/// `String::push` appends one character.
pub assume_specification[ String::push ](s: &mut String, ch: char)
    ensures
        final(s)@ == old(s)@.push(ch),
;

/// The characters of `s`, in order.
pub fn chars_of(s: &str) -> (v: Vec<char>)
    ensures
        v@ == s@,
{
    let mut v: Vec<char> = Vec::new();
    for c in it: s.chars()
        invariant
            v@ == it.seq().take(it.index() as int),
    {
        v.push(c);
    }
    v
}

/// A string holding exactly the characters `v`.
pub fn string_of(v: &[char]) -> (s: String)
    ensures
        s@ == v@,
{
    let mut s = String::new();
    let mut i: usize = 0;
    while i < v.len()
        invariant
            i <= v.len(),
            s@ == v@.take(i as int),
        decreases v.len() - i,
    {
        s.push(v[i]);
        proof { assert(v@.take(i as int).push(v@[i as int]) =~= v@.take(i + 1)); }
        i += 1;
    }
    proof { assert(v@.take(v@.len() as int) =~= v@); }
    s
}

/// The pieces of `s` left of the last separator, and the piece after it,
/// reading `s` from the start.
pub open spec fn split_acc(s: Seq<char>, sep: char) -> (Seq<Seq<char>>, Seq<char>)
    decreases s.len(),
{
    if s.len() == 0 {
        (Seq::empty(), Seq::empty())
    } else {
        let (ps, cur) = split_acc(s.drop_last(), sep);
        if s.last() == sep {
            (ps.push(cur), Seq::empty())
        } else {
            (ps, cur.push(s.last()))
        }
    }
}

/// `str::split` on one character: the pieces between separators, so one more
/// piece than there are separators, empty pieces included.
pub open spec fn split_on(s: Seq<char>, sep: char) -> Seq<Seq<char>> {
    split_acc(s, sep).0.push(split_acc(s, sep).1)
}

/// A string holding the characters `v[lo..hi]`.
pub fn string_of_range(v: &Vec<char>, lo: usize, hi: usize) -> (s: String)
    requires
        lo <= hi <= v@.len(),
    ensures
        s@ == v@.subrange(lo as int, hi as int),
{
    let mut s = String::new();
    let mut i: usize = lo;
    while i < hi
        invariant
            lo <= i <= hi <= v@.len(),
            s@ == v@.subrange(lo as int, i as int),
        decreases hi - i,
    {
        s.push(v[i]);
        proof { assert(v@.subrange(lo as int, i as int).push(v@[i as int]) =~= v@.subrange(lo as int, i + 1)); }
        i += 1;
    }
    s
}

/// `s` split at every `sep`.
pub fn split_char(s: &str, sep: char) -> (r: Vec<String>)
    ensures
        r@.len() == split_on(s@, sep).len(),
        forall|i: int| 0 <= i < r@.len() ==> #[trigger] r@[i]@ == split_on(s@, sep)[i],
{
    let cs = chars_of(s);
    let mut pieces: Vec<String> = Vec::new();
    let mut cur: Vec<char> = Vec::new();
    let mut i: usize = 0;
    while i < cs.len()
        invariant
            i <= cs@.len(),
            cs@ == s@,
            pieces@.len() == split_acc(cs@.take(i as int), sep).0.len(),
            forall|k: int| 0 <= k < pieces@.len() ==> #[trigger] pieces@[k]@ == split_acc(cs@.take(i as int), sep).0[k],
            cur@ == split_acc(cs@.take(i as int), sep).1,
        decreases cs.len() - i,
    {
        proof {
            assert(cs@.take(i + 1).drop_last() =~= cs@.take(i as int));
        }
        if cs[i] == sep {
            let piece = string_of(cur.as_slice());
            pieces.push(piece);
            cur = Vec::new();
        } else {
            cur.push(cs[i]);
        }
        i += 1;
    }
    proof { assert(cs@.take(cs@.len() as int) =~= cs@); }
    let last = string_of(cur.as_slice());
    pieces.push(last);
    pieces
}

/// `p` is a prefix of `s`.
pub open spec fn has_prefix(s: Seq<char>, p: Seq<char>) -> bool {
    p.len() <= s.len() && s.take(p.len() as int) == p
}

/// Whether `s` starts with `p`.
pub fn starts_with(s: &str, p: &str) -> (r: bool)
    ensures
        r == has_prefix(s@, p@),
{
    let a = chars_of(s);
    let b = chars_of(p);
    if b.len() > a.len() {
        return false;
    }
    let mut i: usize = 0;
    while i < b.len()
        invariant
            i <= b@.len() <= a@.len(),
            a@ == s@,
            b@ == p@,
            a@.take(i as int) == b@.take(i as int),
        decreases b.len() - i,
    {
        if a[i] != b[i] {
            proof { assert(a@.take(b@.len() as int)[i as int] != b@[i as int]); }
            return false;
        }
        proof {
            assert(a@.take(i + 1) =~= a@.take(i as int).push(a@[i as int]));
            assert(b@.take(i + 1) =~= b@.take(i as int).push(b@[i as int]));
        }
        i += 1;
    }
    proof { assert(b@.take(b@.len() as int) =~= b@); }
    true
}

/// The piece after the last `sep`, or all of `s` when it holds none: what
/// `s.rsplit(sep).next()` gives.
pub open spec fn after_last(s: Seq<char>, sep: char) -> Seq<char> {
    split_acc(s, sep).1
}

/// The piece of `s` after its last `sep`.
pub fn after_last_char(s: &str, sep: char) -> (r: String)
    ensures
        r@ == after_last(s@, sep),
{
    let cs = chars_of(s);
    let mut cur: Vec<char> = Vec::new();
    let mut i: usize = 0;
    while i < cs.len()
        invariant
            i <= cs@.len(),
            cs@ == s@,
            cur@ == split_acc(cs@.take(i as int), sep).1,
        decreases cs.len() - i,
    {
        proof {
            assert(cs@.take(i + 1).drop_last() =~= cs@.take(i as int));
        }
        if cs[i] == sep {
            cur = Vec::new();
        } else {
            cur.push(cs[i]);
        }
        i += 1;
    }
    proof { assert(cs@.take(cs@.len() as int) =~= cs@); }
    string_of(cur.as_slice())
}

/// Whether two strings hold the same characters.
pub fn str_eq(a: &str, b: &str) -> (r: bool)
    ensures
        r == (a@ == b@),
{
    let x = String::from_str(a);
    let y = String::from_str(b);
    x == y
}

pub open spec fn is_digit(c: char) -> bool {
    '0' <= c && c <= '9'
}

pub open spec fn all_digits(s: Seq<char>) -> bool {
    forall|i: int| 0 <= i < s.len() ==> is_digit(#[trigger] s[i])
}

/// The number a run of decimal digits spells.
pub open spec fn digits_value(s: Seq<char>) -> int
    decreases s.len(),
{
    if s.len() == 0 {
        0
    } else {
        digits_value(s.drop_last()) * 10 + (s.last() as int - '0' as int)
    }
}

/// What `str::parse::<i64>` accepts: an optional `+` or `-`, then one or
/// more ASCII digits, with the value in range.
pub open spec fn parse_i64(s: Seq<char>) -> Option<i64> {
    let signed = s.len() >= 1 && (s[0] == '+' || s[0] == '-');
    let digits = if signed { s.skip(1) } else { s };
    let v = if signed && s[0] == '-' { -digits_value(digits) } else { digits_value(digits) };
    if digits.len() >= 1 && all_digits(digits) && i64::MIN <= v && v <= i64::MAX {
        Some(v as i64)
    } else {
        None
    }
}

pub proof fn lemma_digits_value_grows(s: Seq<char>, k: int)
    requires
        all_digits(s),
        0 <= k <= s.len(),
    ensures
        digits_value(s) >= digits_value(s.take(k)) >= 0,
    decreases s.len(),
{
    if s.len() > 0 {
        if k == s.len() {
            assert(s.take(k) =~= s);
            lemma_digits_value_grows(s.drop_last(), k - 1);
            assert(s.drop_last().take(k - 1) =~= s.drop_last().take(k - 1));
        } else {
            lemma_digits_value_grows(s.drop_last(), k);
            assert(s.drop_last().take(k) =~= s.take(k));
        }
    }
}

/// `str::parse::<i64>`.
pub fn parse_i64_str(s: &str) -> (r: Option<i64>)
    ensures
        r == parse_i64(s@),
{
    let cs = chars_of(s);
    let n = cs.len();
    let signed = n >= 1 && (cs[0] == '+' || cs[0] == '-');
    let negative = signed && cs[0] == '-';
    let start: usize = if signed { 1 } else { 0 };
    let ghost digits = if signed { s@.skip(1) } else { s@ };
    if start >= n {
        return None;
    }
    // Magnitudes up to 2^63 are tracked exactly; anything larger is out of
    // range for either sign.
    let mut mag: u128 = 0;
    let mut i: usize = start;
    proof { assert(digits.take(0) =~= Seq::<char>::empty()); }
    while i < n
        invariant
            cs@ == s@,
            n == cs@.len(),
            start <= i <= n,
            start == if signed { 1int } else { 0int },
            signed == (s@.len() >= 1 && (s@[0] == '+' || s@[0] == '-')),
            negative == (signed && s@[0] == '-'),
            digits == (if signed { s@.skip(1) } else { s@ }),
            digits == cs@.skip(start as int),
            all_digits(digits.take(i - start)),
            mag == digits_value(digits.take(i - start)),
            mag <= 0x8000_0000_0000_0000u128,
        decreases n - i,
    {
        let c = cs[i];
        if !('0' <= c && c <= '9') {
            proof { assert(!is_digit(digits[i - start])); }
            return None;
        }
        let d = (c as u32 - '0' as u32) as u128;
        proof {
            assert(digits.take(i + 1 - start).drop_last() =~= digits.take(i - start));
            assert(digits.take(i + 1 - start).last() == c);
        }
        let next = mag * 10 + d;
        if next > 0x8000_0000_0000_0000u128 {
            proof {
                if all_digits(digits) {
                    lemma_digits_value_grows(digits, i + 1 - start);
                }
            }
            return None;
        }
        mag = next;
        i += 1;
    }
    proof { assert(digits.take(n - start) =~= digits); }
    if negative {
        Some((0i128 - mag as i128) as i64)
    } else if mag <= 0x7fff_ffff_ffff_ffffu128 {
        Some(mag as i64)
    } else {
        None
    }
}

/// `char::is_whitespace`: the Unicode `White_Space` characters.
pub open spec fn is_ws(c: char) -> bool {
    ('\u{9}' <= c && c <= '\u{d}') || c == ' ' || c == '\u{85}' || c == '\u{a0}' || c == '\u{1680}'
        || ('\u{2000}' <= c && c <= '\u{200a}') || c == '\u{2028}' || c == '\u{2029}' || c == '\u{202f}'
        || c == '\u{205f}' || c == '\u{3000}'
}

pub fn is_whitespace(c: char) -> (r: bool)
    ensures
        r == is_ws(c),
{
    ('\u{9}' <= c && c <= '\u{d}') || c == ' ' || c == '\u{85}' || c == '\u{a0}' || c == '\u{1680}'
        || ('\u{2000}' <= c && c <= '\u{200a}') || c == '\u{2028}' || c == '\u{2029}' || c == '\u{202f}'
        || c == '\u{205f}' || c == '\u{3000}'
}

/// `s` without leading whitespace.
pub open spec fn trim_start_ws(s: Seq<char>) -> Seq<char>
    decreases s.len(),
{
    if s.len() > 0 && is_ws(s[0]) {
        trim_start_ws(s.drop_first())
    } else {
        s
    }
}

/// `s` without trailing whitespace.
pub open spec fn trim_end_ws(s: Seq<char>) -> Seq<char>
    decreases s.len(),
{
    if s.len() > 0 && is_ws(s.last()) {
        trim_end_ws(s.drop_last())
    } else {
        s
    }
}

/// `str::trim`.
pub open spec fn trim_ws(s: Seq<char>) -> Seq<char> {
    trim_end_ws(trim_start_ws(s))
}

/// `str::trim_start_matches` with a non-empty pattern: every leading copy of
/// `p` removed.
pub open spec fn strip_prefixes(s: Seq<char>, p: Seq<char>) -> Seq<char>
    decreases s.len(),
{
    if p.len() > 0 && has_prefix(s, p) {
        strip_prefixes(s.skip(p.len() as int), p)
    } else {
        s
    }
}

/// `str::trim_end_matches` with one character: every trailing `c` removed.
pub open spec fn strip_trailing(s: Seq<char>, c: char) -> Seq<char>
    decreases s.len(),
{
    if s.len() > 0 && s.last() == c {
        strip_trailing(s.drop_last(), c)
    } else {
        s
    }
}

/// Whether the characters `v[at..]` start with `p`.
fn slice_has_prefix_at(v: &Vec<char>, at: usize, p: &Vec<char>) -> (r: bool)
    requires
        at <= v@.len(),
    ensures
        r == has_prefix(v@.skip(at as int), p@),
{
    if p.len() > v.len() - at {
        return false;
    }
    let mut i: usize = 0;
    assert(at + p@.len() <= v@.len());
    while i < p.len()
        invariant
            at <= v@.len(),
            v@.len() == v.len(),
            at + p@.len() <= v@.len(),
            i <= p@.len(),
            forall|j: int| 0 <= j < i ==> v@[at + j] == p@[j],
        decreases p.len() - i,
    {
        if v[at + i] != p[i] {
            proof { assert(v@.skip(at as int).take(p@.len() as int)[i as int] != p@[i as int]); }
            return false;
        }
        i += 1;
    }
    proof { assert(v@.skip(at as int).take(p@.len() as int) =~= p@); }
    true
}

/// `str::trim`.
pub fn trim(s: &str) -> (r: String)
    ensures
        r@ == trim_ws(s@),
{
    let cs = chars_of(s);
    let mut lo: usize = 0;
    proof { assert(cs@.skip(0) =~= cs@); }
    while lo < cs.len() && is_whitespace(cs[lo])
        invariant
            lo <= cs@.len(),
            cs@ == s@,
            trim_start_ws(s@) == trim_start_ws(cs@.skip(lo as int)),
        decreases cs.len() - lo,
    {
        proof { assert(cs@.skip(lo as int).drop_first() =~= cs@.skip(lo + 1)); }
        lo += 1;
    }
    let mut hi: usize = cs.len();
    let ghost mid = cs@.skip(lo as int);
    proof {
        assert(trim_start_ws(s@) == mid);
        assert(mid.take(mid.len() as int) =~= mid);
    }
    while hi > lo && is_whitespace(cs[hi - 1])
        invariant
            lo <= hi <= cs@.len(),
            mid == cs@.skip(lo as int),
            trim_end_ws(mid) == trim_end_ws(mid.take(hi - lo)),
        decreases hi - lo,
    {
        proof { assert(mid.take(hi - lo).drop_last() =~= mid.take(hi - 1 - lo)); }
        hi -= 1;
    }
    proof { assert(mid.take(hi - lo) =~= cs@.subrange(lo as int, hi as int)); }
    string_of_range(&cs, lo, hi)
}

/// `str::trim_start_matches` with a non-empty string pattern.
pub fn trim_start_matches(s: &str, p: &str) -> (r: String)
    requires
        p@.len() > 0,
    ensures
        r@ == strip_prefixes(s@, p@),
{
    let cs = chars_of(s);
    let ps = chars_of(p);
    let mut at: usize = 0;
    proof { assert(cs@.skip(0) =~= cs@); }
    while at < cs.len() && slice_has_prefix_at(&cs, at, &ps)
        invariant
            at <= cs@.len(),
            cs@ == s@,
            ps@ == p@,
            p@.len() > 0,
            strip_prefixes(s@, p@) == strip_prefixes(cs@.skip(at as int), p@),
        decreases cs.len() - at,
    {
        proof { assert(cs@.skip(at as int).skip(p@.len() as int) =~= cs@.skip(at + p@.len())); }
        at += ps.len();
    }
    proof {
        if at == cs.len() {
            assert(cs@.skip(at as int) =~= Seq::<char>::empty());
        }
        assert(cs@.skip(at as int) =~= cs@.subrange(at as int, cs@.len() as int));
    }
    string_of_range(&cs, at, cs.len())
}

/// `str::trim_end_matches` with one character.
pub fn trim_end_char(s: &str, c: char) -> (r: String)
    ensures
        r@ == strip_trailing(s@, c),
{
    let cs = chars_of(s);
    let mut hi: usize = cs.len();
    proof { assert(cs@.take(cs@.len() as int) =~= cs@); }
    while hi > 0 && cs[hi - 1] == c
        invariant
            hi <= cs@.len(),
            cs@ == s@,
            strip_trailing(s@, c) == strip_trailing(cs@.take(hi as int), c),
        decreases hi,
    {
        proof { assert(cs@.take(hi as int).drop_last() =~= cs@.take(hi - 1)); }
        hi -= 1;
    }
    proof { assert(cs@.take(hi as int) =~= cs@.subrange(0, hi as int)); }
    string_of_range(&cs, 0, hi)
}

/// `parts` joined with `sep` between neighbours.
pub open spec fn joined(parts: Seq<Seq<char>>, sep: Seq<char>) -> Seq<char>
    decreases parts.len(),
{
    if parts.len() == 0 {
        Seq::empty()
    } else if parts.len() == 1 {
        parts[0]
    } else {
        joined(parts.drop_last(), sep) + sep + parts.last()
    }
}

pub open spec fn strings_view(v: Seq<String>) -> Seq<Seq<char>> {
    v.map_values(|s: String| s@)
}

/// `[String]::join`.
pub fn join(parts: &Vec<String>, sep: &str) -> (r: String)
    ensures
        r@ == joined(strings_view(parts@), sep@),
{
    let mut out = String::new();
    let mut i: usize = 0;
    while i < parts.len()
        invariant
            i <= parts@.len(),
            out@ == joined(strings_view(parts@.take(i as int)), sep@),
        decreases parts.len() - i,
    {
        proof {
            assert(strings_view(parts@.take(i + 1)).drop_last() =~= strings_view(parts@.take(i as int)));
            assert(strings_view(parts@.take(i + 1)).last() == parts@[i as int]@);
        }
        if i > 0 {
            out.append(sep);
        }
        out.append(parts[i].as_str());
        i += 1;
    }
    proof { assert(parts@.take(parts@.len() as int) =~= parts@); }
    out
}

pub open spec fn digit_char(d: nat) -> char
    recommends
        d < 10,
{
    ((d + '0' as nat) as u32) as char
}

/// The decimal digits of `n`, without leading zeros.
pub open spec fn decimal(n: nat) -> Seq<char>
    decreases n,
{
    if n < 10 {
        seq![digit_char(n)]
    } else {
        decimal(n / 10).push(digit_char(n % 10))
    }
}

/// `s` preceded by enough zeros to make it `width` long.
pub open spec fn zero_pad(s: Seq<char>, width: nat) -> Seq<char> {
    if s.len() >= width {
        s
    } else {
        Seq::new((width - s.len()) as nat, |i: int| '0') + s
    }
}

fn digit(d: u64) -> (c: char)
    requires
        d < 10,
    ensures
        c == digit_char(d as nat),
{
    if d == 0 { '0' }
    else if d == 1 { '1' }
    else if d == 2 { '2' }
    else if d == 3 { '3' }
    else if d == 4 { '4' }
    else if d == 5 { '5' }
    else if d == 6 { '6' }
    else if d == 7 { '7' }
    else if d == 8 { '8' }
    else { '9' }
}

/// The decimal digits of `n`, zero-padded to `width`.
pub fn decimal_padded(n: u64, width: usize) -> (r: String)
    ensures
        r@ == zero_pad(decimal(n as nat), width as nat),
{
    let ds = decimal_chars(n);
    let mut out = String::new();
    let mut k: usize = ds.len();
    let mut pad: Vec<char> = Vec::new();
    while k < width
        invariant
            ds@.len() <= k <= width || (k == ds@.len() && k >= width),
            pad@.len() == k - ds@.len(),
            forall|i: int| 0 <= i < pad@.len() ==> pad@[i] == '0',
        decreases width - k,
    {
        pad.push('0');
        k += 1;
    }
    let a = string_of(pad.as_slice());
    let b = string_of(ds.as_slice());
    proof {
        if ds@.len() < width {
            assert(a@ =~= Seq::new((width - ds@.len()) as nat, |i: int| '0'));
        } else {
            assert(a@ =~= Seq::<char>::empty());
        }
    }
    a.concat(b.as_str())
}

/// The decimal digits of `n`.
pub fn decimal_chars(n: u64) -> (r: Vec<char>)
    ensures
        r@ == decimal(n as nat),
    decreases n,
{
    if n < 10 {
        let mut v = Vec::new();
        v.push(digit(n));
        v
    } else {
        let mut v = decimal_chars(n / 10);
        v.push(digit(n % 10));
        v
    }
}

/// The first place `p` occurs in `s`.
pub open spec fn occurs_at(s: Seq<char>, p: Seq<char>, i: int) -> bool {
    0 <= i && i + p.len() <= s.len() && s.subrange(i, i + p.len()) == p
}

pub open spec fn first_occurrence(s: Seq<char>, p: Seq<char>) -> Option<int> {
    if exists|i: int| occurs_at(s, p, i) && forall|j: int| 0 <= j < i ==> !occurs_at(s, p, j) {
        Some(choose|i: int| occurs_at(s, p, i) && forall|j: int| 0 <= j < i ==> !occurs_at(s, p, j))
    } else {
        None
    }
}

/// The last place `c` occurs in `s`.
pub open spec fn last_index_of(s: Seq<char>, c: char) -> Option<int> {
    if exists|i: int| 0 <= i < s.len() && s[i] == c && forall|j: int| i < j < s.len() ==> s[j] != c {
        Some(choose|i: int| 0 <= i < s.len() && s[i] == c && forall|j: int| i < j < s.len() ==> s[j] != c)
    } else {
        None
    }
}

/// Where `p` first occurs in `cs`.
pub fn find_seq(cs: &Vec<char>, p: &Vec<char>) -> (r: Option<usize>)
    ensures
        match r {
            Some(i) => first_occurrence(cs@, p@) == Some(i as int),
            None => first_occurrence(cs@, p@).is_none(),
        },
{
    let mut i: usize = 0;
    while i <= cs.len()
        invariant
            i <= cs@.len() + 1,
            cs@.len() == cs.len(),
            forall|j: int| 0 <= j < i ==> !occurs_at(cs@, p@, j),
        decreases cs.len() + 1 - i,
    {
        if slice_has_prefix_at(cs, i, p) {
            proof {
                assert(cs@.skip(i as int).take(p@.len() as int) =~= cs@.subrange(i as int, i + p@.len()));
                assert(occurs_at(cs@, p@, i as int));
                let k = choose|k: int| occurs_at(cs@, p@, k) && forall|j: int| 0 <= j < k ==> !occurs_at(cs@, p@, j);
                assert(k == i);
            }
            return Some(i);
        }
        proof {
            if occurs_at(cs@, p@, i as int) {
                assert(cs@.skip(i as int).take(p@.len() as int) =~= cs@.subrange(i as int, i + p@.len()));
            }
        }
        if i == cs.len() {
            proof {
                assert forall|j: int| !occurs_at(cs@, p@, j) by {
                    if j > cs@.len() as int {
                        assert(!occurs_at(cs@, p@, j));
                    }
                }
            }
            return None;
        }
        i += 1;
    }
    None
}

/// Where `c` last occurs in `cs`.
pub fn rfind_char(cs: &Vec<char>, c: char) -> (r: Option<usize>)
    ensures
        match r {
            Some(i) => last_index_of(cs@, c) == Some(i as int),
            None => last_index_of(cs@, c).is_none(),
        },
{
    let mut i: usize = cs.len();
    while i > 0
        invariant
            i <= cs@.len(),
            forall|j: int| i <= j < cs@.len() ==> cs@[j] != c,
        decreases i,
    {
        if cs[i - 1] == c {
            proof {
                let k = choose|k: int| 0 <= k < cs@.len() && cs@[k] == c && forall|j: int| k < j < cs@.len() ==> cs@[j] != c;
                assert(k == i - 1);
            }
            return Some(i - 1);
        }
        i -= 1;
    }
    None
}

/// `a` comes before `b` or equals it, comparing character codes from the
/// start and a proper prefix first: the order of `str` comparison.
pub open spec fn lex_le(a: Seq<char>, b: Seq<char>) -> bool
    decreases a.len(),
{
    if a.len() == 0 {
        true
    } else if b.len() == 0 {
        false
    } else if a[0] != b[0] {
        a[0] < b[0]
    } else {
        lex_le(a.drop_first(), b.drop_first())
    }
}

/// Any two strings compare one way or the other.
pub proof fn lemma_lex_le_total(a: Seq<char>, b: Seq<char>)
    ensures
        lex_le(a, b) || lex_le(b, a),
    decreases a.len(),
{
    if a.len() > 0 && b.len() > 0 {
        if a[0] == b[0] {
            lemma_lex_le_total(a.drop_first(), b.drop_first());
        }
    }
}

/// The string order is transitive.
pub proof fn lemma_lex_le_trans(a: Seq<char>, b: Seq<char>, c: Seq<char>)
    requires
        lex_le(a, b),
        lex_le(b, c),
    ensures
        lex_le(a, c),
    decreases a.len(),
{
    if a.len() > 0 && b.len() > 0 && c.len() > 0 && a[0] == b[0] && b[0] == c[0] {
        lemma_lex_le_trans(a.drop_first(), b.drop_first(), c.drop_first());
    }
}

/// Whether `a` sorts before or equal to `b`.
pub fn str_le(a: &str, b: &str) -> (r: bool)
    ensures
        r == lex_le(a@, b@),
{
    let x = chars_of(a);
    let y = chars_of(b);
    let mut i: usize = 0;
    proof {
        assert(x@.skip(0) =~= x@);
        assert(y@.skip(0) =~= y@);
    }
    while i < x.len() && i < y.len() && x[i] == y[i]
        invariant
            i <= x@.len(),
            i <= y@.len(),
            x@ == a@,
            y@ == b@,
            lex_le(a@, b@) == lex_le(x@.skip(i as int), y@.skip(i as int)),
        decreases x.len() - i,
    {
        proof {
            assert(x@.skip(i as int).drop_first() =~= x@.skip(i + 1));
            assert(y@.skip(i as int).drop_first() =~= y@.skip(i + 1));
        }
        i += 1;
    }
    if i == x.len() {
        true
    } else if i == y.len() {
        false
    } else {
        x[i] < y[i]
    }
}

/// A copy of an optional string.
pub fn clone_opt(o: &Option<String>) -> (r: Option<String>)
    ensures
        r == *o,
{
    match o {
        Some(s) => Some(s.clone()),
        None => None,
    }
}

/// `x` placed after every string that sorts before or equal to it.
pub open spec fn insert_str(s: Seq<Seq<char>>, x: Seq<char>) -> Seq<Seq<char>>
    decreases s.len(),
{
    if s.len() == 0 {
        seq![x]
    } else if lex_le(s.last(), x) {
        s.push(x)
    } else {
        insert_str(s.drop_last(), x).push(s.last())
    }
}

/// Strings in `str` order.
pub open spec fn sorted_strs(s: Seq<Seq<char>>) -> Seq<Seq<char>>
    decreases s.len(),
{
    if s.len() == 0 {
        Seq::empty()
    } else {
        insert_str(sorted_strs(s.drop_last()), s.last())
    }
}

proof fn lemma_insert_str_at(s: Seq<Seq<char>>, x: Seq<char>, j: int)
    requires
        0 <= j <= s.len(),
        forall|k: int| j <= k < s.len() ==> !lex_le(#[trigger] s[k], x),
        j == 0 || lex_le(s[j - 1], x),
    ensures
        insert_str(s, x) == s.insert(j, x),
    decreases s.len(),
{
    if s.len() == j {
        if j == 0 {
            assert(s.insert(j, x) =~= seq![x]);
        } else {
            assert(s.insert(j, x) =~= s.push(x));
        }
    } else {
        let d = s.drop_last();
        assert(forall|k: int| 0 <= k < d.len() ==> d[k] == s[k]);
        lemma_insert_str_at(d, x, j);
        assert(s.insert(j, x) =~= d.insert(j, x).push(s.last()));
    }
}

/// Sort strings as `[String]::sort` does.
pub fn sort_strings(v: Vec<String>) -> (r: Vec<String>)
    ensures
        r@.map_values(|s: String| s@) == sorted_strs(v@.map_values(|s: String| s@)),
{
    let ghost orig = v@.map_values(|s: String| s@);
    let mut rest = v;
    let mut out: Vec<String> = Vec::new();
    let ghost mut taken: int = 0;
    proof {
        assert(orig.skip(0) =~= orig);
        assert(orig.take(0) =~= Seq::<Seq<char>>::empty());
        assert(out@.map_values(|s: String| s@) =~= Seq::<Seq<char>>::empty());
    }
    while rest.len() > 0
        invariant
            0 <= taken <= orig.len(),
            rest@.map_values(|s: String| s@) == orig.skip(taken),
            out@.map_values(|s: String| s@) == sorted_strs(orig.take(taken)),
        decreases rest.len(),
    {
        let ghost rb = rest@;
        let x = rest.remove(0);
        proof {
            assert(rest@.map_values(|s: String| s@) =~= rb.map_values(|s: String| s@).drop_first());
            assert(x == rb[0]);
            assert(rb.map_values(|s: String| s@)[0] == rb[0]@);
            assert(orig.skip(taken)[0] == orig[taken]);
            assert(orig.take(taken + 1).drop_last() =~= orig.take(taken));
            assert(orig.skip(taken).drop_first() =~= orig.skip(taken + 1));
        }
        let mut j: usize = out.len();
        while j > 0 && !str_le(out[j - 1].as_str(), x.as_str())
            invariant
                j <= out@.len(),
                forall|k: int| j <= k < out@.len() ==> !lex_le(#[trigger] out@[k]@, x@),
            decreases j,
        {
            j -= 1;
        }
        let ghost ov = out@.map_values(|s: String| s@);
        proof {
            assert(forall|k: int| 0 <= k < ov.len() ==> #[trigger] ov[k] == out@[k]@);
            lemma_insert_str_at(ov, x@, j as int);
        }
        let ghost xv = x@;
        out.insert(j, x);
        proof {
            assert(out@.map_values(|s: String| s@) =~= ov.insert(j as int, xv));
            taken = taken + 1;
        }
    }
    proof {
        assert(orig.skip(taken).len() == 0);
        assert(orig.take(taken) =~= orig);
    }
    out
}

/// An integer in decimal, with a leading `-` when negative.
pub open spec fn int_text(n: int) -> Seq<char> {
    if n < 0 {
        seq!['-'] + decimal((-n) as nat)
    } else {
        decimal(n as nat)
    }
}

/// `i64::to_string`.
pub fn i64_text(n: i64) -> (r: String)
    ensures
        r@ == int_text(n as int),
{
    let mut out = String::new();
    let mag: u64 = if n < 0 {
        out.push('-');
        (0i128 - n as i128) as u64
    } else {
        n as u64
    };
    let ds = decimal_chars(mag);
    let ghost head = out@;
    let mut k: usize = 0;
    while k < ds.len()
        invariant
            k <= ds@.len(),
            out@ == head + ds@.take(k as int),
        decreases ds.len() - k,
    {
        out.push(ds[k]);
        proof { assert(ds@.take(k + 1) =~= ds@.take(k as int).push(ds@[k as int])); }
        k += 1;
    }
    proof {
        assert(ds@.take(ds@.len() as int) =~= ds@);
        if n < 0 {
            assert(head =~= seq!['-']);
        } else {
            assert(head =~= Seq::<char>::empty());
        }
    }
    out
}

/// How many times `v` occurs in `vs`.
pub open spec fn count_of(vs: Seq<Seq<char>>, v: Seq<char>) -> nat
    decreases vs.len(),
{
    if vs.len() == 0 {
        0
    } else {
        count_of(vs.drop_last(), v) + if vs.last() == v { 1nat } else { 0nat }
    }
}
} // verus!
