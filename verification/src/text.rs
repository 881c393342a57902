//! Text helpers shared by the whole crate: comparing, splitting and formatting strings,
//! each stated over the characters the string holds.

use vstd::prelude::*;

verus! {

/// `String::push` appends one character.
pub assume_specification[ String::push ](s: &mut String, ch: char)
    ensures
        final(s)@ == old(s)@.push(ch),
;

// ── Specifications ──────────────────────────────────────────────────────────

/// Unicode `White_Space`, the set `char::is_whitespace` tests against.
pub open spec fn is_ws(c: char) -> bool {
    let u = c as u32;
    ||| (0x09 <= u && u <= 0x0D)
    ||| u == 0x20
    ||| u == 0x85
    ||| u == 0xA0
    ||| u == 0x1680
    ||| (0x2000 <= u && u <= 0x200A)
    ||| u == 0x2028
    ||| u == 0x2029
    ||| u == 0x202F
    ||| u == 0x205F
    ||| u == 0x3000
}

/// The words of `s` after `cur`, which has been read but not yet ended.
pub open spec fn words_from(s: Seq<char>, cur: Seq<char>) -> Seq<Seq<char>>
    decreases s.len(),
{
    if s.len() == 0 {
        if cur.len() == 0 {
            Seq::empty()
        } else {
            seq![cur]
        }
    } else if is_ws(s[0]) {
        let rest = words_from(s.drop_first(), Seq::empty());
        if cur.len() == 0 {
            rest
        } else {
            seq![cur] + rest
        }
    } else {
        words_from(s.drop_first(), cur.push(s[0]))
    }
}

/// The non-empty runs of non-whitespace characters of `s`, in order: what
/// `str::split_whitespace` yields. This is the word split used wherever a field is split
/// into words for searching; it is a whitespace tokenizer's split, stated here and
/// proved, and only that split — no other tokenizer's rules are modelled.
pub open spec fn words(s: Seq<char>) -> Seq<Seq<char>> {
    words_from(s, Seq::empty())
}

/// The characters of every string in `v`.
pub open spec fn views(v: Seq<String>) -> Seq<Seq<char>> {
    v.map_values(|w: String| w@)
}

pub open spec fn seq_starts_with(s: Seq<char>, p: Seq<char>) -> bool {
    p.len() <= s.len() && s.subrange(0, p.len() as int) == p
}

pub open spec fn seq_ends_with(s: Seq<char>, p: Seq<char>) -> bool {
    p.len() <= s.len() && s.subrange(s.len() - p.len(), s.len() as int) == p
}

/// Lexicographic order on characters by code point, which is the order `str`'s `Ord`
/// gives (UTF-8 preserves code point order byte by byte).
pub open spec fn seq_le(a: Seq<char>, b: Seq<char>) -> bool
    decreases a.len(),
{
    if a.len() == 0 {
        true
    } else if b.len() == 0 {
        false
    } else if (a[0] as int) < (b[0] as int) {
        true
    } else if (a[0] as int) > (b[0] as int) {
        false
    } else {
        seq_le(a.drop_first(), b.drop_first())
    }
}

pub open spec fn digit_char(d: nat) -> char
    recommends
        d < 16,
{
    if d < 10 {
        (('0' as u32) + d) as char
    } else {
        (('a' as u32) + d - 10) as char
    }
}

/// Decimal digits of `n`, without sign or leading zeros (`"0"` for zero).
pub open spec fn dec(n: nat) -> Seq<char>
    decreases n,
{
    if n < 10 {
        seq![digit_char(n)]
    } else {
        dec(n / 10).push(digit_char(n % 10))
    }
}

/// Decimal text of a signed number.
pub open spec fn dec_int(n: int) -> Seq<char> {
    if n < 0 {
        seq!['-'] + dec((-n) as nat)
    } else {
        dec(n as nat)
    }
}

/// `s` padded on the left with zeros to at least `width` characters.
pub open spec fn zero_pad(s: Seq<char>, width: nat) -> Seq<char> {
    if s.len() >= width {
        s
    } else {
        Seq::new((width - s.len()) as nat, |i: int| '0') + s
    }
}

/// Two lowercase hex digits per byte.
pub open spec fn hex(b: Seq<u8>) -> Seq<char>
    decreases b.len(),
{
    if b.len() == 0 {
        Seq::empty()
    } else {
        hex(b.drop_last()).push(digit_char((b.last() / 16) as nat)).push(
            digit_char((b.last() % 16) as nat),
        )
    }
}

/// `s` with every character for which `f` holds replaced by `r`.
pub open spec fn replace_chars(s: Seq<char>, f: spec_fn(char) -> bool, r: char) -> Seq<char> {
    s.map_values(|c: char| if f(c) { r } else { c })
}

/// `s` with every `c` doubled.
pub open spec fn double_char(s: Seq<char>, c: char) -> Seq<char>
    decreases s.len(),
{
    if s.len() == 0 {
        Seq::empty()
    } else {
        let rest = double_char(s.drop_last(), c);
        if s.last() == c {
            rest.push(c).push(c)
        } else {
            rest.push(s.last())
        }
    }
}

/// `parts` joined with `sep` between neighbours.
pub open spec fn join(parts: Seq<Seq<char>>, sep: Seq<char>) -> Seq<char>
    decreases parts.len(),
{
    if parts.len() == 0 {
        Seq::empty()
    } else if parts.len() == 1 {
        parts[0]
    } else {
        join(parts.drop_last(), sep) + sep + parts.last()
    }
}

/// Strictly before, as text.
pub open spec fn seq_lt(a: Seq<char>, b: Seq<char>) -> bool {
    seq_le(a, b) && a != b
}

// ── Proofs ──────────────────────────────────────────────────────────────────

proof fn lemma_seq_le_step(a: Seq<char>, b: Seq<char>, i: int)
    requires
        0 <= i,
        i <= a.len(),
        i <= b.len(),
        a.subrange(0, i) == b.subrange(0, i),
    ensures
        seq_le(a, b) == seq_le(a.subrange(i, a.len() as int), b.subrange(i, b.len() as int)),
    decreases i,
{
    if i > 0 {
        assert(a[0] == b.subrange(0, i)[0]);
        assert forall|k: int| 0 <= k < i - 1 implies a.drop_first()[k] == b.drop_first()[k] by {
            assert(a.subrange(0, i)[k + 1] == b.subrange(0, i)[k + 1]);
            assert(a.subrange(0, i)[k + 1] == a[k + 1]);
            assert(b.subrange(0, i)[k + 1] == b[k + 1]);
        }
        assert(a.drop_first().subrange(0, i - 1) =~= b.drop_first().subrange(0, i - 1));
        lemma_seq_le_step(a.drop_first(), b.drop_first(), i - 1);
        assert(a.drop_first().subrange(i - 1, a.len() - 1) == a.subrange(i, a.len() as int));
        assert(b.drop_first().subrange(i - 1, b.len() - 1) == b.subrange(i, b.len() as int));
    } else {
        assert(a.subrange(0, a.len() as int) == a);
        assert(b.subrange(0, b.len() as int) == b);
    }
}

proof fn lemma_words_step(s: Seq<char>, i: int, cur: Seq<char>)
    requires
        0 <= i < s.len(),
    ensures
        words_from(s.subrange(i, s.len() as int), cur) == (if is_ws(s[i]) {
            let rest = words_from(s.subrange(i + 1, s.len() as int), Seq::empty());
            if cur.len() == 0 {
                rest
            } else {
                seq![cur] + rest
            }
        } else {
            words_from(s.subrange(i + 1, s.len() as int), cur.push(s[i]))
        }),
{
    let t = s.subrange(i, s.len() as int);
    assert(t.drop_first() == s.subrange(i + 1, s.len() as int));
    assert(t[0] == s[i]);
}

/// Text order is total.
pub proof fn lemma_seq_le_total(a: Seq<char>, b: Seq<char>)
    ensures
        seq_le(a, b) || seq_le(b, a),
    decreases a.len(),
{
    if a.len() > 0 && b.len() > 0 && a[0] == b[0] {
        lemma_seq_le_total(a.drop_first(), b.drop_first());
    }
}

/// Text order is antisymmetric.
pub proof fn lemma_seq_le_antisym(a: Seq<char>, b: Seq<char>)
    requires
        seq_le(a, b),
        seq_le(b, a),
    ensures
        a == b,
    decreases a.len(),
{
    if a.len() > 0 && b.len() > 0 {
        if a[0] == b[0] {
            lemma_seq_le_antisym(a.drop_first(), b.drop_first());
            assert(a =~= seq![a[0]] + a.drop_first());
            assert(b =~= seq![b[0]] + b.drop_first());
        } else {
            assert((a[0] as int) != (b[0] as int));
        }
    } else {
        assert(a.len() == 0 && b.len() == 0);
        assert(a =~= b);
    }
}

/// Text order is transitive.
pub proof fn lemma_seq_le_trans(a: Seq<char>, b: Seq<char>, c: Seq<char>)
    requires
        seq_le(a, b),
        seq_le(b, c),
    ensures
        seq_le(a, c),
    decreases a.len(),
{
    if a.len() > 0 && b.len() > 0 && c.len() > 0 {
        if a[0] == b[0] && b[0] == c[0] {
            lemma_seq_le_trans(a.drop_first(), b.drop_first(), c.drop_first());
        }
    }
}

/// Text order is reflexive.
pub proof fn lemma_seq_le_refl(a: Seq<char>)
    ensures
        seq_le(a, a),
    decreases a.len(),
{
    if a.len() > 0 {
        lemma_seq_le_refl(a.drop_first());
    }
}

// ── Executable helpers ──────────────────────────────────────────────────────

/// Whether `c` is Unicode whitespace.
pub fn is_whitespace(c: char) -> (b: bool)
    ensures
        b == is_ws(c),
{
    let u = c as u32;
    (0x09 <= u && u <= 0x0D) || u == 0x20 || u == 0x85 || u == 0xA0 || u == 0x1680 || (0x2000
        <= u && u <= 0x200A) || u == 0x2028 || u == 0x2029 || u == 0x202F || u == 0x205F || u
        == 0x3000
}

/// A new `String` holding the characters of `s`.
pub fn owned(s: &str) -> (r: String)
    ensures
        r@ == s@,
{
    String::from_str(s)
}

/// The characters of `s`, one by one.
pub fn chars_of(s: &str) -> (v: Vec<char>)
    ensures
        v@ == s@,
{
    let n = s.unicode_len();
    let mut v: Vec<char> = Vec::new();
    let mut i: usize = 0;
    while i < n
        invariant
            n == s@.len(),
            i <= n,
            v@ == s@.subrange(0, i as int),
        decreases n - i,
    {
        v.push(s.get_char(i));
        i += 1;
    }
    v
}

/// A `String` of the given characters.
pub fn string_of_chars(v: &Vec<char>) -> (s: String)
    ensures
        s@ == v@,
{
    let mut s = String::new();
    let mut i: usize = 0;
    while i < v.len()
        invariant
            i <= v.len(),
            s@ == v@.subrange(0, i as int),
        decreases v.len() - i,
    {
        s.push(v[i]);
        i += 1;
    }
    s
}

/// Appends `t` to `s`.
pub fn push_str(s: &mut String, t: &str)
    ensures
        final(s)@ == old(s)@ + t@,
{
    s.append(t);
}

/// Whether two strings hold the same characters.
pub fn str_eq(a: &str, b: &str) -> (r: bool)
    ensures
        r == (a@ == b@),
{
    let n = a.unicode_len();
    let m = b.unicode_len();
    if n != m {
        return false;
    }
    let mut i: usize = 0;
    while i < n
        invariant
            n == a@.len(),
            m == b@.len(),
            n == m,
            i <= n,
            a@.subrange(0, i as int) == b@.subrange(0, i as int),
        decreases n - i,
    {
        if a.get_char(i) != b.get_char(i) {
            return false;
        }
        assert(a@.subrange(0, i + 1) == a@.subrange(0, i as int).push(a@[i as int]));
        assert(b@.subrange(0, i + 1) == b@.subrange(0, i as int).push(b@[i as int]));
        i += 1;
    }
    assert(a@ == a@.subrange(0, n as int));
    assert(b@ == b@.subrange(0, n as int));
    true
}

/// Whether `s` begins with `p`.
pub fn starts_with(s: &str, p: &str) -> (r: bool)
    ensures
        r == seq_starts_with(s@, p@),
{
    let n = s.unicode_len();
    let m = p.unicode_len();
    if m > n {
        return false;
    }
    let mut i: usize = 0;
    while i < m
        invariant
            n == s@.len(),
            m == p@.len(),
            m <= n,
            i <= m,
            s@.subrange(0, i as int) == p@.subrange(0, i as int),
        decreases m - i,
    {
        if s.get_char(i) != p.get_char(i) {
            assert(s@.subrange(0, m as int)[i as int] != p@[i as int]);
            return false;
        }
        assert(s@.subrange(0, i + 1) == s@.subrange(0, i as int).push(s@[i as int]));
        assert(p@.subrange(0, i + 1) == p@.subrange(0, i as int).push(p@[i as int]));
        i += 1;
    }
    assert(p@ == p@.subrange(0, m as int));
    true
}

/// Whether `a` sorts at or before `b` as text.
pub fn str_le(a: &str, b: &str) -> (r: bool)
    ensures
        r == seq_le(a@, b@),
{
    let n = a.unicode_len();
    let m = b.unicode_len();
    let mut i: usize = 0;
    while i < n && i < m
        invariant
            n == a@.len(),
            m == b@.len(),
            i <= n,
            i <= m,
            a@.subrange(0, i as int) == b@.subrange(0, i as int),
        decreases n - i,
    {
        let x = a.get_char(i);
        let y = b.get_char(i);
        if x != y {
            proof {
                lemma_seq_le_step(a@, b@, i as int);
                assert(a@.subrange(i as int, n as int)[0] == x);
                assert(b@.subrange(i as int, m as int)[0] == y);
            }
            return (x as u32) < (y as u32);
        }
        assert(a@.subrange(0, i + 1) == a@.subrange(0, i as int).push(a@[i as int]));
        assert(b@.subrange(0, i + 1) == b@.subrange(0, i as int).push(b@[i as int]));
        i += 1;
    }
    proof {
        lemma_seq_le_step(a@, b@, i as int);
    }
    i == n
}

/// Whether `s` holds the character `c`.
pub fn contains_char(s: &str, c: char) -> (r: bool)
    ensures
        r == s@.contains(c),
{
    let n = s.unicode_len();
    let mut i: usize = 0;
    while i < n
        invariant
            n == s@.len(),
            i <= n,
            forall|j: int| 0 <= j < i ==> s@[j] != c,
        decreases n - i,
    {
        if s.get_char(i) == c {
            return true;
        }
        i += 1;
    }
    false
}

/// The words of `s`, split at whitespace with empty pieces dropped.
pub fn split_whitespace(s: &str) -> (r: Vec<String>)
    ensures
        views(r@) == words(s@),
{
    let n = s.unicode_len();
    let mut out: Vec<String> = Vec::new();
    let mut cur: Vec<char> = Vec::new();
    let mut i: usize = 0;
    proof {
        assert(s@.subrange(0, n as int) == s@);
    }
    while i < n
        invariant
            n == s@.len(),
            i <= n,
            views(out@) + words_from(s@.subrange(i as int, n as int), cur@) == words(s@),
        decreases n - i,
    {
        let c = s.get_char(i);
        let ghost old_out = views(out@);
        proof {
            lemma_words_step(s@, i as int, cur@);
        }
        if is_whitespace(c) {
            if cur.len() > 0 {
                let w = string_of_chars(&cur);
                out.push(w);
                proof {
                    assert(views(out@) == old_out.push(cur@));
                    let rest = words_from(s@.subrange(i + 1, n as int), Seq::empty());
                    assert(old_out + (seq![cur@] + rest) == old_out.push(cur@) + rest);
                }
                cur = Vec::new();
            } else {
                proof {
                    assert(cur@ == Seq::<char>::empty());
                }
            }
        } else {
            cur.push(c);
        }
        i += 1;
    }
    proof {
        assert(s@.subrange(n as int, n as int) == Seq::<char>::empty());
    }
    if cur.len() > 0 {
        let w = string_of_chars(&cur);
        let ghost old_out = views(out@);
        out.push(w);
        proof {
            assert(views(out@) == old_out.push(cur@));
            assert(old_out + seq![cur@] == old_out.push(cur@));
        }
    } else {
        proof {
            assert(views(out@) + Seq::<Seq<char>>::empty() == views(out@));
        }
    }
    out
}

/// Decimal text of `n`.
pub fn u64_to_dec(n: u64) -> (s: String)
    ensures
        s@ == dec(n as nat),
{
    let mut digits: Vec<char> = Vec::new();
    let mut m: u64 = n;
    // Digits are collected least significant first, then reversed.
    while m >= 10
        invariant
            m <= n,
            dec(n as nat) == dec(m as nat) + digits@.reverse(),
        decreases m,
    {
        let d = m % 10;
        let c = ((('0' as u32) + (d as u32)) as u8) as char;
        proof {
            assert(c == digit_char(d as nat));
        }
        let ghost before = digits@;
        digits.push(c);
        proof {
            assert(digits@.reverse() =~= seq![c] + before.reverse());
            assert(dec(m as nat) == dec((m / 10) as nat).push(c));
            assert(dec((m / 10) as nat).push(c) + before.reverse() =~= dec((m / 10) as nat) + (
            seq![c] + before.reverse()));
        }
        m = m / 10;
    }
    let c = ((('0' as u32) + (m as u32)) as u8) as char;
    proof {
        assert(c == digit_char(m as nat));
        assert(dec(m as nat) == seq![c]);
    }
    let ghost before = digits@;
    digits.push(c);
    proof {
        assert(digits@.reverse() =~= seq![c] + before.reverse());
    }
    let mut s = String::new();
    let mut i: usize = digits.len();
    while i > 0
        invariant
            i <= digits.len(),
            s@ == digits@.reverse().subrange(0, (digits.len() - i) as int),
            dec(n as nat) == digits@.reverse(),
        decreases i,
    {
        i -= 1;
        s.push(digits[i]);
        proof {
            let r = digits@.reverse();
            assert(r.subrange(0, (digits.len() - i) as int) == r.subrange(
                0,
                (digits.len() - i - 1) as int,
            ).push(r[(digits.len() - i - 1) as int]));
        }
    }
    proof {
        assert(digits@.reverse().subrange(0, digits.len() as int) == digits@.reverse());
    }
    s
}

/// Decimal text of a signed number.
pub fn i64_to_dec(n: i64) -> (s: String)
    ensures
        s@ == dec_int(n as int),
{
    if n < 0 {
        let mag: u64 = if n == i64::MIN {
            9_223_372_036_854_775_808u64
        } else {
            (-n) as u64
        };
        let digits = u64_to_dec(mag);
        let mut s = String::new();
        s.push('-');
        push_str(&mut s, digits.as_str());
        s
    } else {
        u64_to_dec(n as u64)
    }
}

/// Decimal text of `n`, zero-padded on the left to `width` characters.
pub fn u64_to_dec_padded(n: u64, width: usize) -> (s: String)
    ensures
        s@ == zero_pad(dec(n as nat), width as nat),
{
    let digits = u64_to_dec(n);
    let len = digits.unicode_len();
    if len >= width {
        return digits;
    }
    let mut s = String::new();
    let mut i: usize = 0;
    while i < width - len
        invariant
            len == digits@.len(),
            len < width,
            i <= width - len,
            s@ == Seq::new(i as nat, |k: int| '0'),
        decreases width - len - i,
    {
        s.push('0');
        i += 1;
        proof {
            assert(s@ == Seq::new(i as nat, |k: int| '0'));
        }
    }
    push_str(&mut s, digits.as_str());
    s
}

/// The bytes written as two lowercase hex digits each.
pub fn to_hex(bytes: &[u8]) -> (s: String)
    ensures
        s@ == hex(bytes@),
{
    let mut s = String::new();
    let mut i: usize = 0;
    while i < bytes.len()
        invariant
            i <= bytes.len(),
            s@ == hex(bytes@.subrange(0, i as int)),
        decreases bytes.len() - i,
    {
        let b = bytes[i];
        let hi = b / 16;
        let lo = b % 16;
        let hc = if hi < 10 {
            (48u8 + hi) as char
        } else {
            (87u8 + hi) as char
        };
        let lc = if lo < 10 {
            (48u8 + lo) as char
        } else {
            (87u8 + lo) as char
        };
        s.push(hc);
        s.push(lc);
        proof {
            let pre = bytes@.subrange(0, i + 1);
            assert(pre.drop_last() == bytes@.subrange(0, i as int));
            assert(pre.last() == b);
            assert(hc == digit_char(hi as nat));
            assert(lc == digit_char(lo as nat));
        }
        i += 1;
    }
    proof {
        assert(bytes@.subrange(0, bytes@.len() as int) == bytes@);
    }
    s
}

/// `s` with tab, carriage return and newline each replaced by a space.
pub fn replace_controls_with_space(s: &str) -> (r: String)
    ensures
        r@ == replace_chars(s@, |c: char| c == '\t' || c == '\r' || c == '\n', ' '),
{
    let n = s.unicode_len();
    let mut r = String::new();
    let mut i: usize = 0;
    while i < n
        invariant
            n == s@.len(),
            i <= n,
            r@ == replace_chars(
                s@.subrange(0, i as int),
                |c: char| c == '\t' || c == '\r' || c == '\n',
                ' ',
            ),
        decreases n - i,
    {
        let c = s.get_char(i);
        if c == '\t' || c == '\r' || c == '\n' {
            r.push(' ');
        } else {
            r.push(c);
        }
        proof {
            assert(s@.subrange(0, i + 1) == s@.subrange(0, i as int).push(c));
        }
        i += 1;
    }
    proof {
        assert(s@.subrange(0, n as int) == s@);
    }
    r
}

/// `s` with every double quote doubled.
pub fn double_quotes(s: &str) -> (r: String)
    ensures
        r@ == double_char(s@, '"'),
{
    let n = s.unicode_len();
    let mut r = String::new();
    let mut i: usize = 0;
    while i < n
        invariant
            n == s@.len(),
            i <= n,
            r@ == double_char(s@.subrange(0, i as int), '"'),
        decreases n - i,
    {
        let c = s.get_char(i);
        if c == '"' {
            r.push('"');
            r.push('"');
        } else {
            r.push(c);
        }
        proof {
            let pre = s@.subrange(0, i + 1);
            assert(pre.drop_last() == s@.subrange(0, i as int));
            assert(pre.last() == c);
        }
        i += 1;
    }
    proof {
        assert(s@.subrange(0, n as int) == s@);
    }
    r
}

/// `parts` joined by `sep`.
pub fn join_strings(parts: &Vec<String>, sep: &str) -> (r: String)
    ensures
        r@ == join(views(parts@), sep@),
{
    let mut r = String::new();
    let mut i: usize = 0;
    while i < parts.len()
        invariant
            i <= parts.len(),
            r@ == join(views(parts@).subrange(0, i as int), sep@),
        decreases parts.len() - i,
    {
        if i > 0 {
            push_str(&mut r, sep);
        }
        push_str(&mut r, parts[i].as_str());
        proof {
            let v = views(parts@);
            assert(v.subrange(0, i + 1).drop_last() == v.subrange(0, i as int));
            if i == 0 {
                assert(r@ == v[0]);
            }
        }
        i += 1;
    }
    proof {
        assert(views(parts@).subrange(0, parts.len() as int) == views(parts@));
    }
    r
}

/// A copy of every string in `v`.
pub fn clone_strings(v: &Vec<String>) -> (r: Vec<String>)
    ensures
        r@ == v@,
{
    let mut r: Vec<String> = Vec::new();
    let mut i: usize = 0;
    while i < v.len()
        invariant
            i <= v.len(),
            r@ == v@.subrange(0, i as int),
        decreases v.len() - i,
    {
        r.push(v[i].clone());
        i += 1;
    }
    proof {
        assert(v@.subrange(0, v.len() as int) == v@);
    }
    r
}

/// A copy of every pair in `v`.
pub fn clone_pairs(v: &Vec<(String, String)>) -> (r: Vec<(String, String)>)
    ensures
        r@ == v@,
{
    let mut r: Vec<(String, String)> = Vec::new();
    let mut i: usize = 0;
    while i < v.len()
        invariant
            i <= v.len(),
            r@ == v@.subrange(0, i as int),
        decreases v.len() - i,
    {
        let (a, b) = &v[i];
        r.push((a.clone(), b.clone()));
        i += 1;
    }
    proof {
        assert(v@.subrange(0, v.len() as int) == v@);
    }
    r
}

/// A copy of an optional string.
pub fn clone_opt(o: &Option<String>) -> (r: Option<String>)
    ensures
        r == *o,
{
    match o {
        Some(s) => Some(s.clone()),
        None => None,
    }
}

/// Whether `v` holds a string with the characters of `s`.
pub fn contains_str(v: &Vec<String>, s: &str) -> (r: bool)
    ensures
        r == views(v@).contains(s@),
{
    let mut i: usize = 0;
    while i < v.len()
        invariant
            i <= v.len(),
            forall|j: int| 0 <= j < i ==> v@[j]@ != s@,
        decreases v.len() - i,
    {
        if str_eq(v[i].as_str(), s) {
            assert(views(v@)[i as int] == s@);
            return true;
        }
        i += 1;
    }
    proof {
        if views(v@).contains(s@) {
            let j = choose|j: int| 0 <= j < views(v@).len() && views(v@)[j] == s@;
            assert(v@[j]@ == s@);
        }
    }
    false
}

} // verus!
